//! The runtime configuration, as plain data.  Reading it from a file and
//! writing the default one back are jobs for the code around the library.

use vstd::prelude::*;

use crate::logger::LogLevel;

verus! {

/// Everything the server is configured with.
pub struct Config {
    pub server: ServerConfig,
    pub status: StatusConfig,
    pub misc: MiscConfig,
}

/// Where to listen and how to treat logins.
pub struct ServerConfig {
    pub ip: String,
    pub port: u16,
    pub max_players: i32,
    pub online_mode: bool,
}

/// What the status response advertises.
pub struct StatusConfig {
    pub version_prefix: String,
    pub motd: String,
}

/// Everything else.
pub struct MiscConfig {
    pub log_level: LogLevel,
}

impl Default for Config {
    /// The configuration a fresh server starts from.
    fn default() -> (c: Config)
        ensures
            c.server.ip@ == "127.0.0.1"@,
            c.server.port == 25565,
            c.server.max_players == 69,
            c.server.online_mode == true,
            c.status.version_prefix@ == "Rusty"@,
            c.status.motd@ == "Rusty experimental minecraft server!"@,
            c.misc.log_level == LogLevel::Info,
    {
        Config {
            server: ServerConfig {
                ip: "127.0.0.1".to_owned(),
                port: 25565,
                max_players: 69,
                online_mode: true,
            },
            status: StatusConfig {
                version_prefix: "Rusty".to_owned(),
                motd: "Rusty experimental minecraft server!".to_owned(),
            },
            misc: MiscConfig { log_level: LogLevel::Info },
        }
    }
}

} // verus!
