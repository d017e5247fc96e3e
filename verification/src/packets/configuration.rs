//! The configuration phase messages: client information, plugin messages,
//! keep-alives, the finish handshake pair and the phase's disconnect.

use vstd::prelude::*;

use crate::bitmasks::{spec_from_bitmask, DisplayedSkinParts};
use crate::errors::PacketReadError;
use crate::identifier::{first_colon, valid_namespace, valid_value, Identifier};
use crate::json_text::{disconnect_json, spec_disconnect_json};
use crate::packet::{frame_bytes, le_bytes, le_value, PacketReader, PacketWriter};
use crate::packet_utils::{parse_string, parse_varint, VarintParse};
use crate::packets::login::lemma_string_field_len;
use crate::packets::string_field;

verus! {

/// The configuration disconnect: one JSON document giving the reason.
pub struct ConfigurationClientboundDisconnect {
    pub json_disconnect_reason: String,
}

impl ConfigurationClientboundDisconnect {
    /// Wrap a plain reason into the JSON document.
    pub fn from_string(reason: String) -> (r: ConfigurationClientboundDisconnect)
        ensures
            r.json_disconnect_reason@ == spec_disconnect_json(reason@),
    {
        ConfigurationClientboundDisconnect {
            json_disconnect_reason: disconnect_json(reason.as_str()),
        }
    }

    /// The configuration-disconnect packet id.
    pub fn packet_id() -> (r: i32)
        ensures
            r == 2,
    {
        0x02
    }

    /// Build the disconnect frame: the JSON document as a string field.
    pub fn build(&self) -> (r: Vec<u8>)
        requires
            string_field(self.json_disconnect_reason@).len() + 10 < 0x8000_0000,
        ensures
            r@ == frame_bytes(2, string_field(self.json_disconnect_reason@)),
    {
        let mut writer = PacketWriter::new(Self::packet_id());
        writer.write_string(self.json_disconnect_reason.as_str());
        proof {
            assert(writer.payload() =~= string_field(self.json_disconnect_reason@));
        }
        writer.build_uncompressed()
    }
}

/// The text form of an identifier, `namespace:value`.
pub open spec fn identifier_text(id: Identifier) -> Seq<char> {
    id.spec_namespace() + seq![':'] + id.spec_value()
}

/// The wire form of a feature-flag list.
pub open spec fn flags_bytes(fs: Seq<Identifier>) -> Seq<u8>
    decreases fs.len(),
{
    if fs.len() == 0 {
        seq![]
    } else {
        string_field(identifier_text(fs[0])) + flags_bytes(fs.drop_first())
    }
}

proof fn lemma_flags_push(fs: Seq<Identifier>, f: Identifier)
    ensures
        flags_bytes(fs.push(f)) == flags_bytes(fs) + string_field(identifier_text(f)),
    decreases fs.len(),
{
    if fs.len() == 0 {
        assert(fs.push(f)[0] == f);
        assert(fs.push(f).drop_first() =~= Seq::<Identifier>::empty());
        assert(flags_bytes(Seq::<Identifier>::empty()) =~= Seq::<u8>::empty());
        assert(flags_bytes(fs.push(f)) =~= flags_bytes(fs) + string_field(identifier_text(f)));
    } else {
        assert(fs.push(f)[0] == fs[0]);
        assert(fs.push(f).drop_first() =~= fs.drop_first().push(f));
        lemma_flags_push(fs.drop_first(), f);
        assert(flags_bytes(fs.push(f)) =~= flags_bytes(fs) + string_field(identifier_text(f)));
    }
}

/// Sizes under which the feature-flag list surely fits a frame.
pub open spec fn feature_flags_fit(fs: Seq<Identifier>) -> bool {
    &&& fs.len() <= 256
    &&& forall|i: int|
        0 <= i < fs.len() ==> vstd::utf8::encode_utf8(identifier_text(#[trigger] fs[i])).len()
            <= 0x100000
}

proof fn lemma_flags_bytes_len(fs: Seq<Identifier>)
    requires
        feature_flags_fit(fs),
    ensures
        flags_bytes(fs).len() <= fs.len() * 0x100005,
    decreases fs.len(),
{
    if fs.len() > 0 {
        lemma_string_field_len(identifier_text(fs[0]));
        assert(feature_flags_fit(fs.drop_first())) by {
            assert(forall|i: int|
                0 <= i < fs.drop_first().len() ==> fs.drop_first()[i] == fs[i + 1]);
        }
        lemma_flags_bytes_len(fs.drop_first());
        assert((fs.len() - 1) * 0x100005 + 0x100005 == fs.len() * 0x100005) by (nonlinear_arith);
    }
}

/// The feature flags the server advertises.
pub struct ConfigurationClientboundFeatureFlags {
    pub feature_flags: Vec<Identifier>,
}

impl ConfigurationClientboundFeatureFlags {
    /// The feature-flags packet id.
    pub fn packet_id() -> (r: i32)
        ensures
            r == 0x0C,
    {
        0x0C
    }

    /// Build the feature-flags frame: a count, then each flag's text.
    pub fn build(&self) -> (r: Vec<u8>)
        requires
            feature_flags_fit(self.feature_flags@),
        ensures
            r@ == frame_bytes(
                0x0C,
                crate::packet_utils::varint_bytes(self.feature_flags@.len() as u32) + flags_bytes(
                    self.feature_flags@,
                ),
            ),
    {
        let mut writer = PacketWriter::new(Self::packet_id());
        writer.write_varint(self.feature_flags.len() as i32);
        let ghost head = writer.payload();
        let n: usize = self.feature_flags.len();
        let mut i: usize = 0;
        proof {
            assert(self.feature_flags@.take(0) =~= Seq::<Identifier>::empty());
            assert(writer.payload() =~= head + flags_bytes(self.feature_flags@.take(0)));
        }
        while i < n
            invariant
                n == self.feature_flags@.len(),
                i <= n,
                feature_flags_fit(self.feature_flags@),
                writer.spec_id() == 0x0C,
                writer.payload() == head + flags_bytes(self.feature_flags@.take(i as int)),
            decreases n - i,
        {
            let flag: &Identifier = &self.feature_flags[i];
            let mut text: String = String::new();
            text.append(flag.namespace());
            text.push(':');
            text.append(flag.value());
            proof {
                assert(text@ =~= identifier_text(self.feature_flags@[i as int]));
                lemma_string_field_len(identifier_text(self.feature_flags@[i as int]));
            }
            writer.write_string(text.as_str());
            proof {
                lemma_flags_push(
                    self.feature_flags@.take(i as int),
                    self.feature_flags@[i as int],
                );
                assert(self.feature_flags@.take(i + 1) =~= self.feature_flags@.take(
                    i as int,
                ).push(self.feature_flags@[i as int]));
                assert(writer.payload() =~= head + flags_bytes(self.feature_flags@.take(i + 1)));
            }
            i = i + 1;
        }
        proof {
            assert(self.feature_flags@.take(n as int) =~= self.feature_flags@);
            lemma_flags_bytes_len(self.feature_flags@);
            crate::packet_utils::lemma_varint_bytes_len(self.feature_flags@.len() as u32);
            assert(self.feature_flags@.len() * 0x100005 <= 256 * 0x100005) by (nonlinear_arith)
                requires
                    self.feature_flags@.len() <= 256,
            ;
        }
        writer.build_uncompressed()
    }
}

/// The empty finish-configuration signal.
pub struct ConfigurationClientboundFinishConfiguration {}

impl ConfigurationClientboundFinishConfiguration {
    /// The finish-configuration packet id.
    pub fn packet_id() -> (r: i32)
        ensures
            r == 3,
    {
        0x03
    }

    /// Build the finish-configuration frame: no payload.
    pub fn build(&self) -> (r: Vec<u8>)
        ensures
            r@ == frame_bytes(3, Seq::<u8>::empty()),
    {
        let writer = PacketWriter::new(Self::packet_id());
        proof {
            assert(writer.payload() =~= Seq::<u8>::empty());
        }
        writer.build_uncompressed()
    }
}

/// A clientbound keep-alive probe.
pub struct ConfigurationClientboundKeepAlive {
    pub keep_alive_id: i64,
}

impl ConfigurationClientboundKeepAlive {
    /// The clientbound keep-alive packet id.
    pub fn packet_id() -> (r: i32)
        ensures
            r == 4,
    {
        0x04
    }

    /// Build the keep-alive frame: one little-endian 64-bit id.
    pub fn build(&self) -> (r: Vec<u8>)
        ensures
            r@ == frame_bytes(4, le_bytes(self.keep_alive_id as u64 as nat, 8)),
    {
        let mut writer = PacketWriter::new(Self::packet_id());
        writer.write_long(self.keep_alive_id);
        proof {
            assert(writer.payload() =~= le_bytes(self.keep_alive_id as u64 as nat, 8));
            crate::packet::lemma_le_bytes_len(self.keep_alive_id as u64 as nat, 8);
        }
        writer.build_uncompressed()
    }
}

/// A clientbound plugin message: a channel and an opaque payload.
pub struct ConfigurationClientboundPluginMessage {
    pub channel: Identifier,
    pub data: Vec<u8>,
}

impl ConfigurationClientboundPluginMessage {
    /// The clientbound plugin-message packet id.
    pub fn packet_id() -> (r: i32)
        ensures
            r == 1,
    {
        0x01
    }

    /// Build the plugin-message frame: the channel text, then the raw data.
    pub fn build(&self) -> (r: Vec<u8>)
        requires
            vstd::utf8::encode_utf8(identifier_text(self.channel)).len() <= 0x100000,
            self.data@.len() + 0x200000 < 0x8000_0000,
        ensures
            r@ == frame_bytes(1, string_field(identifier_text(self.channel)) + self.data@),
    {
        let mut writer = PacketWriter::new(Self::packet_id());
        let mut text: String = String::new();
        text.append(self.channel.namespace());
        text.push(':');
        text.append(self.channel.value());
        proof {
            assert(text@ =~= identifier_text(self.channel));
            lemma_string_field_len(identifier_text(self.channel));
        }
        writer.write_string(text.as_str());
        writer.write_byte_array(self.data.as_slice());
        proof {
            assert(writer.payload() =~= string_field(identifier_text(self.channel)) + self.data@);
        }
        writer.build_uncompressed()
    }
}

/// The empty acknowledgement that configuration has finished.
pub struct ConfigurationServerboundAcknowledge {}

impl ConfigurationServerboundAcknowledge {
    /// The acknowledge-finish-configuration packet id.
    pub fn packet_id() -> (r: i32)
        ensures
            r == 3,
    {
        0x03
    }

    /// Read the acknowledgement: it carries no fields.
    pub fn read(reader: &mut PacketReader) -> (r: Result<
        ConfigurationServerboundAcknowledge,
        PacketReadError,
    >)
        requires
            old(reader).wf(),
        ensures
            final(reader).wf(),
            *final(reader) == *old(reader),
            r is Ok,
    {
        Ok(ConfigurationServerboundAcknowledge {})
    }
}

/// How the client wants chat delivered.
#[derive(Debug, Clone, Copy, PartialEq, Eq, Structural)]
pub enum ClientChatMode {
    Enabled,
    CommandsOnly,
    Hidden,
}

/// Which hand the client calls its main one.
#[derive(Debug, Clone, Copy, PartialEq, Eq, Structural)]
pub enum MainHand {
    Left,
    Right,
}

/// The chat-mode selector: 0, 1 or 2; anything else is a protocol error.
pub open spec fn chat_mode_of(v: i32) -> Result<ClientChatMode, PacketReadError> {
    if v == 0 {
        Ok(ClientChatMode::Enabled)
    } else if v == 1 {
        Ok(ClientChatMode::CommandsOnly)
    } else if v == 2 {
        Ok(ClientChatMode::Hidden)
    } else {
        Err(PacketReadError::UnexpectedValue)
    }
}

/// The main-hand selector: 0 or 1; anything else is a protocol error.
pub open spec fn main_hand_of(v: i32) -> Result<MainHand, PacketReadError> {
    if v == 0 {
        Ok(MainHand::Left)
    } else if v == 1 {
        Ok(MainHand::Right)
    } else {
        Err(PacketReadError::UnexpectedValue)
    }
}

/// The fields of a parsed client-information payload, and the bytes it
/// consumed.
pub struct ClientInformationView {
    pub locale: Seq<char>,
    pub view_distance: i16,
    pub chat_mode: ClientChatMode,
    pub chat_colors: bool,
    pub displayed_skin_parts: DisplayedSkinParts,
    pub main_hand: MainHand,
    pub enable_text_filtering: bool,
    pub allow_server_listings: bool,
    pub adv: int,
}

/// What a client-information payload parses to, field after field.
pub open spec fn parse_client_information(s: Seq<u8>) -> Result<
    ClientInformationView,
    PacketReadError,
> {
    match parse_string(s) {
        Ok((locale, l1)) => {
            let t1 = s.skip(l1);
            if t1.len() < 1 {
                Err(PacketReadError::BufferUnderflow)
            } else {
                match parse_varint(t1.skip(1)) {
                    VarintParse::Done { value: cm, len: l2 } => match chat_mode_of(cm as i32) {
                        Ok(chat_mode) => {
                            let t2 = t1.skip(1 + l2);
                            if t2.len() < 2 {
                                Err(PacketReadError::BufferUnderflow)
                            } else {
                                match parse_varint(t2.skip(2)) {
                                    VarintParse::Done { value: mh, len: l3 } => match main_hand_of(
                                        mh as i32,
                                    ) {
                                        Ok(main_hand) => {
                                            let t3 = t2.skip(2 + l3);
                                            if t3.len() < 2 {
                                                Err(PacketReadError::BufferUnderflow)
                                            } else {
                                                Ok(
                                                    ClientInformationView {
                                                        locale,
                                                        view_distance: t1[0] as i8 as i16,
                                                        chat_mode,
                                                        chat_colors: t2[0] != 0,
                                                        displayed_skin_parts: spec_from_bitmask(
                                                            t2[1],
                                                        ),
                                                        main_hand,
                                                        enable_text_filtering: t3[0] != 0,
                                                        allow_server_listings: t3[1] != 0,
                                                        adv: l1 + 1 + l2 + 2 + l3 + 2,
                                                    },
                                                )
                                            }
                                        },
                                        Err(e) => Err(e),
                                    },
                                    VarintParse::Incomplete => Err(PacketReadError::EmptyBuf),
                                    VarintParse::TooLong => Err(PacketReadError::TooLong),
                                }
                            }
                        },
                        Err(e) => Err(e),
                    },
                    VarintParse::Incomplete => Err(PacketReadError::EmptyBuf),
                    VarintParse::TooLong => Err(PacketReadError::TooLong),
                }
            }
        },
        Err(e) => Err(e),
    }
}

/// The client's settings, sent once at the start of configuration.
pub struct ConfigurationServerboundClientInformation {
    pub locale: String,
    pub view_distance: i16,
    pub chat_mode: ClientChatMode,
    pub chat_colors: bool,
    pub displayed_skin_parts: DisplayedSkinParts,
    pub main_hand: MainHand,
    pub enable_text_filtering: bool,
    pub allow_server_listings: bool,
}

impl ConfigurationServerboundClientInformation {
    /// The client-information packet id.
    pub fn packet_id() -> (r: i32)
        ensures
            r == 0,
    {
        0x00
    }

    /// Whether this packet matches a parsed view.
    pub open spec fn matches_view(&self, v: ClientInformationView) -> bool {
        &&& self.locale@ == v.locale
        &&& self.view_distance == v.view_distance
        &&& self.chat_mode == v.chat_mode
        &&& self.chat_colors == v.chat_colors
        &&& self.displayed_skin_parts == v.displayed_skin_parts
        &&& self.main_hand == v.main_hand
        &&& self.enable_text_filtering == v.enable_text_filtering
        &&& self.allow_server_listings == v.allow_server_listings
    }

    /// Read the client information, field after field.
    pub fn read(reader: &mut PacketReader) -> (r: Result<
        ConfigurationServerboundClientInformation,
        PacketReadError,
    >)
        requires
            old(reader).wf(),
        ensures
            final(reader).wf(),
            match r {
                Ok(p) => parse_client_information(old(reader).rem()) matches Ok(v)
                    && p.matches_view(v) && final(reader).rem() == old(reader).rem().skip(v.adv),
                Err(e) => parse_client_information(old(reader).rem()) matches Err(e2) && e == e2,
            },
    {
        let ghost s0 = reader.rem();
        proof {
            crate::packet_utils::lemma_parse_string_adv(s0);
        }
        let locale: String = match reader.read_string() {
            Ok(v) => v,
            Err(e) => {
                return Err(e);
            },
        };
        let ghost l1 = s0.len() - reader.rem().len();
        proof {
            assert(reader.rem() =~= s0.skip(l1));
        }
        let view_distance_byte: i8 = match reader.read_byte() {
            Ok(v) => v,
            Err(e) => {
                return Err(e);
            },
        };
        let view_distance: i16 = view_distance_byte as i16;
        proof {
            assert(reader.rem() =~= s0.skip(l1).skip(1));
        }
        proof {
            crate::packet_utils::lemma_parse_varint_done_len(s0.skip(l1).skip(1), 5);
        }
        let raw_chat_mode: i32 = match reader.read_varint() {
            Ok(v) => v,
            Err(e) => {
                return Err(e);
            },
        };
        let ghost l2 = s0.skip(l1).skip(1).len() - reader.rem().len();
        proof {
            assert(reader.rem() =~= s0.skip(l1).skip(1 + l2));
        }
        let chat_mode: ClientChatMode = if raw_chat_mode == 0 {
            ClientChatMode::Enabled
        } else if raw_chat_mode == 1 {
            ClientChatMode::CommandsOnly
        } else if raw_chat_mode == 2 {
            ClientChatMode::Hidden
        } else {
            return Err(PacketReadError::UnexpectedValue);
        };
        let chat_colors: bool = match reader.read_boolean() {
            Ok(v) => v,
            Err(e) => {
                return Err(e);
            },
        };
        let mask: u8 = match reader.read_ubyte() {
            Ok(v) => v,
            Err(e) => {
                proof {
                    assert(s0.skip(l1).skip(1 + l2).len() >= 1);
                    assert(s0.skip(l1).skip(1 + l2).len() < 2);
                }
                return Err(e);
            },
        };
        let displayed_skin_parts: DisplayedSkinParts = DisplayedSkinParts::from_bitmask(mask);
        proof {
            assert(reader.rem() =~= s0.skip(l1).skip(1 + l2).skip(2));
            assert(s0.skip(l1).skip(1 + l2)[1] == mask);
        }
        proof {
            crate::packet_utils::lemma_parse_varint_done_len(s0.skip(l1).skip(1 + l2).skip(2), 5);
        }
        let raw_main_hand: i32 = match reader.read_varint() {
            Ok(v) => v,
            Err(e) => {
                return Err(e);
            },
        };
        let ghost l3 = s0.skip(l1).skip(1 + l2).skip(2).len() - reader.rem().len();
        proof {
            assert(reader.rem() =~= s0.skip(l1).skip(1 + l2).skip(2 + l3));
        }
        let main_hand: MainHand = if raw_main_hand == 0 {
            MainHand::Left
        } else if raw_main_hand == 1 {
            MainHand::Right
        } else {
            return Err(PacketReadError::UnexpectedValue);
        };
        let enable_text_filtering: bool = match reader.read_boolean() {
            Ok(v) => v,
            Err(e) => {
                return Err(e);
            },
        };
        let allow_server_listings: bool = match reader.read_boolean() {
            Ok(v) => v,
            Err(e) => {
                proof {
                    assert(s0.skip(l1).skip(1 + l2).skip(2 + l3).len() >= 1);
                    assert(s0.skip(l1).skip(1 + l2).skip(2 + l3).len() < 2);
                }
                return Err(e);
            },
        };
        proof {
            assert(reader.rem() =~= s0.skip(l1 + 1 + l2 + 2 + l3 + 2));
            assert(s0.skip(l1).skip(1 + l2).skip(2 + l3)[1] == s0.skip(l1).skip(1 + l2).skip(
                2 + l3,
            ).skip(1)[0]);
        }
        Ok(
            ConfigurationServerboundClientInformation {
                locale,
                view_distance,
                chat_mode,
                chat_colors,
                displayed_skin_parts,
                main_hand,
                enable_text_filtering,
                allow_server_listings,
            },
        )
    }
}

/// A serverbound keep-alive reply.
pub struct ConfigurationServerboundKeepAlive {
    pub keep_alive_id: i64,
}

impl ConfigurationServerboundKeepAlive {
    /// The serverbound keep-alive packet id.
    pub fn packet_id() -> (r: i32)
        ensures
            r == 4,
    {
        0x04
    }

    /// Read a keep-alive: one little-endian 64-bit id.
    pub fn read(reader: &mut PacketReader) -> (r: Result<
        ConfigurationServerboundKeepAlive,
        PacketReadError,
    >)
        requires
            old(reader).wf(),
        ensures
            final(reader).wf(),
            match r {
                Ok(p) => old(reader).rem().len() >= 8 && p.keep_alive_id == le_value(
                    old(reader).rem().take(8),
                ) as u64 as i64 && final(reader).rem() == old(reader).rem().skip(8),
                Err(e) => e is BufferUnderflow && old(reader).rem().len() < 8,
            },
    {
        match reader.read_long() {
            Ok(keep_alive_id) => Ok(ConfigurationServerboundKeepAlive { keep_alive_id }),
            Err(e) => Err(e),
        }
    }
}

/// The channel halves a plugin-message channel string splits into.
pub open spec fn channel_split(text: Seq<char>) -> (Seq<char>, Seq<char>) {
    let cut = first_colon(text);
    if cut < text.len() {
        (text.subrange(0, cut), text.subrange(cut + 1, text.len() as int))
    } else {
        ("minecraft"@, text)
    }
}

/// A serverbound plugin message: a channel and the rest of the payload.
pub struct ConfigurationServerboundPluginMessage {
    pub channel: Identifier,
    pub data: Vec<u8>,
}

impl ConfigurationServerboundPluginMessage {
    /// The serverbound plugin-message packet id.
    pub fn packet_id() -> (r: i32)
        ensures
            r == 2,
    {
        0x02
    }

    /// Read a plugin message: a channel identifier, then every remaining
    /// byte as opaque data.
    pub fn read(reader: &mut PacketReader) -> (r: Result<
        ConfigurationServerboundPluginMessage,
        PacketReadError,
    >)
        requires
            old(reader).wf(),
        ensures
            final(reader).wf(),
            match r {
                Ok(p) => parse_string(old(reader).rem()) matches Ok((text, l1)) && ({
                    let (ns, value) = channel_split(text);
                    &&& valid_namespace(ns)
                    &&& valid_value(value)
                    &&& p.channel.spec_namespace() == ns
                    &&& p.channel.spec_value() == value
                    &&& p.data@ == old(reader).rem().skip(l1)
                    &&& final(reader).rem().len() == 0
                }),
                Err(PacketReadError::ConvertationIssue(_)) => parse_string(old(reader).rem())
                    matches Ok((text, l1)) && ({
                    let (ns, value) = channel_split(text);
                    !(valid_namespace(ns) && valid_value(value))
                }),
                Err(e) => parse_string(old(reader).rem()) matches Err(e2) && e == e2,
            },
    {
        let ghost s0 = reader.rem();
        proof {
            crate::packet_utils::lemma_parse_string_adv(s0);
        }
        let text: String = match reader.read_string() {
            Ok(v) => v,
            Err(e) => {
                return Err(e);
            },
        };
        let ghost l1 = s0.len() - reader.rem().len();
        proof {
            assert(reader.rem() =~= s0.skip(l1));
        }
        let channel: Identifier = match Identifier::from_text(text.as_str()) {
            Ok(v) => v,
            Err(msg) => {
                return Err(PacketReadError::ConvertationIssue(msg));
            },
        };
        let remaining: usize = reader.remaining();
        let data: Vec<u8> = match reader.read_byte_array(remaining) {
            Ok(v) => v,
            Err(e) => {
                proof {
                    assert(false);
                }
                return Err(e);
            },
        };
        proof {
            assert(data@ =~= s0.skip(l1));
            assert(reader.rem().len() == 0);
        }
        Ok(ConfigurationServerboundPluginMessage { channel, data })
    }
}

} // verus!
