//! End-to-end exchanges against the connection engine: status, ping, and
//! the offline login handshake with a wrong and with a correct token.

use rsa::pkcs8::DecodePublicKey;
use rsa::Pkcs1v15Encrypt;
use rustcraft::aes_util::{initialize, SimpleDecryptor, SimpleEncryptor};
use rustcraft::config::Config;
use rustcraft::connection::{Action, Connection};
use rustcraft::packet::{PacketReader, PacketWriter};
use rustcraft::packet_utils::read_varint;
use rustcraft::server::ServerData;

fn test_config(online: bool) -> Config {
    let mut config = Config::default();
    config.server.online_mode = online;
    config
}

fn new_connection(online: bool) -> Connection {
    let server_data = ServerData::generate().expect("keypair generation failed");
    Connection::new(server_data, test_config(online)).expect("connection setup failed")
}

fn handshake_frame(next_state: i32) -> Vec<u8> {
    let mut w = PacketWriter::new(0x00);
    w.write_varint(767);
    w.write_string("localhost");
    w.write_ushort(25565);
    w.write_varint(next_state);
    w.build_uncompressed()
}

/// Split one reply off a raw byte stream: the frame's payload reader.
fn reader_of(wire: &Vec<u8>) -> (PacketReader, usize) {
    let (length, header) = read_varint(wire, 0).expect("frame length");
    let end = header + length as usize;
    let frame: Vec<u8> = wire[header..end].to_vec();
    (PacketReader::new(&frame).expect("packet id"), end)
}

fn single_send(actions: Vec<Action>) -> Vec<u8> {
    assert_eq!(actions.len(), 1);
    match actions.into_iter().next().unwrap() {
        Action::Send(w) => w,
        Action::Authenticate { .. } => panic!("expected a send"),
    }
}

#[test]
fn scenario_status_request() {
    let mut conn = new_connection(false);
    let acts = conn.receive_bytes(&handshake_frame(1));
    assert!(acts.is_empty());

    let status_request = PacketWriter::new(0x00).build_uncompressed();
    let wire = single_send(conn.receive_bytes(&status_request));

    let (mut reader, consumed) = reader_of(&wire);
    assert_eq!(consumed, wire.len());
    assert_eq!(reader.id(), 0x00);
    let body = reader.read_string().expect("json body");
    let parsed: serde_json::Value = serde_json::from_str(&body).expect("status json parses");
    assert_eq!(parsed["players"]["max"], 69);
    assert_eq!(
        parsed["description"]["text"],
        "Rusty experimental minecraft server!"
    );
    assert_eq!(parsed["version"]["protocol"], 767);
}

#[test]
fn scenario_ping_echo() {
    let mut conn = new_connection(false);
    conn.receive_bytes(&handshake_frame(1));

    let mut ping = PacketWriter::new(0x01);
    ping.write_long(123456789);
    let wire = single_send(conn.receive_bytes(&ping.build_uncompressed()));

    let (mut reader, _) = reader_of(&wire);
    assert_eq!(reader.id(), 0x01);
    assert_eq!(reader.read_long().expect("timestamp"), 123456789);
}

/// Drive an offline login up to the encryption request, returning the
/// server's public key and verify token from that request.
fn start_offline_login(conn: &mut Connection) -> (Vec<u8>, Vec<u8>) {
    let acts = conn.receive_bytes(&handshake_frame(2));
    assert!(acts.is_empty());

    let mut login_start = PacketWriter::new(0x00);
    login_start.write_string("Alice");
    login_start.write_uuid(7);
    let wire = single_send(conn.receive_bytes(&login_start.build_uncompressed()));

    let (mut reader, _) = reader_of(&wire);
    assert_eq!(reader.id(), 0x01);
    let server_id = reader.read_string().expect("server id");
    assert_eq!(server_id, "");
    let key_len = reader.read_varint().expect("key length");
    let public_key = reader.read_byte_array(key_len as usize).expect("key");
    let token_len = reader.read_varint().expect("token length");
    let token = reader.read_byte_array(token_len as usize).expect("token");
    assert_eq!(token.len(), 4);
    (public_key, token)
}

#[test]
fn scenario_login_wrong_token() {
    let mut conn = new_connection(false);
    let (public_key_der, token) = start_offline_login(&mut conn);

    let public_key = rsa::RsaPublicKey::from_public_key_der(&public_key_der).expect("der");
    let mut rng = rand::thread_rng();
    let shared_secret: Vec<u8> = vec![42u8; 16];
    let wrong_token: Vec<u8> = vec![token[0].wrapping_add(1), token[1], token[2], token[3]];
    let enc_secret = public_key
        .encrypt(&mut rng, Pkcs1v15Encrypt, &shared_secret)
        .expect("encrypt secret");
    let enc_token = public_key
        .encrypt(&mut rng, Pkcs1v15Encrypt, &wrong_token)
        .expect("encrypt token");

    let mut response = PacketWriter::new(0x01);
    response.write_varint(enc_secret.len() as i32);
    response.write_byte_array(&enc_secret);
    response.write_varint(enc_token.len() as i32);
    response.write_byte_array(&enc_token);
    let wire = single_send(conn.receive_bytes(&response.build_uncompressed()));

    // The reply is a plaintext login disconnect: no encryption was enabled
    // and no login success was sent.
    let (mut reader, consumed) = reader_of(&wire);
    assert_eq!(consumed, wire.len());
    assert_eq!(reader.id(), 0x00);
    let reason = reader.read_string().expect("reason json");
    assert_eq!(reason, "{\"text\":\"Verify tokens didn't match.\"}");
}

#[test]
fn scenario_login_correct_token() {
    let mut conn = new_connection(false);
    let (public_key_der, token) = start_offline_login(&mut conn);

    let public_key = rsa::RsaPublicKey::from_public_key_der(&public_key_der).expect("der");
    let mut rng = rand::thread_rng();
    let shared_secret: Vec<u8> = vec![42u8; 16];
    let enc_secret = public_key
        .encrypt(&mut rng, Pkcs1v15Encrypt, &shared_secret)
        .expect("encrypt secret");
    let enc_token = public_key
        .encrypt(&mut rng, Pkcs1v15Encrypt, &token)
        .expect("encrypt token");

    let mut response = PacketWriter::new(0x01);
    response.write_varint(enc_secret.len() as i32);
    response.write_byte_array(&enc_secret);
    response.write_varint(enc_token.len() as i32);
    response.write_byte_array(&enc_token);
    let wire = single_send(conn.receive_bytes(&response.build_uncompressed()));

    // The reply is an encrypted login success: decrypt it client-side with
    // the shared secret.
    let (_, mut client_decryptor) = initialize(&shared_secret);
    let plain = client_decryptor.decrypt(&wire);

    let (mut reader, consumed) = reader_of(&plain);
    assert_eq!(consumed, plain.len());
    assert_eq!(reader.id(), 0x02);
    let uuid = reader.read_uuid().expect("uuid");
    let name = reader.read_string().expect("name");
    let property_count = reader.read_varint().expect("property count");
    let strict = reader.read_boolean().expect("strict flag");
    assert_eq!(name, "Alice");
    assert_eq!(uuid, 7);
    assert_eq!(property_count, 0);
    assert!(!strict);

    // Login acknowledged travels encrypted too; the client's encryptor
    // starts fresh, mirroring the server's decryptor.
    let (mut client_encryptor, _) = initialize(&shared_secret);
    let ack = PacketWriter::new(0x03).build_uncompressed();
    let acts = conn.receive_bytes(&client_encryptor.encrypt(&ack));
    assert!(acts.is_empty());
}
