//! Frame extraction and the remaining engine paths: chunked delivery, bad
//! packet ids, the version-mismatch disconnect, and the online-mode
//! authentication round trip.

use rsa::pkcs8::DecodePublicKey;
use rsa::Pkcs1v15Encrypt;
use rustcraft::aes_util::{initialize, SimpleDecryptor};
use rustcraft::config::Config;
use rustcraft::connection::{Action, Connection};
use rustcraft::errors::PacketHandleError;
use rustcraft::frames::{extract_frame, extract_frames};
use rustcraft::mojauth::{SessionServerHasJoinedResponse, SessionServerProperty};
use rustcraft::packet::{PacketReader, PacketWriter};
use rustcraft::packet_utils::read_varint;
use rustcraft::server::ServerData;

#[test]
fn test_extract_frame_waits_for_length() {
    let mut acc: Vec<u8> = vec![0x05, 0x00, 0x01];
    assert!(extract_frame(&mut acc).is_none());
    assert_eq!(acc, vec![0x05, 0x00, 0x01]);

    acc.extend_from_slice(&[0x02, 0x03, 0x04]);
    let frame = extract_frame(&mut acc).expect("complete frame");
    assert_eq!(frame, vec![0x00, 0x01, 0x02, 0x03, 0x04]);
    assert!(acc.is_empty());
}

#[test]
fn test_extract_frames_split_invariance() {
    let mut stream: Vec<u8> = Vec::new();
    let mut w = PacketWriter::new(0x00);
    w.write_varint(123);
    stream.extend_from_slice(&w.build_uncompressed());
    let mut w = PacketWriter::new(0x01);
    w.write_string("two");
    stream.extend_from_slice(&w.build_uncompressed());
    stream.extend_from_slice(&[0x09, 0x00]);  // an incomplete trailing frame

    // All at once.
    let mut whole = stream.clone();
    let frames_whole = extract_frames(&mut whole);

    // One byte at a time.
    let mut acc: Vec<u8> = Vec::new();
    let mut frames_split: Vec<Vec<u8>> = Vec::new();
    for b in &stream {
        acc.push(*b);
        frames_split.extend(extract_frames(&mut acc));
    }

    assert_eq!(frames_whole, frames_split);
    assert_eq!(whole, acc);
}

fn offline_connection() -> Connection {
    let server_data = ServerData::generate().expect("keypair");
    Connection::new(server_data, {
        let mut c = Config::default();
        c.server.online_mode = false;
        c
    })
    .expect("connection")
}

#[test]
fn test_bad_packet_id() {
    let mut conn = offline_connection();
    let frame: Vec<u8> = vec![0x55];  // a lone packet id no handshake handler knows
    let reader = PacketReader::new(&frame).expect("reader");
    match conn.handle_packet(reader) {
        Err(PacketHandleError::BadId(id)) => assert_eq!(id, 0x55),
        _ => panic!("expected a bad-id error"),
    }
}

#[test]
fn test_version_mismatch_disconnects() {
    let mut conn = offline_connection();
    let mut handshake = PacketWriter::new(0x00);
    handshake.write_varint(700);  // an older protocol than the server's 767
    handshake.write_string("localhost");
    handshake.write_ushort(25565);
    handshake.write_varint(2);
    conn.receive_bytes(&handshake.build_uncompressed());

    let mut login_start = PacketWriter::new(0x00);
    login_start.write_string("Alice");
    login_start.write_uuid(7);
    let acts = conn.receive_bytes(&login_start.build_uncompressed());
    assert_eq!(acts.len(), 1);
    let wire = match &acts[0] {
        Action::Send(w) => w.clone(),
        _ => panic!("expected a send"),
    };
    let (_, header) = read_varint(&wire, 0).expect("length");
    let frame: Vec<u8> = wire[header..].to_vec();
    let mut reader = PacketReader::new(&frame).expect("reader");
    assert_eq!(reader.id(), 0x00);
    let reason = reader.read_string().expect("reason");
    assert!(reason.contains("Client out-of-date."));
    assert!(reason.contains("700"));
    assert!(reason.contains("767"));
}

#[test]
fn test_online_authentication_round_trip() {
    let server_data = ServerData::generate().expect("keypair");
    let mut conn = Connection::new(server_data, Config::default()).expect("connection");

    let mut handshake = PacketWriter::new(0x00);
    handshake.write_varint(767);
    handshake.write_string("localhost");
    handshake.write_ushort(25565);
    handshake.write_varint(2);
    conn.receive_bytes(&handshake.build_uncompressed());

    let mut login_start = PacketWriter::new(0x00);
    login_start.write_string("Alice");
    login_start.write_uuid(7);
    let acts = conn.receive_bytes(&login_start.build_uncompressed());
    assert_eq!(acts.len(), 1);
    let wire = match acts.into_iter().next().unwrap() {
        Action::Send(w) => w,
        _ => panic!("expected a send"),
    };
    let (_, header) = read_varint(&wire, 0).expect("length");
    let frame: Vec<u8> = wire[header..].to_vec();
    let mut reader = PacketReader::new(&frame).expect("reader");
    assert_eq!(reader.id(), 0x01);
    let _server_id = reader.read_string().expect("server id");
    let key_len = reader.read_varint().expect("key length") as usize;
    let public_key_der = reader.read_byte_array(key_len).expect("key");
    let token_len = reader.read_varint().expect("token length") as usize;
    let token = reader.read_byte_array(token_len).expect("token");

    let public_key = rsa::RsaPublicKey::from_public_key_der(&public_key_der).expect("der");
    let mut rng = rand::thread_rng();
    let shared_secret: Vec<u8> = vec![9u8; 16];
    let enc_secret = public_key
        .encrypt(&mut rng, Pkcs1v15Encrypt, &shared_secret)
        .expect("encrypt secret");
    let enc_token = public_key
        .encrypt(&mut rng, Pkcs1v15Encrypt, &token)
        .expect("encrypt token");
    let mut response = PacketWriter::new(0x01);
    response.write_varint(enc_secret.len() as i32);
    response.write_byte_array(&enc_secret);
    response.write_varint(enc_token.len() as i32);
    response.write_byte_array(&enc_token);
    let acts = conn.receive_bytes(&response.build_uncompressed());

    // Online mode parks the machine and asks for the session lookup.
    assert_eq!(acts.len(), 1);
    let (username, hash) = match acts.into_iter().next().unwrap() {
        Action::Authenticate { username, server_id_hash } => (username, server_id_hash),
        _ => panic!("expected an authenticate action"),
    };
    assert_eq!(username, "Alice");
    assert!(!hash.is_empty());

    // Bytes arriving while parked are held, not dispatched.
    let held = conn.receive_bytes(&Vec::new());
    assert!(held.is_empty());

    let response = SessionServerHasJoinedResponse {
        id: "069a79f444e94726a5befca90e38aaf5".to_owned(),
        name: "Alice".to_owned(),
        properties: vec![SessionServerProperty {
            name: "textures".to_owned(),
            value: "dGV4dHVyZXM=".to_owned(),
            signature: "c2lnbmF0dXJl".to_owned(),
        }],
    };
    let acts = conn.auth_result(Some(response));
    assert_eq!(acts.len(), 1);
    let wire = match acts.into_iter().next().unwrap() {
        Action::Send(w) => w,
        _ => panic!("expected a send"),
    };

    let (_, mut client_decryptor) = initialize(&shared_secret);
    let plain = client_decryptor.decrypt(&wire);
    let (_, header) = read_varint(&plain, 0).expect("length");
    let frame: Vec<u8> = plain[header..].to_vec();
    let mut reader = PacketReader::new(&frame).expect("reader");
    assert_eq!(reader.id(), 0x02);
    let uuid = reader.read_uuid().expect("uuid");
    let name = reader.read_string().expect("name");
    let property_count = reader.read_varint().expect("count");
    assert_eq!(uuid, 0x069a79f444e94726a5befca90e38aaf5u128);
    assert_eq!(name, "Alice");
    assert_eq!(property_count, 1);
    let prop_name = reader.read_string().expect("property name");
    let prop_value = reader.read_string().expect("property value");
    let has_signature = reader.read_boolean().expect("signature flag");
    let signature = reader.read_string().expect("signature");
    assert_eq!(prop_name, "textures");
    assert_eq!(prop_value, "dGV4dHVyZXM=");
    assert!(has_signature);
    assert_eq!(signature, "c2lnbmF0dXJl");
}

#[test]
fn test_auth_failure_disconnects() {
    let server_data = ServerData::generate().expect("keypair");
    let mut conn = Connection::new(server_data, Config::default()).expect("connection");
    // Without an outstanding lookup the verdict is ignored.
    let acts = conn.auth_result(None);
    assert!(acts.is_empty());
}
