//! The session hash against its published reference vectors, and the
//! other small verified pieces on concrete values.

use rustcraft::auth_hash::{calc_hash, calc_hash_from_str, sha1};
use rustcraft::bitmasks::DisplayedSkinParts;
use rustcraft::identifier::Identifier;
use rustcraft::json_text::{disconnect_json, status_json};
use rustcraft::logger::LogLevel;
use rustcraft::mojauth::{parse_uuid, session_endpoint};
use rustcraft::position::Position;
use rustcraft::text::int_to_string;

#[test]
fn test_cases() {
    let pairs: Vec<(&str, &str)> = vec![
        ("Notch", "4ed1f46bbe04bc756bcb17c0c7ce3e4632f06a48"),
        ("jeb_", "-7c9d5b0044c130109a5d7b5fb5c317c02b4e28c1"),
        ("simon", "88e16a1019277b15d58faf0541e11910eb756f6"),
    ];
    for (input, output) in pairs {
        assert_eq!(&calc_hash_from_str(input), output);
    }
}

#[test]
fn test_calc_hash_zero_digest() {
    let digest: Vec<u8> = vec![0u8; 20];
    assert_eq!(calc_hash(&digest), "");
}

#[test]
fn test_sha1_digest_length() {
    let digest = sha1(&b"abc".to_vec());
    assert_eq!(digest.len(), 20);
    assert_eq!(calc_hash(&digest), "-5666c1c9b8f97e9545c1da8e87af3d93632f2763");
}

#[test]
fn test_int_to_string() {
    assert_eq!(int_to_string(0), "0");
    assert_eq!(int_to_string(767), "767");
    assert_eq!(int_to_string(-42), "-42");
    assert_eq!(int_to_string(i32::MIN), "-2147483648");
    assert_eq!(int_to_string(i32::MAX), "2147483647");
}

#[test]
fn test_disconnect_json_escapes() {
    assert_eq!(disconnect_json("bye"), "{\"text\":\"bye\"}");
    assert_eq!(disconnect_json("say \"hi\"\n"), "{\"text\":\"say \\\"hi\\\"\\n\"}");
}

#[test]
fn test_status_json_shape() {
    let json = status_json("Rusty 1.21", 767, 69, "hello");
    assert_eq!(
        json,
        "{\"version\":{\"name\":\"Rusty 1.21\",\"protocol\":767},\"players\":{\"max\":69,\"online\":69,\"sample\":[]},\"description\":{\"text\":\"hello\"},\"enforcesSecureChat\":false}"
    );
}

#[test]
fn test_session_endpoint() {
    assert_eq!(
        session_endpoint("Alice", "abc123"),
        "/session/minecraft/hasJoined?username=Alice&serverId=abc123"
    );
}

#[test]
fn test_parse_uuid_forms() {
    assert_eq!(
        parse_uuid("00000000000000000000000000000001"),
        Some(1u128)
    );
    assert_eq!(
        parse_uuid("069a79f4-44e9-4726-a5be-fca90e38aaf5"),
        Some(0x069a79f444e94726a5befca90e38aaf5u128)
    );
    assert_eq!(parse_uuid("069a79f444e94726a5befca90e38aaf5"), Some(0x069a79f444e94726a5befca90e38aaf5u128));
    assert_eq!(parse_uuid("not-a-uuid"), None);
    assert_eq!(parse_uuid("069a79f4-44e9-4726-a5be-fca90e38aaf"), None);
    assert_eq!(parse_uuid("0000000000000000000000000000000g"), None);
}

#[test]
fn test_identifier() {
    let id = Identifier::new(None, "brand").unwrap();
    assert_eq!(id.namespace(), "minecraft");
    assert_eq!(id.value(), "brand");

    let id = Identifier::from_text("minecraft:brand").unwrap();
    assert_eq!(id.namespace(), "minecraft");
    assert_eq!(id.value(), "brand");

    assert!(Identifier::new(Some("BAD"), "brand").is_err());
    assert!(Identifier::new(None, "").is_err());
    assert!(Identifier::from_text("ns:with space").is_err());
}

#[test]
fn test_position_codec() {
    let p = Position::new(100, -60, -200);
    let decoded = Position::decode(p.encode());
    assert_eq!(decoded.x(), 100);
    assert_eq!(decoded.y(), -60);
    assert_eq!(decoded.z(), -200);
}

#[test]
fn test_skin_parts_bitmask() {
    let only_cape = DisplayedSkinParts::from_bitmask(0x01);
    assert!(only_cape.cape_enabled);
    assert!(!only_cape.hat_enabled);

    // The comparison-style decode only reads a flag when the whole byte is
    // that single bit, so a combined mask lights nothing.
    let combined = DisplayedSkinParts::from_bitmask(0x7f);
    assert!(!combined.cape_enabled);
    assert!(!combined.jacket_enabled);
}

#[test]
fn test_log_level() {
    assert_eq!(LogLevel::Error.to_string(), "ERROR");
    assert_eq!(LogLevel::Debug.to_string(), "DEBUG");
    assert!(LogLevel::Error.should_log(&LogLevel::Info));
    assert!(!LogLevel::Debug.should_log(&LogLevel::Info));
    assert!(LogLevel::Info.should_log(&LogLevel::Info));
}
