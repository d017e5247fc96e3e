//! The stream cipher adapter against the cfb8 crate driven by hand.

use cipher::{BlockDecryptMut, BlockEncryptMut, KeyIvInit};
use rand::Rng;
use rustcraft::aes_util::{initialize, SimpleDecryptor, SimpleEncryptor};

#[test]
fn test_encrypt_trait() {
    // Generate random shared secret
    let mut rng = rand::thread_rng();
    let shared_secret: Vec<u8> = (0..16).map(|_| rng.gen()).collect();
    println!("Shared secret: {:x?}", shared_secret);

    // Initialize two encryptors with identical fresh state
    let (mut encryptor2, _) = initialize(&shared_secret);
    let mut encryptor1 =
        cfb8::Encryptor::<aes::Aes128>::new_from_slices(&shared_secret, &shared_secret).unwrap();

    // Generate a single block of data to encrypt and decrypt
    let data1: Vec<u8> = (0..16).map(|_| rng.gen()).collect();
    let data2 = data1.clone();
    println!("Data ({} bytes): {:x?}", data1.len(), data1);

    let mut encrypted_bytes1: Vec<u8> = Vec::new();
    for b in data1 {
        let mut block = cipher::generic_array::GenericArray::clone_from_slice(&[b]);
        encryptor1.encrypt_block_mut(&mut block);
        encrypted_bytes1.extend_from_slice(block.as_slice());
    }

    println!("Encrypted data #1 ({} bytes): {:x?}", encrypted_bytes1.len(), encrypted_bytes1);

    let encrypted_bytes2 = encryptor2.encrypt(&data2);
    println!("Encrypted data #2 ({} bytes): {:x?}", encrypted_bytes2.len(), encrypted_bytes2);

    assert_eq!(encrypted_bytes1, encrypted_bytes2);
}

#[test]
fn test_decrypt_trait() {
    // Generate random shared secret
    let mut rng = rand::thread_rng();
    let shared_secret: Vec<u8> = (0..16).map(|_| rng.gen()).collect();
    println!("Shared secret: {:x?}", shared_secret);

    // Initialize two decryptors with identical fresh state
    let (_, mut decryptor2) = initialize(&shared_secret);
    let mut decryptor1 =
        cfb8::Decryptor::<aes::Aes128>::new_from_slices(&shared_secret, &shared_secret).unwrap();

    // Generate a single block of data to encrypt and decrypt
    let data1: Vec<u8> = (0..16).map(|_| rng.gen()).collect();
    let data2 = data1.clone();
    println!("Data ({} bytes): {:x?}", data1.len(), data1);

    let mut decrypted_bytes1: Vec<u8> = Vec::new();
    for b in data1 {
        let mut block = cipher::generic_array::GenericArray::clone_from_slice(&[b]);
        decryptor1.decrypt_block_mut(&mut block);
        decrypted_bytes1.extend_from_slice(block.as_slice());
    }

    println!("Decrypted data #1 ({} bytes): {:x?}", decrypted_bytes1.len(), decrypted_bytes1);

    let decrypted_bytes2 = decryptor2.decrypt(&data2);
    println!("Decrypted data #2 ({} bytes): {:x?}", decrypted_bytes2.len(), decrypted_bytes2);

    assert_eq!(decrypted_bytes1, decrypted_bytes2);
}

#[test]
fn test_once() {
    // Generate random shared secret
    let mut rng = rand::thread_rng();
    let shared_secret: Vec<u8> = (0..16).map(|_| rng.gen()).collect();
    println!("Shared secret: {:x?}", shared_secret);

    // Initialize encryptor and decryptor
    let (mut encryptor, mut decryptor) = initialize(&shared_secret);

    // Generate a single block of data to encrypt and decrypt
    let data: Vec<u8> = (0..16).map(|_| rng.gen()).collect();
    println!("Data ({} bytes): {:x?}", data.len(), data);

    let encrypted_bytes = encryptor.encrypt(&data);
    println!("Encrypted data ({} bytes): {:x?}", encrypted_bytes.len(), encrypted_bytes);

    let decrypted_bytes = decryptor.decrypt(&encrypted_bytes);
    println!("Decrypted data ({} bytes): {:x?}", decrypted_bytes.len(), decrypted_bytes);

    assert_eq!(data, decrypted_bytes);
}

#[test]
fn test_several() {
    // Key and IV (Initialization Vector)
    let mut rng = rand::thread_rng();
    let shared_secret: Vec<u8> = (0..16).map(|_| rng.gen()).collect();
    println!("Shared secret: {:x?}", shared_secret);

    // Initialize encryptor and decryptor
    let (mut encryptor, mut decryptor) = initialize(&shared_secret);

    // Simulate a single block of data to encrypt and decrypt
    for i in 0..5 {
        println!("Test #{}", i);
        let data: Vec<u8> = (0..16).map(|_| rng.gen()).collect();
        println!("  Data ({} bytes): {:x?}", data.len(), data);

        let encrypted_bytes = encryptor.encrypt(&data);
        println!("  Encrypted data ({} bytes): {:x?}", encrypted_bytes.len(), encrypted_bytes);

        let decrypted_bytes = decryptor.decrypt(&encrypted_bytes);
        println!("  Decrypted data ({} bytes): {:x?}", decrypted_bytes.len(), decrypted_bytes);

        assert_eq!(data, decrypted_bytes);
    }
}

#[test]
fn test_long_data() {
    // Generate random shared secret
    let mut rng = rand::thread_rng();
    let shared_secret: Vec<u8> = (0..16).map(|_| rng.gen()).collect();
    println!("Shared secret: {:x?}", shared_secret);

    // Initialize encryptor and decryptor
    let (mut encryptor, mut decryptor) = initialize(&shared_secret);

    // Generate a single block of data to encrypt and decrypt
    let data: Vec<u8> = (0..256).map(|_| rng.gen()).collect();
    println!("Data ({} bytes): {:x?}", data.len(), data);

    let encrypted_bytes = encryptor.encrypt(&data);
    println!("Encrypted data ({} bytes): {:x?}", encrypted_bytes.len(), encrypted_bytes);

    let decrypted_bytes = decryptor.decrypt(&encrypted_bytes);
    println!("Decrypted data ({} bytes): {:x?}", decrypted_bytes.len(), decrypted_bytes);

    assert_eq!(data, decrypted_bytes);
}

#[test]
fn test_chunked_equals_whole() {
    let shared_secret: Vec<u8> = vec![7u8; 16];
    let (mut enc_chunked, _) = initialize(&shared_secret);
    let (mut enc_whole, _) = initialize(&shared_secret);

    let first: Vec<u8> = vec![b'A'];
    let second: Vec<u8> = vec![b'B'];
    let both: Vec<u8> = vec![b'A', b'B'];

    let mut chunked = enc_chunked.encrypt(&first);
    chunked.extend_from_slice(&enc_chunked.encrypt(&second));
    let whole = enc_whole.encrypt(&both);

    assert_eq!(chunked, whole);
}
