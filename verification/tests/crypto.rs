use credvault::encryption::Encryption;
use credvault::errors::CryptoError;
use std::collections::HashSet;

fn cipher_with(byte: u8) -> Encryption {
    Encryption::new(vec![byte; 32])
}

#[test]
fn password_round_trip() {
    let enc = cipher_with(42);
    let (ct, nonce) = enc.encrypt_password("correct horse battery staple");
    assert_eq!(
        enc.decrypt_password(&ct, &nonce),
        Ok(String::from("correct horse battery staple"))
    );
}

#[test]
fn unicode_password_round_trip() {
    let enc = cipher_with(7);
    let (ct, nonce) = enc.encrypt_password("pässwörd \u{1F511} ✓");
    assert_eq!(
        enc.decrypt_password(&ct, &nonce),
        Ok(String::from("pässwörd \u{1F511} ✓"))
    );
}

#[test]
fn empty_password_round_trip() {
    let enc = cipher_with(9);
    let (ct, nonce) = enc.encrypt_password("");
    assert_eq!(ct.len(), 16);
    assert_eq!(enc.decrypt_password(&ct, &nonce), Ok(String::new()));
}

#[test]
fn byte_round_trip_and_lengths() {
    let enc = cipher_with(1);
    let plaintext = vec![0_u8, 1, 2, 253, 254, 255];
    let (ct, nonce) = enc.encrypt_bytes(&plaintext);
    assert_eq!(ct.len(), plaintext.len() + 16);
    assert_eq!(nonce.len(), 12);
    assert_eq!(enc.decrypt_bytes(&ct, &nonce), Ok(plaintext));
}

#[test]
fn ten_thousand_encryptions_use_distinct_nonces() {
    let enc = cipher_with(42);
    let mut nonces: HashSet<Vec<u8>> = HashSet::new();
    for _ in 0..10_000 {
        let (_, nonce) = enc.encrypt_password("same plaintext every time");
        assert_eq!(nonce.len(), 12);
        nonces.insert(nonce);
    }
    assert_eq!(nonces.len(), 10_000);
}

#[test]
fn flipping_any_ciphertext_bit_fails_authentication() {
    let enc = cipher_with(42);
    let (ct, nonce) = enc.encrypt_password("secret");
    for i in 0..ct.len() {
        for bit in 0..8 {
            let mut tampered = ct.clone();
            tampered[i] ^= 1 << bit;
            assert_eq!(
                enc.decrypt_password(&tampered, &nonce),
                Err(CryptoError::AuthenticationFailure)
            );
        }
    }
}

#[test]
fn flipping_any_nonce_bit_fails_authentication() {
    let enc = cipher_with(42);
    let (ct, nonce) = enc.encrypt_password("secret");
    for i in 0..nonce.len() {
        for bit in 0..8 {
            let mut tampered = nonce.clone();
            tampered[i] ^= 1 << bit;
            assert_eq!(
                enc.decrypt_password(&ct, &tampered),
                Err(CryptoError::AuthenticationFailure)
            );
        }
    }
}

#[test]
fn decrypting_under_another_key_fails_authentication() {
    let enc = cipher_with(42);
    let other = cipher_with(43);
    let (ct, nonce) = enc.encrypt_password("secret");
    assert_eq!(
        other.decrypt_password(&ct, &nonce),
        Err(CryptoError::AuthenticationFailure)
    );
}

#[test]
fn sealed_invalid_utf8_yields_decoding_failure() {
    let enc = cipher_with(42);
    let (ct, nonce) = enc.encrypt_bytes(&[0xff, 0xfe, 0x80]);
    assert_eq!(
        enc.decrypt_password(&ct, &nonce),
        Err(CryptoError::DecodingFailure)
    );
}
