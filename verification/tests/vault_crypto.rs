use base64::Engine;
use amorfly_ai::security::{decrypt_string_with_key, encrypt_string_with_key, key_from_bytes, seal_with_nonce};

const KEY: [u8; 32] = [7u8; 32];

#[test]
fn what_is_encrypted_decrypts_to_itself() {
    for text in ["", "merhaba", "gizli ayarlar: {\"a\":1} ğüşıöç"] {
        let sealed = encrypt_string_with_key(&KEY, text).unwrap();
        assert_ne!(sealed, text);
        assert_eq!(decrypt_string_with_key(&KEY, &sealed), Ok(text.to_string()));
    }
}

#[test]
fn a_fresh_nonce_each_time() {
    let a = encrypt_string_with_key(&KEY, "x").unwrap();
    let b = encrypt_string_with_key(&KEY, "x").unwrap();
    assert_ne!(a, b);
}

#[test]
fn sealing_with_a_given_nonce_is_repeatable() {
    let a = seal_with_nonce(&KEY, [1u8; 12], "x").unwrap();
    let b = seal_with_nonce(&KEY, [1u8; 12], "x").unwrap();
    assert_eq!(a, b);
    assert_eq!(decrypt_string_with_key(&KEY, &a), Ok("x".to_string()));
}

#[test]
fn wrong_key_or_damaged_payload() {
    let sealed = encrypt_string_with_key(&KEY, "x").unwrap();
    assert_eq!(
        decrypt_string_with_key(&[8u8; 32], &sealed),
        Err("Çözme başarısız — anahtar uyuşmuyor ya da veri bozuk.".to_string())
    );
    assert_eq!(decrypt_string_with_key(&KEY, "AAAA"), Err("Geçersiz şifreli veri.".to_string()));
    assert!(decrypt_string_with_key(&KEY, "%%%").unwrap_err().starts_with("Base64 çözümlenemedi: "));
}

#[test]
fn key_file_must_hold_32_bytes() {
    assert_eq!(key_from_bytes(&vec![3u8; 32]), Ok([3u8; 32]));
    assert_eq!(key_from_bytes(&vec![3u8; 31]), Err("Anahtar dosyası bozuk (beklenen 32 byte değil).".to_string()));
}

#[test]
fn the_stored_form_is_nonce_then_ciphertext() {
    for text in ["", "x", "ğüşıöç"] {
        let sealed = seal_with_nonce(&KEY, [3u8; 12], text).unwrap();
        let bytes = base64::engine::general_purpose::STANDARD.decode(&sealed).unwrap();
        assert_eq!(bytes.len(), 12 + text.len() + 16);
        assert_eq!(&bytes[..12], &[3u8; 12]);
        let fresh = encrypt_string_with_key(&KEY, text).unwrap();
        assert_eq!(base64::engine::general_purpose::STANDARD.decode(&fresh).unwrap().len(), 12 + text.len() + 16);
    }
}
