use betcore::amount::Amount;
use betcore::crypto::CryptoService;
use betcore::errors::AppError;

use base64::engine::general_purpose;
use base64::Engine;

fn test_service() -> CryptoService {
    CryptoService::from_string("32_byte_long_encryption_key_test")
}

#[test]
fn test_balance_encryption() {
    let crypto = test_service();

    let amount = Amount { cents: 123456 }; // 1234.56
    let (encrypted, iv) = crypto.encrypt_balance(&amount).unwrap();

    let decrypted = crypto.decrypt_balance(&encrypted, &iv).unwrap();
    assert_eq!(amount, decrypted);
}

#[test]
fn test_roundtrip_edge_amounts() {
    let crypto = CryptoService::new(&[0u8; 32]);
    for cents in [0u64, 1, 99, 100, 101, 10_000, u64::MAX - 1, u64::MAX] {
        let amount = Amount { cents };
        let (encrypted, iv) = crypto.encrypt_balance(&amount).unwrap();
        let decrypted = crypto.decrypt_balance(&encrypted, &iv).unwrap();
        assert_eq!(amount, decrypted);
    }
}

#[test]
fn test_distinct_keys_reject() {
    let crypto = CryptoService::new(&[1u8; 32]);
    let other = CryptoService::new(&[2u8; 32]);
    let amount = Amount { cents: 5000 };
    let (encrypted, iv) = crypto.encrypt_balance(&amount).unwrap();
    assert!(matches!(
        other.decrypt_balance(&encrypted, &iv),
        Err(AppError::Encryption(_))
    ));
}

#[test]
fn test_tamper_detection_ciphertext() {
    let crypto = test_service();
    let amount = Amount { cents: 100_00 };
    let (encrypted, iv) = crypto.encrypt_balance(&amount).unwrap();

    let mut ct = general_purpose::STANDARD.decode(&encrypted).unwrap();
    for byte_idx in 0..ct.len() {
        for bit in 0..8 {
            ct[byte_idx] ^= 1 << bit;
            let tampered = general_purpose::STANDARD.encode(&ct);
            assert!(matches!(
                crypto.decrypt_balance(&tampered, &iv),
                Err(AppError::Encryption(_))
            ));
            ct[byte_idx] ^= 1 << bit;
        }
    }
}

#[test]
fn test_tamper_detection_nonce() {
    let crypto = test_service();
    let amount = Amount { cents: 100_00 };
    let (encrypted, iv) = crypto.encrypt_balance(&amount).unwrap();

    let mut nonce = general_purpose::STANDARD.decode(&iv).unwrap();
    for byte_idx in 0..nonce.len() {
        for bit in 0..8 {
            nonce[byte_idx] ^= 1 << bit;
            let tampered = general_purpose::STANDARD.encode(&nonce);
            assert!(matches!(
                crypto.decrypt_balance(&encrypted, &tampered),
                Err(AppError::Encryption(_))
            ));
            nonce[byte_idx] ^= 1 << bit;
        }
    }
}

#[test]
fn test_garbage_ciphertext_rejected() {
    let crypto = test_service();
    assert!(matches!(
        crypto.decrypt_balance("not base64 at all!!", "AAAAAAAAAAAAAAAA"),
        Err(AppError::Encryption(_))
    ));
    // Valid base64, but not an authentic ciphertext.
    assert!(matches!(
        crypto.decrypt_balance("AAAAAAAAAAAAAAAAAAAAAAAAAAAA", "AAAAAAAAAAAAAAAA"),
        Err(AppError::Encryption(_))
    ));
}

#[test]
fn test_csrf_token() {
    let crypto = test_service();

    let token = crypto.generate_csrf_token();
    assert!(!token.is_empty());
    assert!(token.len() > 32);

    assert!(crypto.verify_csrf_token(&token, &token));
    assert!(!crypto.verify_csrf_token(&token, "wrong_token"));
}

#[test]
fn test_csrf_tokens_are_fresh() {
    let crypto = test_service();
    let a = crypto.generate_csrf_token();
    let b = crypto.generate_csrf_token();
    assert_ne!(a, b);
    assert!(!crypto.verify_csrf_token(&a, &b));
}

#[test]
fn test_session_token_and_api_key_shape() {
    let crypto = test_service();
    assert_eq!(crypto.generate_session_token().len(), 88);
    assert!(crypto.generate_api_key().starts_with("fh_"));
    assert_eq!(crypto.generate_random_bytes(16).len(), 16);
}

#[test]
fn test_obfuscate_email() {
    let crypto = test_service();
    assert_eq!(crypto.obfuscate_email("john.doe@example.com"), "jo***@example.com");
    assert_eq!(crypto.obfuscate_email("ab@example.com"), "***@example.com");
    assert_eq!(crypto.obfuscate_email("not-an-email"), "***");
}

#[test]
fn test_obfuscate_card() {
    let crypto = test_service();
    assert_eq!(crypto.obfuscate_card("4111111111111111"), "****-****-****-1111");
    assert_eq!(crypto.obfuscate_card("1234"), "****");
}
