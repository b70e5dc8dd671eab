use aes_gcm::aead::{Aead, KeyInit};
use sprig::wallet::{
    frame_wallet, generate_wallet, hash_password, open_wallet, seal_wallet, secret_from_opened,
    split_wallet, WalletError, KEY_ROUNDS, NONCE_SIZE, SECRET_SIZE, TAG_SIZE, WALLET_SIZE,
};

fn reference_key(password: &str) -> [u8; 32] {
    let mut key = [0u8; 32];
    pbkdf2::pbkdf2_hmac::<sha2::Sha256>(password.as_bytes(), b"", 200_000, &mut key);
    key
}

#[test]
fn a_password_becomes_a_key_by_pbkdf2() {
    let key = hash_password("correct horse");
    assert_eq!(key, reference_key("correct horse"));
    assert_ne!(key, hash_password("correct horsf"));
    assert_ne!(key.to_vec(), b"correct horse".to_vec());
    assert_eq!(KEY_ROUNDS, 200_000);
}

#[test]
fn a_wallet_is_the_nonce_and_the_sealed_key() {
    let secret = [7u8; 32];
    let nonce = [9u8; 12];
    let wallet = seal_wallet(&secret, &nonce, "pw").unwrap();
    assert_eq!(wallet.len(), NONCE_SIZE + SECRET_SIZE + 16);
    assert_eq!(&wallet[..12], &nonce);
    let key = reference_key("pw");
    let cipher = aes_gcm::Aes256Gcm::new(aes_gcm::Key::<aes_gcm::Aes256Gcm>::from_slice(&key));
    let sealed = cipher
        .encrypt(aes_gcm::Nonce::from_slice(&nonce), secret.as_ref())
        .unwrap();
    assert_eq!(&wallet[12..], &sealed[..]);
    assert_ne!(&wallet[12..44], &secret[..]);
}

#[test]
fn a_sealed_wallet_opens_under_its_password() {
    let secret: [u8; 32] = core::array::from_fn(|i| i as u8);
    let wallet = seal_wallet(&secret, &[1u8; 12], "pw").unwrap();
    assert_eq!(open_wallet(&wallet, "pw"), Ok(secret));
}

#[test]
fn a_wallet_does_not_open_under_another_password() {
    let wallet = seal_wallet(&[7u8; 32], &[1u8; 12], "pw").unwrap();
    assert_eq!(open_wallet(&wallet, "pw2"), Err(WalletError::Decrypt));
    assert_eq!(open_wallet(&wallet, ""), Err(WalletError::Decrypt));
}

#[test]
fn a_changed_wallet_does_not_open() {
    let mut wallet = seal_wallet(&[7u8; 32], &[1u8; 12], "pw").unwrap();
    wallet[20] ^= 1;
    assert_eq!(open_wallet(&wallet, "pw"), Err(WalletError::Decrypt));
}

#[test]
fn bytes_too_short_for_a_nonce_are_malformed() {
    assert_eq!(open_wallet(&[], "pw"), Err(WalletError::Malformed));
    assert_eq!(open_wallet(&[0u8; 11], "pw"), Err(WalletError::Malformed));
}

#[test]
fn bytes_too_short_for_a_tag_do_not_open() {
    assert_eq!(open_wallet(&[0u8; 12], "pw"), Err(WalletError::Decrypt));
    assert_eq!(open_wallet(&[0u8; 27], "pw"), Err(WalletError::Decrypt));
}

#[test]
fn a_sealed_text_that_is_no_key_is_malformed() {
    let key = reference_key("pw");
    let nonce = [3u8; 12];
    let cipher = aes_gcm::Aes256Gcm::new(aes_gcm::Key::<aes_gcm::Aes256Gcm>::from_slice(&key));
    let sealed = cipher
        .encrypt(aes_gcm::Nonce::from_slice(&nonce), b"short".as_ref())
        .unwrap();
    let mut wallet = nonce.to_vec();
    wallet.extend_from_slice(&sealed);
    assert_eq!(open_wallet(&wallet, "pw"), Err(WalletError::Malformed));
}

#[test]
fn a_generated_wallet_opens_under_its_password() {
    let wallet = generate_wallet("hunter2").unwrap();
    assert_eq!(wallet.len(), 60);
    let secret = open_wallet(&wallet, "hunter2").unwrap();
    assert_eq!(secret.len(), 32);
    assert_eq!(open_wallet(&wallet, "hunter3"), Err(WalletError::Decrypt));
}

#[test]
fn two_generated_wallets_differ() {
    let first = generate_wallet("pw").unwrap();
    let second = generate_wallet("pw").unwrap();
    assert_ne!(first[..12], second[..12]);
    assert_ne!(
        open_wallet(&first, "pw").unwrap(),
        open_wallet(&second, "pw").unwrap()
    );
}

#[test]
fn a_wallet_is_put_together_from_nonce_and_sealed_key() {
    let nonce = [1u8, 2, 3, 4, 5, 6, 7, 8, 9, 10, 11, 12];
    assert_eq!(
        frame_wallet(&nonce, Some(vec![20, 21, 22])),
        Ok(vec![1, 2, 3, 4, 5, 6, 7, 8, 9, 10, 11, 12, 20, 21, 22])
    );
    assert_eq!(frame_wallet(&nonce, Some(vec![])), Ok(nonce.to_vec()));
    assert_eq!(frame_wallet(&nonce, None), Err(WalletError::Encrypt));
}

#[test]
fn a_wallet_comes_apart_into_nonce_and_sealed_key() {
    let wallet: Vec<u8> = (0u8..20).collect();
    let (nonce, sealed) = split_wallet(&wallet).unwrap();
    assert_eq!(nonce, [0, 1, 2, 3, 4, 5, 6, 7, 8, 9, 10, 11]);
    assert_eq!(sealed, &[12, 13, 14, 15, 16, 17, 18, 19]);
    let (nonce, sealed) = split_wallet(&wallet[..12]).unwrap();
    assert_eq!(nonce, [0, 1, 2, 3, 4, 5, 6, 7, 8, 9, 10, 11]);
    assert!(sealed.is_empty());
    assert_eq!(split_wallet(&wallet[..11]), None);
    assert_eq!(split_wallet(&[]), None);
}

#[test]
fn what_comes_apart_is_what_was_put_together() {
    let nonce = [9u8; 12];
    let sealed = vec![1u8, 2, 3, 4];
    let wallet = frame_wallet(&nonce, Some(sealed.clone())).unwrap();
    assert_eq!(split_wallet(&wallet), Some((nonce, &sealed[..])));
}

#[test]
fn a_secret_key_is_thirty_two_bytes_of_what_was_read() {
    let plaintext: Vec<u8> = (100u8..132).collect();
    let expected: [u8; 32] = core::array::from_fn(|i| 100 + i as u8);
    assert_eq!(secret_from_opened(Some(plaintext)), Ok(expected));
    assert_eq!(secret_from_opened(Some(vec![0u8; 31])), Err(WalletError::Malformed));
    assert_eq!(secret_from_opened(Some(vec![0u8; 33])), Err(WalletError::Malformed));
    assert_eq!(secret_from_opened(Some(vec![])), Err(WalletError::Malformed));
    assert_eq!(secret_from_opened(None), Err(WalletError::Decrypt));
}

#[test]
fn sealing_and_making_a_wallet_do_not_fail() {
    for password in ["", "pw", "a longer password with spaces"] {
        let sealed = seal_wallet(&[0u8; 32], &[0u8; 12], password).unwrap();
        assert_eq!(sealed.len(), WALLET_SIZE);
        assert_eq!(open_wallet(&sealed, password), Ok([0u8; 32]));
        let made = generate_wallet(password).unwrap();
        assert_eq!(made.len(), WALLET_SIZE);
        assert!(open_wallet(&made, password).is_ok());
    }
    assert_eq!(WALLET_SIZE, NONCE_SIZE + SECRET_SIZE + TAG_SIZE);
}
