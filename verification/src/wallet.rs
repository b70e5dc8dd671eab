//! The wallet: a signing key kept under a password.
//!
//! A wallet is twelve bytes of nonce followed by the signing key's
//! thirty-two secret bytes, sealed with AES-256-GCM under a key that PBKDF2
//! derives from the password.

use aes_gcm::aead::{Aead, KeyInit};
use crate::bytes::append;
use rand::RngCore;
use vstd::prelude::*;
use vstd::slice::slice_subrange;
use vstd::string::StringSliceAdditionalSpecFns;

verus! {

/// Bytes of nonce at the head of a wallet.
pub const NONCE_SIZE: usize = 12;

/// Bytes of a signing key's secret.
pub const SECRET_SIZE: usize = 32;

/// Bytes of the tag that the cipher appends to what it seals.
pub const TAG_SIZE: usize = 16;

/// Bytes of a wallet.
pub const WALLET_SIZE: usize = 60;

/// Rounds of PBKDF2 by which a password becomes a key.
pub const KEY_ROUNDS: u32 = 200_000;

/// Why a wallet could not be made or opened.
#[derive(Clone, Copy, Debug, PartialEq, Eq, Structural)]
pub enum WalletError {
    /// The cipher refused to seal the key.
    Encrypt,
    /// The cipher refused to open the wallet: the password is wrong, or the
    /// wallet was changed.
    Decrypt,
    /// The bytes are too short for a wallet, or what they hold is no key.
    Malformed,
}

/// The thirty-two bytes that PBKDF2 with HMAC-SHA-256 derives from a
/// password and a salt in the given number of rounds.
pub uninterp spec fn pbkdf2_hmac_sha256(password: Seq<u8>, salt: Seq<u8>, rounds: u32) -> Seq<u8>;

/// What AES-256-GCM makes of a plaintext under a key and a nonce, without
/// associated data: the ciphertext followed by its tag, if the cipher takes
/// the plaintext.
pub uninterp spec fn aes256gcm_sealed(key: Seq<u8>, nonce: Seq<u8>, plaintext: Seq<u8>) -> Option<
    Seq<u8>,
>;

/// What AES-256-GCM reads from a ciphertext with its tag under a key and a
/// nonce, without associated data, if the tag fits.
pub uninterp spec fn aes256gcm_opened(key: Seq<u8>, nonce: Seq<u8>, sealed: Seq<u8>) -> Option<
    Seq<u8>,
>;

/// Calls `pbkdf2::pbkdf2_hmac` with SHA-256 on a buffer of thirty-two
/// bytes. Nothing is proved of it. The contract claims only that the key
/// depends on the three arguments alone.
#[verifier::external_body]
fn derive_key(password: &[u8], salt: &[u8], rounds: u32) -> (key: [u8; 32])
    ensures
        key@ == pbkdf2_hmac_sha256(password@, salt@, rounds),
{
    let mut key = [0u8; 32];
    pbkdf2::pbkdf2_hmac::<sha2::Sha256>(password, salt, rounds, &mut key);
    key
}

/// Calls `Aead::encrypt` of `aes_gcm::Aes256Gcm`. Nothing is proved of it.
/// The contract claims that the outcome depends on the three arguments
/// alone; that the cipher takes every plaintext of up to 2^36 bytes; that
/// what it makes is the plaintext's length and a tag of sixteen bytes long;
/// and that the cipher, opening under the same key and nonce what it
/// sealed, reads the plaintext.
#[verifier::external_body]
fn seal(key: &[u8; 32], nonce: &[u8; 12], plaintext: &[u8]) -> (r: Option<Vec<u8>>)
    ensures
        match r {
            Some(sealed) => aes256gcm_sealed(key@, nonce@, plaintext@) == Some(sealed@),
            None => aes256gcm_sealed(key@, nonce@, plaintext@) is None,
        },
        plaintext@.len() <= 0x10_0000_0000 ==> r is Some,
        r matches Some(sealed) ==> sealed@.len() == plaintext@.len() + TAG_SIZE,
        r matches Some(sealed) ==> aes256gcm_opened(key@, nonce@, sealed@) == Some(plaintext@),
{
    let cipher = aes_gcm::Aes256Gcm::new(aes_gcm::Key::<aes_gcm::Aes256Gcm>::from_slice(key));
    cipher.encrypt(aes_gcm::Nonce::from_slice(nonce), plaintext).ok()
}

/// Calls `Aead::decrypt` of `aes_gcm::Aes256Gcm`. Nothing is proved of it.
/// The contract claims only that the outcome depends on the three arguments
/// alone.
#[verifier::external_body]
fn unseal(key: &[u8; 32], nonce: &[u8; 12], sealed: &[u8]) -> (r: Option<Vec<u8>>)
    ensures
        match r {
            Some(plaintext) => aes256gcm_opened(key@, nonce@, sealed@) == Some(plaintext@),
            None => aes256gcm_opened(key@, nonce@, sealed@) is None,
        },
{
    let cipher = aes_gcm::Aes256Gcm::new(aes_gcm::Key::<aes_gcm::Aes256Gcm>::from_slice(key));
    cipher.decrypt(aes_gcm::Nonce::from_slice(nonce), sealed).ok()
}

/// Calls `ed25519_dalek::SigningKey::generate` with `rand::thread_rng` and
/// hands out the key's secret bytes. They are random: nothing is claimed of
/// them.
#[verifier::external_body]
fn fresh_secret_key() -> (secret: [u8; 32]) {
    ed25519_dalek::SigningKey::generate(&mut rand::thread_rng()).to_bytes()
}

/// Fills twelve bytes by `RngCore::fill_bytes` of `rand::thread_rng`. They
/// are random: nothing is claimed of them.
#[verifier::external_body]
fn fresh_nonce() -> (nonce: [u8; 12]) {
    let mut nonce = [0u8; 12];
    rand::thread_rng().fill_bytes(&mut nonce);
    nonce
}

/// The key that a password stands for: PBKDF2 of its UTF-8 bytes with an
/// empty salt.
pub open spec fn password_key(password: Seq<u8>) -> Seq<u8> {
    pbkdf2_hmac_sha256(password, Seq::empty(), KEY_ROUNDS)
}

/// The wallet that a nonce and what the cipher made of the key are: the
/// nonce, then the sealed key; none where the cipher refused.
pub open spec fn framed(nonce: Seq<u8>, sealed: Option<Seq<u8>>) -> Result<Seq<u8>, WalletError> {
    match sealed {
        Some(sealed) => Ok(nonce + sealed),
        None => Err(WalletError::Encrypt),
    }
}

/// The nonce and the sealed key of a wallet; none where the bytes are too
/// short to hold a nonce.
pub open spec fn parts_of(wallet: Seq<u8>) -> Option<(Seq<u8>, Seq<u8>)> {
    if wallet.len() < NONCE_SIZE {
        None
    } else {
        Some(
            (
                wallet.subrange(0, NONCE_SIZE as int),
                wallet.subrange(NONCE_SIZE as int, wallet.len() as int),
            ),
        )
    }
}

/// The secret key that the cipher read: what it read, where that has the
/// length of a key.
pub open spec fn secret_of_opened(opened: Option<Seq<u8>>) -> Result<Seq<u8>, WalletError> {
    match opened {
        Some(secret) => if secret.len() == SECRET_SIZE {
            Ok(secret)
        } else {
            Err(WalletError::Malformed)
        },
        None => Err(WalletError::Decrypt),
    }
}

/// The wallet that holds `secret` under `password`, sealed with `nonce`, or
/// the reason why there is none.
pub open spec fn wallet_of(secret: Seq<u8>, nonce: Seq<u8>, password: Seq<u8>) -> Result<
    Seq<u8>,
    WalletError,
> {
    framed(nonce, aes256gcm_sealed(password_key(password), nonce, secret))
}

/// What opening a wallet under a password gives: the secret key, or the
/// reason why there is none.
pub open spec fn secret_of(wallet: Seq<u8>, password: Seq<u8>) -> Result<Seq<u8>, WalletError> {
    match parts_of(wallet) {
        Some((nonce, sealed)) => secret_of_opened(
            aes256gcm_opened(password_key(password), nonce, sealed),
        ),
        None => Err(WalletError::Malformed),
    }
}

/// The key that a password stands for.
pub fn hash_password(password: &str) -> (key: [u8; 32])
    ensures
        key@ == password_key(password.spec_bytes()),
{
    let salt: [u8; 0] = [];
    proof {
        assert(salt@ =~= Seq::<u8>::empty());
    }
    derive_key(password.as_bytes(), salt.as_slice(), KEY_ROUNDS)
}

/// Puts a wallet together from its nonce and what the cipher made of the
/// key.
pub fn frame_wallet(nonce: &[u8; 12], sealed: Option<Vec<u8>>) -> (r: Result<Vec<u8>, WalletError>)
    ensures
        match r {
            Ok(wallet) => sealed matches Some(s) && wallet@ == nonce@ + s@,
            Err(e) => sealed is None && e == WalletError::Encrypt,
        },
{
    match sealed {
        Some(sealed) => {
            let mut wallet: Vec<u8> = Vec::new();
            append(&mut wallet, nonce.as_slice());
            append(&mut wallet, sealed.as_slice());
            Ok(wallet)
        },
        None => Err(WalletError::Encrypt),
    }
}

/// Takes a wallet apart into its nonce and the sealed key; `None` exactly
/// where the bytes are too short to hold a nonce.
pub fn split_wallet(wallet: &[u8]) -> (r: Option<([u8; 12], &[u8])>)
    ensures
        match r {
            Some((nonce, sealed)) => parts_of(wallet@) == Some((nonce@, sealed@)),
            None => parts_of(wallet@) is None,
        },
{
    let total: usize = wallet.len();
    if total < NONCE_SIZE {
        return None;
    }
    let mut nonce: [u8; 12] = [0u8; 12];
    let mut i: usize = 0;
    while i < NONCE_SIZE
        invariant
            i <= NONCE_SIZE,
            NONCE_SIZE <= total,
            total == wallet@.len(),
            forall|j: int| 0 <= j < i ==> nonce@[j] == wallet@[j],
        decreases NONCE_SIZE - i,
    {
        nonce[i] = wallet[i];
        i = i + 1;
    }
    proof {
        assert(nonce@ =~= wallet@.subrange(0, NONCE_SIZE as int));
    }
    Some((nonce, slice_subrange(wallet, NONCE_SIZE, total)))
}

/// Makes a secret key of what the cipher read: thirty-two bytes are the
/// key, another number of bytes is no key, and nothing read means that the
/// cipher refused.
pub fn secret_from_opened(opened: Option<Vec<u8>>) -> (r: Result<[u8; 32], WalletError>)
    ensures
        match r {
            Ok(secret) => opened matches Some(plaintext) && plaintext@ == secret@,
            Err(e) => match opened {
                Some(plaintext) => plaintext@.len() != SECRET_SIZE && e == WalletError::Malformed,
                None => e == WalletError::Decrypt,
            },
        },
{
    match opened {
        Some(plaintext) => {
            if plaintext.len() != SECRET_SIZE {
                return Err(WalletError::Malformed);
            }
            let mut secret: [u8; 32] = [0u8; 32];
            let mut k: usize = 0;
            while k < SECRET_SIZE
                invariant
                    k <= SECRET_SIZE,
                    plaintext@.len() == SECRET_SIZE,
                    forall|j: int| 0 <= j < k ==> secret@[j] == plaintext@[j],
                decreases SECRET_SIZE - k,
            {
                secret[k] = plaintext[k];
                k = k + 1;
            }
            proof {
                assert(secret@ =~= plaintext@);
            }
            Ok(secret)
        },
        None => Err(WalletError::Decrypt),
    }
}

/// Seals a secret key under a password with the given nonce. It never
/// fails; the wallet has sixty bytes, and opens under the same password to
/// the same key.
pub fn seal_wallet(secret: &[u8; 32], nonce: &[u8; 12], password: &str) -> (r: Result<
    Vec<u8>,
    WalletError,
>)
    ensures
        r matches Ok(wallet) && wallet@.len() == WALLET_SIZE && wallet_of(
            secret@,
            nonce@,
            password.spec_bytes(),
        ) == Ok::<Seq<u8>, WalletError>(wallet@) && secret_of(wallet@, password.spec_bytes())
            == Ok::<Seq<u8>, WalletError>(secret@),
{
    let key = hash_password(password);
    let sealed = seal(&key, nonce, secret.as_slice());
    proof {
        lemma_parts_of_framed(nonce@, sealed->Some_0@);
    }
    frame_wallet(nonce, sealed)
}

/// Makes a new wallet under a password: a fresh signing key, sealed with a
/// fresh nonce. It never fails. Whatever key and nonce were drawn, the
/// wallet has sixty bytes, it is the wallet of some key of thirty-two bytes
/// under some nonce of twelve, and it opens under the password to that key.
pub fn generate_wallet(password: &str) -> (r: Result<Vec<u8>, WalletError>)
    ensures
        r matches Ok(wallet) && wallet@.len() == WALLET_SIZE && exists|
            secret: Seq<u8>,
            nonce: Seq<u8>,
        |
            secret.len() == SECRET_SIZE && nonce.len() == NONCE_SIZE && #[trigger] wallet_of(
                secret,
                nonce,
                password.spec_bytes(),
            ) == Ok::<Seq<u8>, WalletError>(wallet@) && secret_of(wallet@, password.spec_bytes())
                == Ok::<Seq<u8>, WalletError>(secret),
{
    let secret = fresh_secret_key();
    let nonce = fresh_nonce();
    let r = seal_wallet(&secret, &nonce, password);
    proof {
        assert(wallet_of(secret@, nonce@, password.spec_bytes()) == Ok::<Seq<u8>, WalletError>(
            r->Ok_0@,
        ));
    }
    r
}

/// Opens a wallet under a password and hands out the secret key in it.
pub fn open_wallet(wallet: &[u8], password: &str) -> (r: Result<[u8; 32], WalletError>)
    ensures
        match r {
            Ok(secret) => secret_of(wallet@, password.spec_bytes()) == Ok::<Seq<u8>, WalletError>(
                secret@,
            ),
            Err(e) => secret_of(wallet@, password.spec_bytes()) == Err::<Seq<u8>, WalletError>(e),
        },
{
    match split_wallet(wallet) {
        Some((nonce, sealed)) => {
            let key = hash_password(password);
            secret_from_opened(unseal(&key, &nonce, sealed))
        },
        None => Err(WalletError::Malformed),
    }
}

/// A wallet that was put together comes apart into the nonce and the sealed
/// key that it was made of.
pub proof fn lemma_parts_of_framed(nonce: Seq<u8>, sealed: Seq<u8>)
    requires
        nonce.len() == NONCE_SIZE,
    ensures
        framed(nonce, Some(sealed)) == Ok::<Seq<u8>, WalletError>(nonce + sealed),
        parts_of(nonce + sealed) == Some((nonce, sealed)),
{
    let wallet = nonce + sealed;
    assert(wallet.subrange(0, NONCE_SIZE as int) =~= nonce);
    assert(wallet.subrange(NONCE_SIZE as int, wallet.len() as int) =~= sealed);
}

} // verus!
