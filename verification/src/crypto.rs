//! The balance cipher and related secret-handling helpers.
//!
//! A wallet balance is serialized as its canonical decimal byte string,
//! sealed with AES-256-GCM under a fresh 96-bit nonce, and both the
//! ciphertext and the nonce are base64-encoded for storage. Decryption
//! reverses the three layers and fails with a distinct error when the
//! authentication tag does not verify or the plaintext is not a canonical
//! decimal amount. Nothing caches decrypted values: every read re-decrypts.

use vstd::prelude::*;
use vstd::string::{StrSliceExecFns, StringSliceAdditionalSpecFns};

use crate::amount::Amount;
use crate::errors::AppError;
use crate::text::{first_index_of, lemma_first_index_of, lemma_first_index_of_none};

use aes_gcm::aead::generic_array::GenericArray;
use aes_gcm::aead::Aead;
use aes_gcm::{Aes256Gcm, KeyInit};
use base64::engine::general_purpose;
use base64::Engine;
use rand::RngCore;

verus! {

/// The AES-256-GCM ciphertext (with its appended tag) produced from a key,
/// a nonce and a plaintext. Fixed key and nonce make it a function of the
/// plaintext alone.
pub uninterp spec fn gcm_seal(key: Seq<u8>, nonce: Seq<u8>, plaintext: Seq<u8>) -> Seq<u8>;

/// The standard (padded, canonical) base64 rendering of a byte string.
pub uninterp spec fn b64_of(bytes: Seq<u8>) -> Seq<char>;

/// What it means for a stored `(ciphertext, iv)` pair to hold the amount
/// `a` under `key`: both strings are base64 renderings, the nonce is 96
/// bits, and the sealed plaintext is the canonical decimal form of `a`.
pub open spec fn encodes_amount(key: Seq<u8>, ciphertext: Seq<char>, iv: Seq<char>, a: Amount) -> bool {
    exists|nonce: Seq<u8>|
        nonce.len() == 12 && iv == #[trigger] b64_of(nonce) && ciphertext == b64_of(
            gcm_seal(key, nonce, a.canonical_bytes()),
        )
}

/// Relies on `aes_gcm::Aes256Gcm` through `aead::Aead::encrypt`: with a
/// fixed key and nonce the result is a function of the plaintext alone,
/// and encryption fails only beyond the AES-GCM plaintext length bound
/// (`P_MAX`, 2^36 bytes).
#[verifier::external_body]
fn gcm_encrypt(key: &[u8], nonce: &[u8], plaintext: &[u8]) -> (r: Result<Vec<u8>, ()>)
    requires
        key@.len() == 32,
        nonce@.len() == 12,
    ensures
        r matches Ok(ct) ==> ct@ == gcm_seal(key@, nonce@, plaintext@),
        plaintext@.len() < 0x1000000000 ==> r is Ok,
{
    let cipher = match Aes256Gcm::new_from_slice(key) {
        Ok(c) => c,
        Err(_) => {
            return Err(());
        },
    };
    match cipher.encrypt(GenericArray::from_slice(nonce), plaintext) {
        Ok(ct) => Ok(ct),
        Err(_) => Err(()),
    }
}

/// Relies on `aes_gcm::Aes256Gcm` through `aead::Aead::decrypt`: it
/// returns the sealed plaintext when the tag verifies, and an error
/// otherwise; decryption inverts encryption under the same key and nonce.
#[verifier::external_body]
fn gcm_decrypt(key: &[u8], nonce: &[u8], ciphertext: &[u8]) -> (r: Result<Vec<u8>, ()>)
    requires
        key@.len() == 32,
        nonce@.len() == 12,
    ensures
        r matches Ok(pt) ==> ciphertext@ == gcm_seal(key@, nonce@, pt@),
        r matches Ok(v) ==> forall|pt: Seq<u8>|
            ciphertext@ == gcm_seal(key@, nonce@, pt) ==> v@ == pt,
        r is Err ==> forall|pt: Seq<u8>| ciphertext@ != gcm_seal(key@, nonce@, pt),
{
    let cipher = match Aes256Gcm::new_from_slice(key) {
        Ok(c) => c,
        Err(_) => {
            return Err(());
        },
    };
    match cipher.decrypt(GenericArray::from_slice(nonce), ciphertext) {
        Ok(pt) => Ok(pt),
        Err(_) => Err(()),
    }
}

/// Relies on `base64::engine::general_purpose::STANDARD.encode`: padded
/// canonical base64, four output characters for every three input bytes.
#[verifier::external_body]
fn b64_encode(data: &[u8]) -> (r: String)
    ensures
        r@ == b64_of(data@),
        r@.len() == ((data@.len() + 2) / 3) * 4,
{
    general_purpose::STANDARD.encode(data)
}

/// Relies on `base64::engine::general_purpose::STANDARD.decode`: it
/// accepts exactly the canonical padded renderings and returns the bytes
/// that encode to the input.
#[verifier::external_body]
fn b64_decode(s: &str) -> (r: Result<Vec<u8>, ()>)
    ensures
        r matches Ok(b) ==> s@ == b64_of(b@),
        r matches Ok(v) ==> forall|b: Seq<u8>| s@ == b64_of(b) ==> v@ == b,
        r is Err ==> forall|b: Seq<u8>| s@ != b64_of(b),
{
    match general_purpose::STANDARD.decode(s) {
        Ok(b) => Ok(b),
        Err(_) => Err(()),
    }
}

/// Relies on `rand::thread_rng` (`RngCore::fill_bytes`) for
/// cryptographically secure random bytes; only the length is promised.
#[verifier::external_body]
fn fill_random(len: usize) -> (r: Vec<u8>)
    ensures
        r@.len() == len,
{
    let mut buf = vec![0u8; len];
    rand::thread_rng().fill_bytes(&mut buf);
    buf
}

/// The process-lifetime key material of the balance cipher. Stateless but
/// for the key: it can be swapped or rotated without touching the
/// orchestration logic around it.
pub struct CryptoService {
    encryption_key: Vec<u8>,
}

/// A string key is fitted to 32 bytes: truncated, or padded with zeros.
pub open spec fn padded_key(s: Seq<u8>) -> Seq<u8> {
    if s.len() >= 32 {
        s.subrange(0, 32)
    } else {
        s + Seq::new((32 - s.len()) as nat, |i: int| 0u8)
    }
}

impl CryptoService {
    /// The 256-bit key this service seals balances with.
    pub closed spec fn key(self) -> Seq<u8> {
        self.encryption_key@
    }

    pub open spec fn wf(self) -> bool {
        self.key().len() == 32
    }

    pub fn new(key: &[u8; 32]) -> (r: Self)
        ensures
            r.wf(),
            r.key() == key@,
    {
        Self::from_key(key)
    }

    pub fn from_key(key: &[u8; 32]) -> (r: Self)
        ensures
            r.wf(),
            r.key() == key@,
    {
        let mut k: Vec<u8> = Vec::new();
        let mut i: usize = 0;
        while i < 32
            invariant
                i <= 32,
                k@ =~= key@.subrange(0, i as int),
            decreases 32 - i,
        {
            k.push(key[i]);
            i += 1;
        }
        proof {
            assert(k@ =~= key@);
        }
        CryptoService { encryption_key: k }
    }

    /// Builds the service from a string key, truncating or zero-padding
    /// its UTF-8 bytes to exactly 32.
    pub fn from_string(key_str: &str) -> (r: Self)
        ensures
            r.wf(),
            r.key() == padded_key(key_str.spec_bytes()),
    {
        let bytes = key_str.as_bytes();
        let n = bytes.len();
        let take = if n < 32 {
            n
        } else {
            32
        };
        let mut k: Vec<u8> = Vec::new();
        let mut i: usize = 0;
        while i < take
            invariant
                take <= bytes@.len(),
                i <= take,
                k@ =~= bytes@.subrange(0, i as int),
            decreases take - i,
        {
            k.push(bytes[i]);
            i += 1;
        }
        while k.len() < 32
            invariant
                take <= 32,
                take <= bytes@.len(),
                take <= k@.len() <= 32,
                forall|j: int| 0 <= j < take ==> k@[j] == bytes@[j],
                forall|j: int| take <= j < k@.len() ==> k@[j] == 0u8,
            decreases 32 - k@.len(),
        {
            k.push(0u8);
        }
        proof {
            assert(k@ =~= padded_key(bytes@));
        }
        CryptoService { encryption_key: k }
    }

    /// Seals an amount under a fresh random 96-bit nonce and returns the
    /// base64 ciphertext and nonce pair; never fails for a well-formed key.
    pub fn encrypt_balance(&self, amount: &Amount) -> (r: Result<(String, String), AppError>)
        requires
            self.wf(),
        ensures
            r matches Ok(p) ==> encodes_amount(self.key(), p.0@, p.1@, *amount),
            r is Ok,
    {
        let plaintext = amount.to_decimal_bytes();
        let nonce = fill_random(12);
        let ct = match gcm_encrypt(self.encryption_key.as_slice(), nonce.as_slice(),
            plaintext.as_slice()) {
            Ok(ct) => ct,
            Err(_) => {
                return Err(AppError::Encryption(String::from_str("encryption failed")));
            },
        };
        let encrypted = b64_encode(ct.as_slice());
        let iv = b64_encode(nonce.as_slice());
        proof {
            assert(encodes_amount(self.key(), encrypted@, iv@, *amount)) by {
                assert(nonce@.len() == 12 && iv@ == b64_of(nonce@) && encrypted@ == b64_of(
                    gcm_seal(self.key(), nonce@, amount.canonical_bytes()),
                ));
            }
        }
        Ok((encrypted, iv))
    }

    /// Opens a stored `(ciphertext, iv)` pair. Returns the one amount the
    /// pair encodes; fails with an encryption error exactly when the pair
    /// encodes no amount under this key (tampering, corruption, or a
    /// non-canonical plaintext).
    pub fn decrypt_balance(&self, encrypted_balance: &str, iv: &str) -> (r: Result<
        Amount,
        AppError,
    >)
        requires
            self.wf(),
        ensures
            r matches Ok(a) ==> encodes_amount(self.key(), encrypted_balance@, iv@, a),
            forall|a: Amount|
                encodes_amount(self.key(), encrypted_balance@, iv@, a) ==> r == Ok::<
                    Amount,
                    AppError,
                >(a),
            r matches Err(e) ==> e is Encryption,
    {
        let ct = match b64_decode(encrypted_balance) {
            Ok(ct) => ct,
            Err(_) => {
                proof {
                    assert forall|a: Amount|
                        !encodes_amount(self.key(), encrypted_balance@, iv@, a) by {
                        if encodes_amount(self.key(), encrypted_balance@, iv@, a) {
                            let nonce = choose|nonce: Seq<u8>|
                                nonce.len() == 12 && iv@ == #[trigger] b64_of(nonce)
                                    && encrypted_balance@ == b64_of(
                                    gcm_seal(self.key(), nonce, a.canonical_bytes()),
                                );
                            assert(encrypted_balance@ == b64_of(
                                gcm_seal(self.key(), nonce, a.canonical_bytes()),
                            ));
                        }
                    }
                }
                return Err(AppError::Encryption(String::from_str("ciphertext decode failed")));
            },
        };
        let nonce = match b64_decode(iv) {
            Ok(n) => n,
            Err(_) => {
                proof {
                    assert forall|a: Amount|
                        !encodes_amount(self.key(), encrypted_balance@, iv@, a) by {
                        if encodes_amount(self.key(), encrypted_balance@, iv@, a) {
                            let n0 = choose|n0: Seq<u8>|
                                n0.len() == 12 && iv@ == #[trigger] b64_of(n0)
                                    && encrypted_balance@ == b64_of(
                                    gcm_seal(self.key(), n0, a.canonical_bytes()),
                                );
                            assert(iv@ == b64_of(n0));
                        }
                    }
                }
                return Err(AppError::Encryption(String::from_str("nonce decode failed")));
            },
        };
        if nonce.len() != 12 {
            proof {
                assert forall|a: Amount|
                    !encodes_amount(self.key(), encrypted_balance@, iv@, a) by {
                    if encodes_amount(self.key(), encrypted_balance@, iv@, a) {
                        let n0 = choose|n0: Seq<u8>|
                            n0.len() == 12 && iv@ == #[trigger] b64_of(n0) && encrypted_balance@
                                == b64_of(gcm_seal(self.key(), n0, a.canonical_bytes()));
                        assert(iv@ == b64_of(n0));
                    }
                }
            }
            return Err(AppError::Encryption(String::from_str("invalid nonce length")));
        }
        let plaintext = match gcm_decrypt(self.encryption_key.as_slice(), nonce.as_slice(),
            ct.as_slice()) {
            Ok(p) => p,
            Err(_) => {
                proof {
                    assert forall|a: Amount|
                        !encodes_amount(self.key(), encrypted_balance@, iv@, a) by {
                        if encodes_amount(self.key(), encrypted_balance@, iv@, a) {
                            let n0 = choose|n0: Seq<u8>|
                                n0.len() == 12 && iv@ == #[trigger] b64_of(n0)
                                    && encrypted_balance@ == b64_of(
                                    gcm_seal(self.key(), n0, a.canonical_bytes()),
                                );
                            assert(nonce@ == n0);
                            assert(ct@ == gcm_seal(self.key(), n0, a.canonical_bytes()));
                        }
                    }
                }
                return Err(AppError::Encryption(String::from_str("authentication failed")));
            },
        };
        match Amount::from_canonical_bytes(plaintext.as_slice()) {
            Some(a) => {
                proof {
                    assert(encodes_amount(self.key(), encrypted_balance@, iv@, a)) by {
                        assert(nonce@.len() == 12 && iv@ == b64_of(nonce@) && encrypted_balance@
                            == b64_of(gcm_seal(self.key(), nonce@, a.canonical_bytes())));
                    }
                    assert forall|a2: Amount|
                        encodes_amount(self.key(), encrypted_balance@, iv@, a2) implies a2
                        == a by {
                        let n0 = choose|n0: Seq<u8>|
                            n0.len() == 12 && iv@ == #[trigger] b64_of(n0) && encrypted_balance@
                                == b64_of(gcm_seal(self.key(), n0, a2.canonical_bytes()));
                        assert(nonce@ == n0);
                        assert(ct@ == gcm_seal(self.key(), n0, a2.canonical_bytes()));
                        assert(plaintext@ == a2.canonical_bytes());
                        assert(a2.canonical_bytes() == a.canonical_bytes());
                        crate::amount::lemma_canonical_fields(a);
                        crate::amount::lemma_canonical_fields(a2);
                        crate::amount::lemma_dec_digits_value((a.cents / 100) as nat);
                        crate::amount::lemma_dec_digits_value((a2.cents / 100) as nat);
                        assert(a.cents / 100 == a2.cents / 100);
                        assert((a.cents % 100) / 10 == (a2.cents % 100) / 10);
                        assert(a.cents % 10 == a2.cents % 10);
                        assert(a.cents == (a.cents / 100) * 100 + ((a.cents % 100) / 10) * 10 + (
                        a.cents % 10));
                        assert(a2.cents == (a2.cents / 100) * 100 + ((a2.cents % 100) / 10) * 10
                            + (a2.cents % 10));
                    }
                }
                Ok(a)
            },
            None => {
                proof {
                    assert forall|a: Amount|
                        !encodes_amount(self.key(), encrypted_balance@, iv@, a) by {
                        if encodes_amount(self.key(), encrypted_balance@, iv@, a) {
                            let n0 = choose|n0: Seq<u8>|
                                n0.len() == 12 && iv@ == #[trigger] b64_of(n0)
                                    && encrypted_balance@ == b64_of(
                                    gcm_seal(self.key(), n0, a.canonical_bytes()),
                                );
                            assert(nonce@ == n0);
                            assert(ct@ == gcm_seal(self.key(), n0, a.canonical_bytes()));
                            assert(plaintext@ == a.canonical_bytes());
                        }
                    }
                }
                Err(AppError::Encryption(String::from_str("plaintext is not a valid amount")))
            },
        }
    }

    /// Random bytes for tokens and nonces; only the length is specified.
    pub fn generate_random_bytes(&self, length: usize) -> (r: Vec<u8>)
        ensures
            r@.len() == length,
    {
        fill_random(length)
    }

    /// A fresh random token for CSRF protection: base64 of 32 random bytes.
    pub fn generate_csrf_token(&self) -> (r: String)
        ensures
            exists|b: Seq<u8>| b.len() == 32 && r@ == b64_of(b),
            r@.len() == 44,
    {
        let bytes = fill_random(32);
        let token = b64_encode(bytes.as_slice());
        proof {
            assert(bytes@.len() == 32 && token@ == b64_of(bytes@));
        }
        token
    }

    /// A fresh random session token: base64 of 64 random bytes.
    pub fn generate_session_token(&self) -> (r: String)
        ensures
            exists|b: Seq<u8>| b.len() == 64 && r@ == b64_of(b),
            r@.len() == 88,
    {
        let bytes = fill_random(64);
        let token = b64_encode(bytes.as_slice());
        proof {
            assert(bytes@.len() == 64 && token@ == b64_of(bytes@));
        }
        token
    }

    /// Compares two base64 tokens without data-dependent early exit on
    /// the byte comparison. True exactly when the tokens are equal and
    /// well-formed base64.
    pub fn verify_csrf_token(&self, token: &str, expected_token: &str) -> (r: bool)
        ensures
            r ==> token@ == expected_token@,
            (token@ == expected_token@ && exists|b: Seq<u8>| token@ == b64_of(b)) ==> r,
    {
        let token_bytes = match b64_decode(token) {
            Ok(b) => b,
            Err(_) => {
                return false;
            },
        };
        let expected_bytes = match b64_decode(expected_token) {
            Ok(b) => b,
            Err(_) => {
                return false;
            },
        };
        if token_bytes.len() != expected_bytes.len() {
            return false;
        }
        let n = token_bytes.len();
        let mut acc: u8 = 0;
        let mut i: usize = 0;
        while i < n
            invariant
                n == token_bytes@.len() == expected_bytes@.len(),
                i <= n,
                acc == 0 <==> token_bytes@.subrange(0, i as int) =~= expected_bytes@.subrange(
                    0,
                    i as int,
                ),
            decreases n - i,
        {
            let a = token_bytes[i];
            let b = expected_bytes[i];
            proof {
                let pre_t = token_bytes@.subrange(0, i as int);
                let pre_e = expected_bytes@.subrange(0, i as int);
                let cur_t = token_bytes@.subrange(0, i + 1 as int);
                let cur_e = expected_bytes@.subrange(0, i + 1 as int);
                assert(cur_t.drop_last() =~= pre_t && cur_e.drop_last() =~= pre_e);
                assert(cur_t.last() == token_bytes@[i as int]);
                assert(cur_e.last() == expected_bytes@[i as int]);
                assert((a ^ b) == 0 <==> a == b) by (bit_vector);
                assert((acc | (a ^ b)) == 0 <==> (acc == 0 && (a ^ b) == 0)) by (bit_vector);
                if cur_t =~= cur_e {
                    assert(pre_t =~= pre_e);
                    assert(a == b);
                } else {
                    if pre_t =~= pre_e && a == b {
                        assert(cur_t =~= cur_e);
                    }
                }
            }
            acc = acc | (a ^ b);
            i += 1;
        }
        proof {
            assert(token_bytes@.subrange(0, n as int) =~= token_bytes@);
            assert(expected_bytes@.subrange(0, n as int) =~= expected_bytes@);
        }
        let equal = acc == 0;
        proof {
            if equal {
                assert(token_bytes@ == expected_bytes@);
                assert(token@ == b64_of(token_bytes@));
                assert(expected_token@ == b64_of(expected_bytes@));
            }
            if token@ == expected_token@ {
                if exists|b: Seq<u8>| token@ == b64_of(b) {
                    let b0 = choose|b0: Seq<u8>| token@ == b64_of(b0);
                    assert(token_bytes@ == b0);
                    assert(expected_bytes@ == b0);
                }
            }
        }
        equal
    }

    /// Masks an email address for logging: at most the first two
    /// characters of the local part survive, the domain is kept.
    pub fn obfuscate_email(&self, email: &str) -> (r: String)
        ensures
            ({
                let p = first_index_of(email@, '@');
                if p == -1 {
                    r@ == "***"@
                } else if p <= 2 {
                    r@ == "***"@ + email@.subrange(p, email@.len() as int)
                } else {
                    r@ == email@.subrange(0, 2) + "***"@ + email@.subrange(
                        p,
                        email@.len() as int,
                    )
                }
            }),
    {
        let n = email.unicode_len();
        let mut at_pos: Option<usize> = None;
        let mut i: usize = 0;
        while i < n
            invariant
                n == email@.len(),
                i <= n,
                at_pos matches Some(k) ==> k < i && email@[k as int] == '@' && forall|j: int|
                    0 <= j < k ==> email@[j] != '@',
                at_pos is None ==> forall|j: int| 0 <= j < i ==> email@[j] != '@',
            decreases n - i,
        {
            if at_pos.is_none() && email.get_char(i) == '@' {
                at_pos = Some(i);
            }
            i += 1;
        }
        match at_pos {
            None => {
                proof {
                    lemma_first_index_of_none(email@, '@');
                }
                String::from_str("***")
            },
            Some(p) => {
                proof {
                    lemma_first_index_of(email@, '@', p as int);
                }
                let domain = email.substring_char(p, n);
                if p <= 2 {
                    String::from_str("***").concat(domain)
                } else {
                    let local = email.substring_char(0, 2);
                    String::from_str(local).concat("***").concat(domain)
                }
            },
        }
    }

    /// Masks a card number for logging: only the last four characters
    /// survive.
    pub fn obfuscate_card(&self, card: &str) -> (r: String)
        ensures
            card@.len() <= 4 ==> r@ == "****"@,
            card@.len() > 4 ==> r@ == "****-****-****-"@ + card@.subrange(
                card@.len() - 4,
                card@.len() as int,
            ),
    {
        let n = card.unicode_len();
        if n <= 4 {
            String::from_str("****")
        } else {
            let last = card.substring_char(n - 4, n);
            String::from_str("****-****-****-").concat(last)
        }
    }

    /// A fresh random API key: a fixed prefix and base64 of 32 random bytes.
    pub fn generate_api_key(&self) -> (r: String)
        ensures
            exists|b: Seq<u8>| b.len() == 32 && r@ == "fh_"@ + b64_of(b),
    {
        let bytes = fill_random(32);
        let tail = b64_encode(bytes.as_slice());
        let key = String::from_str("fh_").concat(tail.as_str());
        proof {
            assert(bytes@.len() == 32 && key@ == "fh_"@ + b64_of(bytes@));
        }
        key
    }
}

} // verus!
