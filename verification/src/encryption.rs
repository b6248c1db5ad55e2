use vstd::prelude::*;

use crate::errors::CryptoError;
use aes_gcm::aead::{Aead, AeadCore, KeyInit, OsRng};
use aes_gcm::{Aes256Gcm, Key, Nonce};
use vstd::utf8::*;

verus! {

broadcast use vstd::utf8::encode_utf8_valid_utf8, vstd::utf8::encode_utf8_decode_utf8, vstd::utf8::decode_utf8_encode_utf8;

/// Byte length of an AES-256 key.
pub const KEY_LEN: usize = 32;

/// Byte length of an AES-GCM nonce.
pub const NONCE_LEN: usize = 12;

/// Byte length of the authentication tag appended to every ciphertext.
pub const TAG_LEN: usize = 16;

/// Longest plaintext the cipher accepts, in bytes.
pub const MAX_PLAINTEXT_LEN: u64 = 0x1000000000;

/// What AES-256-GCM produces for a given key, nonce and plaintext: the
/// ciphertext with its authentication tag appended. The result is a function
/// of these three arguments alone.
pub uninterp spec fn aes_gcm_seal(key: Seq<u8>, nonce: Seq<u8>, plaintext: Seq<u8>) -> Seq<u8>;

/// `ct` is the sealing of `pt` under `key` and `nonce`: `pt` is within the
/// cipher's length bound and `ct` is its ciphertext, tag included.
pub open spec fn seals(key: Seq<u8>, nonce: Seq<u8>, ct: Seq<u8>, pt: Seq<u8>) -> bool {
    &&& pt.len() <= MAX_PLAINTEXT_LEN
    &&& ct.len() == pt.len() + TAG_LEN
    &&& ct == aes_gcm_seal(key, nonce, pt)
}

/// No plaintext at all seals to `ct` under `key` and `nonce`: the pair fails
/// authentication.
pub open spec fn undecryptable(key: Seq<u8>, nonce: Seq<u8>, ct: Seq<u8>) -> bool {
    forall|b: Seq<u8>| !#[trigger] seals(key, nonce, ct, b)
}

/// `ct` authenticates under `key` and `nonce`, but the sealed bytes are not
/// valid text.
pub open spec fn seals_invalid_text(key: Seq<u8>, nonce: Seq<u8>, ct: Seq<u8>) -> bool {
    exists|b: Seq<u8>| #[trigger] seals(key, nonce, ct, b) && !valid_utf8(b)
}

/// The UTF-8 encoding of a character sequence is between one and four bytes
/// per character.
pub proof fn lemma_encode_utf8_len(s: Seq<char>)
    ensures
        s.len() <= encode_utf8(s).len() <= 4 * s.len(),
    decreases s.len(),
{
    if s.len() > 0 {
        lemma_encode_utf8_len(s.drop_first());
    }
}

/// Relies on `AeadCore::generate_nonce` with `OsRng`: a fixed-length nonce of
/// fresh random bytes from the operating system's generator.
#[verifier::external_body]
fn fresh_nonce() -> (r: Vec<u8>)
    ensures
        r@.len() == NONCE_LEN,
{
    Aes256Gcm::generate_nonce(&mut OsRng).to_vec()
}

/// Relies on aes-gcm's `Aead::encrypt` for `Aes256Gcm`: the ciphertext is a
/// function of key, nonce and plaintext alone, one tag longer than the
/// plaintext, and the call succeeds whenever the plaintext is within the
/// cipher's length bound.
#[verifier::external_body]
fn aead_seal(key: &[u8], nonce: &[u8], plaintext: &[u8]) -> (r: Vec<u8>)
    requires
        key@.len() == KEY_LEN,
        nonce@.len() == NONCE_LEN,
        plaintext@.len() <= MAX_PLAINTEXT_LEN,
    ensures
        r@.len() == plaintext@.len() + TAG_LEN,
        r@ == aes_gcm_seal(key@, nonce@, plaintext@),
{
    let cipher = Aes256Gcm::new(Key::<Aes256Gcm>::from_slice(key));
    cipher.encrypt(Nonce::from_slice(nonce), plaintext).expect("plaintext within the length bound")
}

/// Relies on aes-gcm's `Aead::decrypt` for `Aes256Gcm`: it returns the sealed
/// plaintext whenever the ciphertext is a sealing, and fails otherwise (the
/// tag does not verify).
#[verifier::external_body]
fn aead_open(key: &[u8], nonce: &[u8], ciphertext: &[u8]) -> (r: Option<Vec<u8>>)
    requires
        key@.len() == KEY_LEN,
        nonce@.len() == NONCE_LEN,
    ensures
        r is Some ==> seals(key@, nonce@, ciphertext@, r->Some_0@),
        forall|p: Seq<u8>| #[trigger] seals(key@, nonce@, ciphertext@, p) ==> (r is Some
            && r->Some_0@ == p),
{
    let cipher = Aes256Gcm::new(Key::<Aes256Gcm>::from_slice(key));
    cipher.decrypt(Nonce::from_slice(nonce), ciphertext).ok()
}

/// Relies on `String::from_utf8`: succeeds exactly on valid UTF-8 input and
/// returns the decoded characters.
#[verifier::external_body]
fn bytes_to_string(bytes: Vec<u8>) -> (r: Option<String>)
    ensures
        r is Some <==> valid_utf8(bytes@),
        r matches Some(s) ==> s@ == decode_utf8(bytes@),
{
    String::from_utf8(bytes).ok()
}

/// Authenticated-encryption wrapper around AES-256-GCM. It holds the
/// process-wide key, supplied once at construction and never exposed.
pub struct Encryption {
    key: Vec<u8>,
}

impl Encryption {
    /// The key bytes, visible to specifications only.
    pub closed spec fn key_view(&self) -> Seq<u8> {
        self.key@
    }

    /// The key has the fixed AES-256 length.
    pub open spec fn wf(&self) -> bool {
        self.key_view().len() == KEY_LEN
    }

    /// Takes ownership of the key. The caller decides where the key comes
    /// from; nothing here persists or reveals it.
    pub fn new(key: Vec<u8>) -> (r: Encryption)
        requires
            key@.len() == KEY_LEN,
        ensures
            r.wf(),
            r.key_view() == key@,
    {
        Encryption { key }
    }

    /// Encrypts `plaintext` under a fresh random nonce, generated here and
    /// never reused; returns the ciphertext and that nonce, which are only
    /// meaningful together.
    pub fn encrypt_bytes(&self, plaintext: &[u8]) -> (r: (Vec<u8>, Vec<u8>))
        requires
            self.wf(),
            plaintext@.len() <= MAX_PLAINTEXT_LEN,
        ensures
            r.1@.len() == NONCE_LEN,
            seals(self.key_view(), r.1@, r.0@, plaintext@),
    {
        let nonce = fresh_nonce();
        let ciphertext = aead_seal(self.key.as_slice(), nonce.as_slice(), plaintext);
        (ciphertext, nonce)
    }

    /// Decrypts a ciphertext/nonce pair: the sealed plaintext when the pair
    /// authenticates under the key, `AuthenticationFailure` otherwise.
    pub fn decrypt_bytes(&self, ciphertext: &[u8], nonce: &[u8]) -> (r: Result<
        Vec<u8>,
        CryptoError,
    >)
        requires
            self.wf(),
            nonce@.len() == NONCE_LEN,
        ensures
            r matches Ok(p) ==> seals(self.key_view(), nonce@, ciphertext@, p@),
            forall|p: Seq<u8>| #[trigger] seals(self.key_view(), nonce@, ciphertext@, p) ==> (
            r matches Ok(q) && q@ == p),
            r is Err ==> r == Err::<Vec<u8>, CryptoError>(CryptoError::AuthenticationFailure),
            r is Err <==> (forall|p: Seq<u8>| !#[trigger] seals(
                self.key_view(),
                nonce@,
                ciphertext@,
                p,
            )),
    {
        match aead_open(self.key.as_slice(), nonce, ciphertext) {
            Some(plaintext) => Ok(plaintext),
            None => {
                proof {
                    assert forall|p: Seq<u8>| !#[trigger] seals(
                        self.key_view(),
                        nonce@,
                        ciphertext@,
                        p,
                    ) by {}
                }
                Err(CryptoError::AuthenticationFailure)
            },
        }
    }

    /// Encrypts the UTF-8 bytes of `password` under a fresh random nonce;
    /// returns the ciphertext and that nonce.
    pub fn encrypt_password(&self, password: &str) -> (r: (Vec<u8>, Vec<u8>))
        requires
            self.wf(),
            4 * password@.len() <= MAX_PLAINTEXT_LEN,
        ensures
            r.1@.len() == NONCE_LEN,
            seals(self.key_view(), r.1@, r.0@, encode_utf8(password@)),
    {
        proof {
            lemma_encode_utf8_len(password@);
        }
        self.encrypt_bytes(password.as_bytes())
    }

    /// Decrypts a stored password. For every password `p`, a pair produced by
    /// sealing `p`'s UTF-8 bytes under this key decrypts back to `p` exactly.
    /// A pair that authenticates under no plaintext yields
    /// `AuthenticationFailure`; one that authenticates but does not hold
    /// valid text yields `DecodingFailure`.
    pub fn decrypt_password(&self, encrypted_password: &[u8], nonce: &[u8]) -> (r: Result<
        String,
        CryptoError,
    >)
        requires
            self.wf(),
            nonce@.len() == NONCE_LEN,
        ensures
            forall|p: Seq<char>| #[trigger] seals(
                self.key_view(),
                nonce@,
                encrypted_password@,
                encode_utf8(p),
            ) ==> (r matches Ok(s) && s@ == p),
            r matches Ok(s) ==> seals(
                self.key_view(),
                nonce@,
                encrypted_password@,
                encode_utf8(s@),
            ),
            r == Err::<String, CryptoError>(CryptoError::AuthenticationFailure) <==> undecryptable(
                self.key_view(),
                nonce@,
                encrypted_password@,
            ),
            r == Err::<String, CryptoError>(CryptoError::DecodingFailure) <==> seals_invalid_text(
                self.key_view(),
                nonce@,
                encrypted_password@,
            ),
    {
        let ghost key = self.key_view();
        let ghost n = nonce@;
        let ghost ct = encrypted_password@;
        match self.decrypt_bytes(encrypted_password, nonce) {
            Err(_) => {
                proof {
                    assert forall|p: Seq<char>| !#[trigger] seals(key, n, ct, encode_utf8(p)) by {}
                }
                Err(CryptoError::AuthenticationFailure)
            },
            Ok(bytes) => {
                let ghost bv = bytes@;
                match bytes_to_string(bytes) {
                    Some(s) => {
                        proof {
                            assert(encode_utf8(s@) == bv);
                            assert forall|p: Seq<char>| #[trigger] seals(
                                key,
                                n,
                                ct,
                                encode_utf8(p),
                            ) implies s@ == p by {
                                assert(bv == encode_utf8(p));
                            }
                            assert(!(exists|b: Seq<u8>| #[trigger] seals(key, n, ct, b)
                                && !valid_utf8(b))) by {
                                if exists|b: Seq<u8>| #[trigger] seals(key, n, ct, b)
                                    && !valid_utf8(b) {
                                    let b = choose|b: Seq<u8>| seals(key, n, ct, b) && !valid_utf8(
                                        b,
                                    );
                                    assert(b == bv);
                                }
                            }
                        }
                        Ok(s)
                    },
                    None => {
                        proof {
                            assert forall|p: Seq<char>| !#[trigger] seals(
                                key,
                                n,
                                ct,
                                encode_utf8(p),
                            ) by {
                                if seals(key, n, ct, encode_utf8(p)) {
                                    assert(bv == encode_utf8(p));
                                    assert(valid_utf8(bv));
                                }
                            }
                            assert(seals(key, n, ct, bv) && !valid_utf8(bv));
                        }
                        Err(CryptoError::DecodingFailure)
                    },
                }
            },
        }
    }
}

} // verus!
