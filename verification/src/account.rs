use vstd::prelude::*;

use crate::encryption::{seals, seals_invalid_text, undecryptable, Encryption, MAX_PLAINTEXT_LEN, NONCE_LEN};
use crate::errors::CryptoError;
use vstd::utf8::*;

verus! {

/// The specification-level image of an `Account`: the views of its four
/// fields.
pub ghost struct AccountView {
    pub service_name: Seq<char>,
    pub username: Seq<char>,
    pub encrypted_password: Seq<u8>,
    pub nonce: Seq<u8>,
}

/// A stored credential: a service/user identity bound to the encrypted
/// password and the nonce that produced it. The ciphertext is meaningful only
/// together with its own nonce; the two are set once at construction and
/// travel together from then on.
#[derive(Debug)]
pub struct Account {
    pub service_name: String,
    pub username: String,
    pub encrypted_password: Vec<u8>,
    pub nonce: Vec<u8>,
}

impl View for Account {
    type V = AccountView;

    open spec fn view(&self) -> AccountView {
        AccountView {
            service_name: self.service_name@,
            username: self.username@,
            encrypted_password: self.encrypted_password@,
            nonce: self.nonce@,
        }
    }
}

impl Account {
    /// The record's nonce has the fixed AES-GCM length.
    pub open spec fn wf(&self) -> bool {
        self.nonce@.len() == NONCE_LEN
    }

    /// Builds a record for `service` and `user`, encrypting `pass` exactly
    /// once, here: the resulting ciphertext and nonce become the record's
    /// immutable stored form.
    pub fn new(cipher: &Encryption, service: String, user: String, pass: String) -> (r: Account)
        requires
            cipher.wf(),
            4 * pass@.len() <= MAX_PLAINTEXT_LEN,
        ensures
            r.wf(),
            r@.service_name == service@,
            r@.username == user@,
            seals(cipher.key_view(), r@.nonce, r@.encrypted_password, encode_utf8(pass@)),
    {
        let (encrypted_password, nonce) = cipher.encrypt_password(pass.as_str());
        Account { service_name: service, username: user, encrypted_password, nonce }
    }

    /// Recovers the plaintext password from the record's own ciphertext and
    /// nonce. Pure with respect to the record; the cipher's error kinds
    /// propagate unchanged. A record built by `new` under the same key
    /// decrypts back to the password it was built from; under a different
    /// key, authentication fails instead of returning garbage.
    pub fn get_password(&self, cipher: &Encryption) -> (r: Result<String, CryptoError>)
        requires
            self.wf(),
            cipher.wf(),
        ensures
            forall|p: Seq<char>| #[trigger] seals(
                cipher.key_view(),
                self@.nonce,
                self@.encrypted_password,
                encode_utf8(p),
            ) ==> (r matches Ok(s) && s@ == p),
            r matches Ok(s) ==> seals(
                cipher.key_view(),
                self@.nonce,
                self@.encrypted_password,
                encode_utf8(s@),
            ),
            r == Err::<String, CryptoError>(CryptoError::AuthenticationFailure) <==> undecryptable(
                cipher.key_view(),
                self@.nonce,
                self@.encrypted_password,
            ),
            r == Err::<String, CryptoError>(CryptoError::DecodingFailure) <==> seals_invalid_text(
                cipher.key_view(),
                self@.nonce,
                self@.encrypted_password,
            ),
    {
        cipher.decrypt_password(self.encrypted_password.as_slice(), self.nonce.as_slice())
    }

    /// A field-for-field copy of the record.
    pub fn duplicate(&self) -> (r: Account)
        ensures
            r@ == self@,
    {
        Account {
            service_name: self.service_name.clone(),
            username: self.username.clone(),
            encrypted_password: self.encrypted_password.clone(),
            nonce: self.nonce.clone(),
        }
    }
}

} // verus!
