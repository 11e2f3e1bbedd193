//! The capsule protocol: authenticated encryption of a credential's secret
//! fields, bound to its identity.
//!
//! Sealing serializes the username/password pair, draws a fresh random
//! 96-bit nonce, and encrypts the payload with AES-256-GCM-SIV under the
//! credential's key, with the credential's identifier as associated data.
//! Opening is the logical inverse: it succeeds exactly when the key, the
//! identifier and every byte of the capsule are the ones sealing used.

use aes_gcm_siv::KeyInit;
use vstd::prelude::*;

use crate::credential::{cred_wf, os_random_bytes, push_bytes, Credential, CryptoError};
use crate::hexfmt::{bytes_to_hex, hex_of, lemma_hex_of_len};

verus! {

/// The bytes serde_json writes for a pair of strings.  They depend on the
/// two strings alone.
pub uninterp spec fn json_pair(user: Seq<char>, password: Seq<char>) -> Seq<u8>;

/// The pair of strings a byte sequence parses to as a JSON pair document,
/// if it parses as one.
pub uninterp spec fn json_pair_parse(b: Seq<u8>) -> Option<(Seq<char>, Seq<char>)>;

/// Relies on serde_json::to_vec: writes the pair as a JSON array of two
/// strings, a function of the two strings alone; serde_json::from_slice
/// parses those bytes back to the same pair.
#[verifier::external_body]
fn json_encode_pair(user: &str, password: &str) -> (r: Result<Vec<u8>, CryptoError>)
    ensures
        r matches Ok(b) ==> b@ == json_pair(user@, password@) && json_pair_parse(b@) == Some(
            (user@, password@),
        ),
        r matches Err(e) ==> e == CryptoError::Encryption,
{
    serde_json::to_vec(&(user, password)).map_err(|_| CryptoError::Encryption)
}

/// Relies on serde_json::from_slice: parses a JSON array of two strings,
/// accepting exactly the byte sequences that parse as one.
#[verifier::external_body]
fn json_decode_pair(b: &Vec<u8>) -> (r: Option<(String, String)>)
    ensures
        r matches Some(pair) ==> json_pair_parse(b@) == Some((pair.0@, pair.1@)),
        r is None ==> json_pair_parse(b@) is None,
{
    serde_json::from_slice::<(String, String)>(b.as_slice()).ok()
}

/// The ciphertext AES-256-GCM-SIV produces from a key, nonce, associated
/// data and message.  It is a function of those four values alone.
pub uninterp spec fn aead_enc(key: Seq<u8>, nonce: Seq<u8>, aad: Seq<u8>, msg: Seq<u8>) -> Seq<u8>;

/// The message AES-256-GCM-SIV recovers from a key, nonce, associated data
/// and ciphertext, if the ciphertext authenticates.
pub uninterp spec fn aead_dec(key: Seq<u8>, nonce: Seq<u8>, aad: Seq<u8>, ct: Seq<u8>) -> Option<
    Seq<u8>,
>;

/// Relies on aes_gcm_siv::Aes256GcmSiv, through KeyInit::new_from_slice and
/// Aead::encrypt: deterministic authenticated encryption of the message
/// under the key, nonce and associated data.  The ciphertext is the message
/// followed by a 16-byte tag, and decrypting it with the same key, nonce
/// and associated data yields the message again.
#[verifier::external_body]
fn aead_encrypt(key: &Vec<u8>, nonce: &Vec<u8>, aad: &Vec<u8>, msg: &Vec<u8>) -> (r: Result<
    Vec<u8>,
    CryptoError,
>)
    requires
        key@.len() == 32,
        nonce@.len() == 12,
    ensures
        r matches Ok(c) ==> {
            &&& c@ == aead_enc(key@, nonce@, aad@, msg@)
            &&& c@.len() == msg@.len() + 16
            &&& aead_dec(key@, nonce@, aad@, c@) == Some(msg@)
        },
        r matches Err(e) ==> e == CryptoError::Encryption,
{
    let cipher = match aes_gcm_siv::Aes256GcmSiv::new_from_slice(key.as_slice()) {
        Ok(c) => c,
        Err(_) => return Err(CryptoError::Encryption),
    };
    let nonce_arr = match aes_gcm_siv::Nonce::try_from(nonce.as_slice()) {
        Ok(n) => n,
        Err(_) => return Err(CryptoError::Encryption),
    };
    let payload = aes_gcm_siv::aead::Payload { msg: msg.as_slice(), aad: aad.as_slice() };
    aes_gcm_siv::aead::Aead::encrypt(&cipher, &nonce_arr, payload).map_err(
        |_| CryptoError::Encryption,
    )
}

/// Relies on aes_gcm_siv::Aes256GcmSiv, through KeyInit::new_from_slice and
/// Aead::decrypt: authenticated decryption under the key, nonce and
/// associated data.  It succeeds exactly when the ciphertext authenticates,
/// and failure returns no plaintext at all.
#[verifier::external_body]
fn aead_decrypt(key: &Vec<u8>, nonce: &Vec<u8>, aad: &Vec<u8>, ct: &Vec<u8>) -> (r: Option<
    Vec<u8>,
>)
    requires
        key@.len() == 32,
        nonce@.len() == 12,
    ensures
        r matches Some(m) ==> aead_dec(key@, nonce@, aad@, ct@) == Some(m@),
        r is None ==> aead_dec(key@, nonce@, aad@, ct@) is None,
{
    let cipher = match aes_gcm_siv::Aes256GcmSiv::new_from_slice(key.as_slice()) {
        Ok(c) => c,
        Err(_) => return None,
    };
    let nonce_arr = match aes_gcm_siv::Nonce::try_from(nonce.as_slice()) {
        Ok(n) => n,
        Err(_) => return None,
    };
    let payload = aes_gcm_siv::aead::Payload { msg: ct.as_slice(), aad: aad.as_slice() };
    aes_gcm_siv::aead::Aead::decrypt(&cipher, &nonce_arr, payload).ok()
}

/// What opening a capsule's parts with a key and an identifier denotes:
/// the authenticated payload, parsed as the username/password pair.
pub open spec fn open_spec(nonce: Seq<u8>, token: Seq<u8>, key: Seq<u8>, id: Seq<u8>) -> Option<
    (Seq<char>, Seq<char>),
> {
    match aead_dec(key, nonce, id, token) {
        Some(m) => json_pair_parse(m),
        None => None,
    }
}

/// The transportable encrypted form of a credential's secret fields: a
/// fresh 96-bit nonce and the authenticated ciphertext.
pub struct Capsule {
    pub nonce: Vec<u8>,
    pub token: Vec<u8>,
}

impl Capsule {
    /// A well-formed capsule carries a 96-bit nonce.
    pub open spec fn wf(&self) -> bool {
        self.nonce@.len() == 12
    }

    /// The canonical byte form: the 12-byte nonce followed by the
    /// ciphertext and tag.
    pub fn to_bytes(&self) -> (r: Vec<u8>)
        ensures
            r@ == self.nonce@ + self.token@,
    {
        let mut out: Vec<u8> = Vec::new();
        push_bytes(&mut out, self.nonce.as_slice());
        push_bytes(&mut out, self.token.as_slice());
        proof {
            assert(out@ =~= self.nonce@ + self.token@);
        }
        out
    }

    /// The canonical text form: the byte form, hex-encoded.
    pub fn to_hex(&self) -> (r: String)
        ensures
            r@ == hex_of(self.nonce@ + self.token@),
            r@.len() == 2 * (self.nonce@.len() + self.token@.len()),
    {
        let b = self.to_bytes();
        proof {
            lemma_hex_of_len(b@);
        }
        bytes_to_hex(&b)
    }

    /// Rebuilds a capsule from its byte form, taking the first twelve
    /// bytes as the nonce; byte strings too short to hold a nonce are
    /// rejected.
    pub fn from_bytes(b: &[u8]) -> (r: Option<Capsule>)
        ensures
            match r {
                Some(c) => {
                    &&& b@.len() >= 12
                    &&& c.nonce@ == b@.subrange(0, 12)
                    &&& c.token@ == b@.subrange(12, b@.len() as int)
                    &&& c.wf()
                },
                None => b@.len() < 12,
            },
    {
        if b.len() < 12 {
            return None;
        }
        let nonce: Vec<u8> = vstd::slice::slice_to_vec(vstd::slice::slice_subrange(b, 0, 12));
        let token: Vec<u8> = vstd::slice::slice_to_vec(
            vstd::slice::slice_subrange(b, 12, b.len()),
        );
        Some(Capsule { nonce, token })
    }

    /// Opens the capsule with a key and an identifier: the logical inverse
    /// of sealing.  It returns the username/password pair exactly when the
    /// capsule authenticates under that key and identifier; a wrong key, a
    /// wrong identifier or an altered byte fails, and failure reveals no
    /// plaintext.
    pub fn open(&self, key: &Vec<u8>, id: &Vec<u8>) -> (r: Result<(String, String), CryptoError>)
        requires
            self.wf(),
            key@.len() == 32,
        ensures
            r matches Ok(pair) ==> open_spec(self.nonce@, self.token@, key@, id@) == Some(
                (pair.0@, pair.1@),
            ),
            r matches Err(e) ==> e == CryptoError::Authentication && open_spec(
                self.nonce@,
                self.token@,
                key@,
                id@,
            ) is None,
            open_spec(self.nonce@, self.token@, key@, id@) is Some ==> r is Ok,
    {
        let m = match aead_decrypt(key, &self.nonce, id, &self.token) {
            Some(m) => m,
            None => {
                return Err(CryptoError::Authentication);
            },
        };
        match json_decode_pair(&m) {
            Some(pair) => Ok(pair),
            None => Err(CryptoError::Authentication),
        }
    }
}

impl Credential {
    /// Seals the credential: the username/password pair, serialized and
    /// encrypted under the credential's key with a fresh random nonce,
    /// bound to the credential's identifier as associated data.  Opening
    /// the sealed capsule with this credential's key and identifier yields
    /// the username and password again.
    pub fn capsule(&self) -> (r: Result<Capsule, CryptoError>)
        requires
            cred_wf(self@),
        ensures
            r matches Ok(cap) ==> {
                &&& cap.wf()
                &&& cap.token@ == aead_enc(
                    self.api_key@,
                    cap.nonce@,
                    self.id@,
                    json_pair(self.user@, self.password@),
                )
                &&& cap.token@.len() == json_pair(self.user@, self.password@).len() + 16
                &&& open_spec(cap.nonce@, cap.token@, self.api_key@, self.id@) == Some(
                    (self.user@, self.password@),
                )
            },
            r matches Err(e) ==> e == CryptoError::Encryption || e == CryptoError::RandomSource,
    {
        let data = json_encode_pair(self.user.as_str(), self.password.as_str())?;
        let nonce = match os_random_bytes(12) {
            Some(b) => b,
            None => {
                return Err(CryptoError::RandomSource);
            },
        };
        let token = aead_encrypt(&self.api_key, &nonce, &self.id, &data)?;
        Ok(Capsule { nonce, token })
    }
}

} // verus!
