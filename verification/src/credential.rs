//! The credential entity: one secret identity, with its storage layout.
//!
//! A credential holds a 16-byte unique identifier, a username and password,
//! and a 32-byte symmetric key drawn from the operating system's secure
//! random source.  The identifier doubles as the credential's storage index;
//! the byte layout used by the store is defined here and proved lossless.

use vstd::bytes::*;
use vstd::prelude::*;
use vstd::utf8::*;

use crate::hexfmt::{bytes_to_hex, hex_of};
use crate::storage::{Indexer, Record};

verus! {

/// A failure of the credential protocol.
#[derive(Clone, Copy, Debug, PartialEq, Eq, Structural)]
pub enum CryptoError {
    /// The cipher failed internally while sealing.
    Encryption,
    /// A capsule failed authentication while opening.
    Authentication,
    /// The operating system's secure random source is unavailable.
    RandomSource,
}

/// The mathematical model of a credential.
#[verifier::ext_equal]
pub ghost struct CredentialView {
    pub id: Seq<u8>,
    pub user: Seq<char>,
    pub password: Seq<char>,
    pub api_key: Seq<u8>,
}

/// One secret identity: an immutable identifier, the username and password
/// it protects, and the symmetric key that seals its capsules.
pub struct Credential {
    pub id: Vec<u8>,
    pub user: String,
    pub password: String,
    pub api_key: Vec<u8>,
}

impl View for Credential {
    type V = CredentialView;

    open spec fn view(&self) -> CredentialView {
        CredentialView {
            id: self.id@,
            user: self.user@,
            password: self.password@,
            api_key: self.api_key@,
        }
    }
}

/// A well-formed credential: a 16-byte identifier, a 32-byte key, and text
/// whose encodings fit in memory.
pub open spec fn cred_wf(v: CredentialView) -> bool {
    &&& v.id.len() == 16
    &&& v.api_key.len() == 32
    &&& encode_utf8(v.user).len() <= usize::MAX
    &&& encode_utf8(v.password).len() <= usize::MAX
}

/// The byte layout of a credential: the identifier, the username and
/// password each as a little-endian 8-byte length followed by its UTF-8
/// bytes, then the key.
pub open spec fn cred_enc(v: CredentialView) -> Seq<u8> {
    v.id + spec_u64_to_le_bytes(encode_utf8(v.user).len() as u64) + encode_utf8(v.user)
        + spec_u64_to_le_bytes(encode_utf8(v.password).len() as u64) + encode_utf8(v.password)
        + v.api_key
}

/// The credential recovered from stored bytes, if they parse: the inverse
/// of [`cred_enc`] on its range, and `None` off it.
pub open spec fn cred_dec(b: Seq<u8>) -> Option<CredentialView> {
    if b.len() < 24 {
        None
    } else {
        let ulen = spec_u64_from_le_bytes(b.subrange(16, 24)) as int;
        if b.len() - 24 < ulen + 8 {
            None
        } else {
            let plen = spec_u64_from_le_bytes(b.subrange(24 + ulen, 32 + ulen)) as int;
            if b.len() - 32 - ulen != plen + 32 {
                None
            } else {
                let ubytes = b.subrange(24, 24 + ulen);
                let pbytes = b.subrange(32 + ulen, 32 + ulen + plen);
                if valid_utf8(ubytes) && valid_utf8(pbytes) {
                    Some(
                        CredentialView {
                            id: b.subrange(0, 16),
                            user: decode_utf8(ubytes),
                            password: decode_utf8(pbytes),
                            api_key: b.subrange(32 + ulen + plen, b.len() as int),
                        },
                    )
                } else {
                    None
                }
            }
        }
    }
}

/// The layout is lossless: parsing the encoding of a well-formed credential
/// yields that credential.
pub proof fn lemma_cred_codec_round_trip(v: CredentialView)
    requires
        cred_wf(v),
    ensures
        cred_dec(cred_enc(v)) == Some(v),
{
    broadcast use encode_utf8_valid_utf8;

    lemma_auto_spec_u64_to_from_le_bytes();
    let ub = encode_utf8(v.user);
    let pb = encode_utf8(v.password);
    let u = ub.len() as int;
    let p = pb.len() as int;
    let b = cred_enc(v);
    assert(b.len() == 16 + 8 + u + 8 + p + 32);
    assert(b.subrange(16, 24) =~= spec_u64_to_le_bytes(ub.len() as u64));
    assert(spec_u64_from_le_bytes(b.subrange(16, 24)) == ub.len() as u64);
    assert(b.subrange(24 + u, 32 + u) =~= spec_u64_to_le_bytes(pb.len() as u64));
    assert(spec_u64_from_le_bytes(b.subrange(24 + u, 32 + u)) == pb.len() as u64);
    assert(b.subrange(0, 16) =~= v.id);
    assert(b.subrange(24, 24 + u) =~= ub);
    assert(b.subrange(32 + u, 32 + u + p) =~= pb);
    assert(b.subrange(32 + u + p, b.len() as int) =~= v.api_key);
    encode_utf8_decode_utf8(v.user);
    encode_utf8_decode_utf8(v.password);
    assert(cred_dec(b) matches Some(w) && w =~= v);
}

/// Relies on String::from_utf8: accepts exactly the valid UTF-8 byte
/// sequences and returns the text they encode.
#[verifier::external_body]
fn string_from_utf8(bytes: Vec<u8>) -> (r: Option<String>)
    ensures
        r matches Some(s) ==> bytes@ == encode_utf8(s@),
        r is None ==> !valid_utf8(bytes@),
{
    String::from_utf8(bytes).ok()
}

/// Appends a byte slice to a buffer.
pub(crate) fn push_bytes(dst: &mut Vec<u8>, src: &[u8])
    ensures
        final(dst)@ == old(dst)@ + src@,
{
    let mut i: usize = 0;
    while i < src.len()
        invariant
            0 <= i <= src@.len(),
            dst@ == old(dst)@ + src@.subrange(0, i as int),
        decreases src@.len() - i,
    {
        dst.push(src[i]);
        proof {
            assert(old(dst)@ + src@.subrange(0, i + 1 as int) =~= (old(dst)@ + src@.subrange(
                0,
                i as int,
            )).push(src@[i as int]));
        }
        i = i + 1;
    }
    proof {
        assert(src@.subrange(0, src@.len() as int) =~= src@);
    }
}

impl Record for Credential {
    open spec fn wf(&self) -> bool {
        cred_wf(self@)
    }

    open spec fn enc_of(v: CredentialView) -> Seq<u8> {
        cred_enc(v)
    }

    open spec fn dec_of(b: Seq<u8>) -> Option<CredentialView> {
        cred_dec(b)
    }

    proof fn lemma_codec_round_trip(&self) {
        lemma_cred_codec_round_trip(self@);
    }

    fn encode(&self) -> (r: Vec<u8>) {
        let mut out: Vec<u8> = Vec::new();
        push_bytes(&mut out, self.id.as_slice());
        let ub = self.user.as_str().as_bytes();
        let ulen_bytes = u64_to_le_bytes(ub.len() as u64);
        push_bytes(&mut out, ulen_bytes.as_slice());
        push_bytes(&mut out, ub);
        let pb = self.password.as_str().as_bytes();
        let plen_bytes = u64_to_le_bytes(pb.len() as u64);
        push_bytes(&mut out, plen_bytes.as_slice());
        push_bytes(&mut out, pb);
        push_bytes(&mut out, self.api_key.as_slice());
        proof {
            assert(out@ =~= cred_enc(self@));
        }
        out
    }

    fn decode(b: &[u8]) -> (r: Option<Self>) {
        if b.len() < 24 {
            return None;
        }
        let id: Vec<u8> = vstd::slice::slice_to_vec(vstd::slice::slice_subrange(b, 0, 16));
        let ulen64 = u64_from_le_bytes(vstd::slice::slice_subrange(b, 16, 24));
        let rem1 = b.len() - 24;
        if ulen64 > rem1 as u64 || (rem1 as u64) - ulen64 < 8 {
            return None;
        }
        let ulen = ulen64 as usize;
        let ubytes = vstd::slice::slice_subrange(b, 24, 24 + ulen);
        let plen64 = u64_from_le_bytes(
            vstd::slice::slice_subrange(b, 24 + ulen, 32 + ulen),
        );
        let rem2 = b.len() - 32 - ulen;
        if plen64 > rem2 as u64 || (rem2 as u64) - plen64 != 32 {
            return None;
        }
        let plen = plen64 as usize;
        let pbytes = vstd::slice::slice_subrange(b, 32 + ulen, 32 + ulen + plen);
        let api_key: Vec<u8> = vstd::slice::slice_to_vec(
            vstd::slice::slice_subrange(b, 32 + ulen + plen, b.len()),
        );
        let user = match string_from_utf8(vstd::slice::slice_to_vec(ubytes)) {
            Some(s) => s,
            None => {
                return None;
            },
        };
        let password = match string_from_utf8(vstd::slice::slice_to_vec(pbytes)) {
            Some(s) => s,
            None => {
                return None;
            },
        };
        let c = Credential { id, user, password, api_key };
        proof {
            broadcast use encode_utf8_valid_utf8;

            encode_utf8_decode_utf8(c.user@);
            encode_utf8_decode_utf8(c.password@);
            assert(cred_dec(b@) matches Some(w) && w =~= c@);
        }
        Some(c)
    }
}

/// The indexing strategy of credentials: a credential is stored under its
/// identifier.
pub struct CredentialIndexer;

impl Indexer<Credential> for CredentialIndexer {
    open spec fn spec_index_of(&self, v: CredentialView) -> Seq<u8> {
        v.id
    }

    fn get_index(&self, value: &Credential) -> (r: Vec<u8>) {
        vstd::slice::slice_to_vec(value.id.as_slice())
    }
}

/// Relies on rand_core::OsRng::try_fill_bytes: fills a buffer from the
/// operating system's cryptographically secure random source, or reports
/// that the source is unavailable.  Nothing is promised of the bytes
/// themselves.
#[verifier::external_body]
pub(crate) fn os_random_bytes(n: usize) -> (r: Option<Vec<u8>>)
    ensures
        r matches Some(b) ==> b@.len() == n,
{
    let mut buf = vec![0u8; n];
    rand_core::TryRngCore::try_fill_bytes(&mut rand_core::OsRng, &mut buf).ok().map(|_| buf)
}

impl Credential {
    /// Creates a credential for `user` and `password`, generating a fresh
    /// unique identifier and a fresh 256-bit key from the secure random
    /// source.  Fails only if that source is unavailable.  The identifier
    /// carries the random-identifier shape: its seventh byte's high nibble
    /// is the version four, and its ninth byte's top bits mark the variant.
    pub fn new(user: &str, password: &str) -> (r: Result<Credential, CryptoError>)
        ensures
            r matches Ok(c) ==> {
                &&& c.wf()
                &&& c.user@ == user@
                &&& c.password@ == password@
                &&& c.id@.len() == 16
                &&& c.api_key@.len() == 32
                &&& c.id@[6] >> 4 == 4
                &&& c.id@[8] >> 6 == 2
            },
            r matches Err(e) ==> e == CryptoError::RandomSource,
    {
        let mut id = match os_random_bytes(16) {
            Some(b) => b,
            None => {
                return Err(CryptoError::RandomSource);
            },
        };
        let api_key = match os_random_bytes(32) {
            Some(b) => b,
            None => {
                return Err(CryptoError::RandomSource);
            },
        };
        let b6 = id[6];
        id[6] = (b6 & 0x0f) | 0x40;
        let b8 = id[8];
        id[8] = (b8 & 0x3f) | 0x80;
        proof {
            assert(forall|x: u8| ((x & 0x0f) | 0x40) >> 4 == 4) by (bit_vector);
            assert(forall|x: u8| ((x & 0x3f) | 0x80) >> 6 == 2) by (bit_vector);
        }
        // The byte length of each string is a usize, which bounds the
        // length of its UTF-8 encoding as well-formedness asks.
        let _user_len: usize = user.as_bytes().len();
        let _password_len: usize = password.as_bytes().len();
        Ok(
            Credential {
                id,
                user: String::from_str(user),
                password: String::from_str(password),
                api_key,
            },
        )
    }

    /// The credential's key, rendered as lowercase hexadecimal for export.
    pub fn api_key_hex(&self) -> (r: String)
        ensures
            r@ == hex_of(self.api_key@),
    {
        bytes_to_hex(&self.api_key)
    }

    /// The credential's identifier, rendered as lowercase hexadecimal.
    pub fn id_hex(&self) -> (r: String)
        ensures
            r@ == hex_of(self.id@),
    {
        bytes_to_hex(&self.id)
    }

    /// The credential's identifier in its canonical hyphenated text form:
    /// lowercase-hex groups of four, two, two, two and six bytes.
    pub fn id_hyphenated(&self) -> (r: String)
        requires
            self.id@.len() == 16,
        ensures
            r@ == hex_of(self.id@.subrange(0, 4)) + "-"@ + hex_of(self.id@.subrange(4, 6)) + "-"@
                + hex_of(self.id@.subrange(6, 8)) + "-"@ + hex_of(self.id@.subrange(8, 10)) + "-"@
                + hex_of(self.id@.subrange(10, 16)),
    {
        let id = self.id.as_slice();
        let mut s = bytes_to_hex(&vstd::slice::slice_to_vec(vstd::slice::slice_subrange(id, 0, 4)));
        let g2 = bytes_to_hex(&vstd::slice::slice_to_vec(vstd::slice::slice_subrange(id, 4, 6)));
        let g3 = bytes_to_hex(&vstd::slice::slice_to_vec(vstd::slice::slice_subrange(id, 6, 8)));
        let g4 = bytes_to_hex(&vstd::slice::slice_to_vec(vstd::slice::slice_subrange(id, 8, 10)));
        let g5 = bytes_to_hex(
            &vstd::slice::slice_to_vec(vstd::slice::slice_subrange(id, 10, 16)),
        );
        s.append("-");
        s.append(g2.as_str());
        s.append("-");
        s.append(g3.as_str());
        s.append("-");
        s.append(g4.as_str());
        s.append("-");
        s.append(g5.as_str());
        s
    }
}

} // verus!
