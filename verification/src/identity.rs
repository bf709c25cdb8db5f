//! The device's identity towards a gateway: an Ed25519 key, the device id
//! derived from it, and the text that is signed to authenticate.

use base64::Engine;
use ed25519_dalek::Signer;
use sha2::Digest;
use vstd::prelude::*;
use vstd::string::*;
use crate::text::{decimal, decimal_string, join_strings, joined, string_of, strs};

verus! {

/// The SHA-256 digest of a byte string.
pub uninterp spec fn sha256_of(data: Seq<u8>) -> Seq<u8>;

/// The unpadded URL-safe base64 text of a byte string.
pub uninterp spec fn base64url_text(data: Seq<u8>) -> Seq<char>;

/// The Ed25519 public key that belongs to a secret key.
pub uninterp spec fn ed25519_public(secret: Seq<u8>) -> Seq<u8>;

/// The Ed25519 signature of a message under a secret key.
pub uninterp spec fn ed25519_signature(secret: Seq<u8>, message: Seq<u8>) -> Seq<u8>;

/// SHA-256 of `data`. Trusted statement about `sha2::Sha256::digest`: the
/// result is a function of the input and has 32 bytes.
#[verifier::external_body]
pub(crate) fn sha256(data: &[u8]) -> (out: Vec<u8>)
    ensures
        out@ == sha256_of(data@),
        out@.len() == 32,
{
    sha2::Sha256::digest(data).to_vec()
}

/// Unpadded URL-safe base64 of `data`. Trusted statement about
/// `base64::Engine::encode` on `URL_SAFE_NO_PAD`: the text is a function of
/// the input.
#[verifier::external_body]
fn base64url(data: &[u8]) -> (out: String)
    ensures
        out@ == base64url_text(data@),
{
    base64::engine::general_purpose::URL_SAFE_NO_PAD.encode(data)
}

/// The public key of a secret key. Trusted statement about
/// `ed25519_dalek::SigningKey::from_bytes` and `verifying_key`: the public
/// key is a function of the secret key and has 32 bytes.
#[verifier::external_body]
fn public_key_of(secret: &[u8; 32]) -> (out: Vec<u8>)
    ensures
        out@ == ed25519_public(secret@),
        out@.len() == 32,
{
    ed25519_dalek::SigningKey::from_bytes(secret).verifying_key().to_bytes().to_vec()
}

/// Signs a message. Trusted statement about `ed25519_dalek::SigningKey::sign`:
/// the signature is a function of secret key and message and has 64 bytes.
#[verifier::external_body]
fn sign_bytes(secret: &[u8; 32], message: &[u8]) -> (out: Vec<u8>)
    ensures
        out@ == ed25519_signature(secret@, message@),
        out@.len() == 64,
{
    ed25519_dalek::SigningKey::from_bytes(secret).sign(message).to_bytes().to_vec()
}

/// The character of a hexadecimal digit, in lowercase.
pub open spec fn hex_char(d: int) -> char {
    if d == 0 {
        '0'
    } else if d == 1 {
        '1'
    } else if d == 2 {
        '2'
    } else if d == 3 {
        '3'
    } else if d == 4 {
        '4'
    } else if d == 5 {
        '5'
    } else if d == 6 {
        '6'
    } else if d == 7 {
        '7'
    } else if d == 8 {
        '8'
    } else if d == 9 {
        '9'
    } else if d == 10 {
        'a'
    } else if d == 11 {
        'b'
    } else if d == 12 {
        'c'
    } else if d == 13 {
        'd'
    } else if d == 14 {
        'e'
    } else {
        'f'
    }
}

/// Bytes in hexadecimal: two lowercase digits each.
pub open spec fn hex_text(bytes: Seq<u8>) -> Seq<char>
    decreases bytes.len(),
{
    if bytes.len() == 0 {
        Seq::empty()
    } else {
        hex_text(bytes.drop_last()).push(hex_char(bytes.last() as int / 16)).push(
            hex_char(bytes.last() as int % 16),
        )
    }
}

fn hex_digit(d: u8) -> (c: char)
    requires
        d < 16,
    ensures
        c == hex_char(d as int),
{
    if d == 0 {
        '0'
    } else if d == 1 {
        '1'
    } else if d == 2 {
        '2'
    } else if d == 3 {
        '3'
    } else if d == 4 {
        '4'
    } else if d == 5 {
        '5'
    } else if d == 6 {
        '6'
    } else if d == 7 {
        '7'
    } else if d == 8 {
        '8'
    } else if d == 9 {
        '9'
    } else if d == 10 {
        'a'
    } else if d == 11 {
        'b'
    } else if d == 12 {
        'c'
    } else if d == 13 {
        'd'
    } else if d == 14 {
        'e'
    } else {
        'f'
    }
}

/// Bytes in hexadecimal: two lowercase digits each.
pub fn encode(bytes: &[u8]) -> (out: String)
    ensures
        out@ == hex_text(bytes@),
        out@.len() == 2 * bytes@.len(),
{
    let mut buf: Vec<char> = Vec::new();
    let mut i: usize = 0;
    while i < bytes.len()
        invariant
            i <= bytes.len(),
            buf@ == hex_text(bytes@.take(i as int)),
            buf@.len() == 2 * i,
        decreases bytes.len() - i,
    {
        assert(bytes@.take(i + 1).drop_last() =~= bytes@.take(i as int));
        assert(bytes@.take(i + 1).last() == bytes@[i as int]);
        buf.push(hex_digit(bytes[i] / 16));
        buf.push(hex_digit(bytes[i] % 16));
        i += 1;
    }
    assert(bytes@.take(bytes.len() as int) =~= bytes@);
    string_of(&buf)
}

/// The device id of a public key: its SHA-256 in hexadecimal.
pub fn derive_device_id(public_key: &[u8]) -> (id: String)
    ensures
        id@ == hex_text(sha256_of(public_key@)),
        id@.len() == 64,
{
    let digest = sha256(public_key);
    encode(digest.as_slice())
}

/// The fields of the signed text that are always there.
pub open spec fn auth_fields(
    device_id: Seq<char>,
    client_id: Seq<char>,
    client_mode: Seq<char>,
    role: Seq<char>,
    scopes: Seq<Seq<char>>,
    signed_at_ms: u64,
    token: Option<Seq<char>>,
    nonce: Option<Seq<char>>,
) -> Seq<Seq<char>> {
    seq![
        if nonce is Some { "v2"@ } else { "v1"@ },
        device_id,
        client_id,
        client_mode,
        role,
        joined(scopes, ","@),
        decimal(signed_at_ms as nat),
        match token {
            Some(t) => t,
            None => ""@,
        },
    ]
}

/// The text that is signed to authenticate: the fields joined by `|`, with
/// the nonce last if there is one. With a nonce the text is version 2, without
/// one version 1.
pub open spec fn auth_payload(
    device_id: Seq<char>,
    client_id: Seq<char>,
    client_mode: Seq<char>,
    role: Seq<char>,
    scopes: Seq<Seq<char>>,
    signed_at_ms: u64,
    token: Option<Seq<char>>,
    nonce: Option<Seq<char>>,
) -> Seq<char> {
    let head = auth_fields(device_id, client_id, client_mode, role, scopes, signed_at_ms, token, nonce);
    match nonce {
        Some(n) => joined(head.push(n), "|"@),
        None => joined(head, "|"@),
    }
}

/// Views of an optional string slice.
pub open spec fn opt_str(o: Option<&str>) -> Option<Seq<char>> {
    match o {
        Some(s) => Some(s@),
        None => None,
    }
}

/// Builds the text that is signed to authenticate.
pub fn build_auth_payload(
    device_id: &str,
    client_id: &str,
    client_mode: &str,
    role: &str,
    scopes: &[String],
    signed_at_ms: u64,
    token: Option<&str>,
    nonce: Option<&str>,
) -> (out: String)
    ensures
        out@ == auth_payload(
            device_id@,
            client_id@,
            client_mode@,
            role@,
            strs(scopes@),
            signed_at_ms,
            opt_str(token),
            opt_str(nonce),
        ),
{
    let mut scope_list: Vec<String> = Vec::new();
    let mut i: usize = 0;
    while i < scopes.len()
        invariant
            i <= scopes.len(),
            scope_list@ == scopes@.subrange(0, i as int),
        decreases scopes.len() - i,
    {
        scope_list.push(scopes[i].clone());
        i += 1;
        assert(scope_list@ =~= scopes@.subrange(0, i as int));
    }
    assert(scopes@.subrange(0, scopes.len() as int) =~= scopes@);
    let mut parts: Vec<String> = Vec::new();
    parts.push((if nonce.is_some() { "v2" } else { "v1" }).to_string());
    parts.push(device_id.to_string());
    parts.push(client_id.to_string());
    parts.push(client_mode.to_string());
    parts.push(role.to_string());
    parts.push(join_strings(&scope_list, ","));
    parts.push(decimal_string(signed_at_ms));
    parts.push(
        match token {
            Some(t) => t.to_string(),
            None => "".to_string(),
        },
    );
    let ghost head = strs(parts@);
    assert(head =~= auth_fields(
        device_id@,
        client_id@,
        client_mode@,
        role@,
        strs(scopes@),
        signed_at_ms,
        opt_str(token),
        opt_str(nonce),
    ));
    assert(opt_str(nonce) is Some <==> nonce is Some);
    match nonce {
        Some(n) => {
            parts.push(n.to_string());
            assert(strs(parts@) =~= head.push(n@));
            assert(opt_str(nonce) == Some(n@));
        },
        None => {
            assert(opt_str(nonce) is None);
        },
    }
    let out = join_strings(&parts, "|");
    assert(out@ == match opt_str(nonce) {
        Some(n) => joined(head.push(n), "|"@),
        None => joined(head, "|"@),
    });
    out
}

/// An Ed25519 key pair with the device id derived from its public key.
#[derive(Clone, Debug)]
pub struct DeviceIdentity {
    pub device_id: String,
    pub secret_key: [u8; 32],
    pub public_key: Vec<u8>,
}

/// Why a stored identity cannot be used.
#[derive(Clone, Copy, Debug, PartialEq, Eq, Structural)]
pub enum IdentityError {
    /// The stored format has a version other than 1.
    UnsupportedVersion(u32),
    /// The stored secret key does not have 32 bytes.
    InvalidKeyLength(usize),
}

/// What a stored identity amounts to: the version is looked at first, then
/// the length of the key.
pub open spec fn stored_key(version: u32, private_key: Seq<u8>) -> Result<Seq<u8>, IdentityError> {
    if version != 1 {
        Err(IdentityError::UnsupportedVersion(version))
    } else if private_key.len() != 32 {
        Err(IdentityError::InvalidKeyLength(private_key.len() as usize))
    } else {
        Ok(private_key)
    }
}

impl DeviceIdentity {
    /// The identity that was stored with the given format version and secret
    /// key. The device id is derived anew from the key.
    pub fn from_stored(version: u32, private_key: &Vec<u8>) -> (r: Result<DeviceIdentity, IdentityError>)
        ensures
            match stored_key(version, private_key@) {
                Ok(key) => r matches Ok(id) && id.wf() && id.secret_key@ == key,
                Err(e) => r == Err::<DeviceIdentity, IdentityError>(e),
            },
    {
        if version != 1 {
            return Err(IdentityError::UnsupportedVersion(version));
        }
        if private_key.len() != 32 {
            return Err(IdentityError::InvalidKeyLength(private_key.len()));
        }
        let mut secret_key = [0u8; 32];
        let mut i: usize = 0;
        while i < 32
            invariant
                i <= 32,
                private_key@.len() == 32,
                forall|k: int| 0 <= k < i ==> secret_key@[k] == private_key@[k],
            decreases 32 - i,
        {
            secret_key.set(i, private_key[i]);
            i += 1;
        }
        assert(secret_key@ =~= private_key@);
        Ok(DeviceIdentity::generate(secret_key))
    }

    /// The public key belongs to the secret key, and the device id to the
    /// public key.
    pub open spec fn wf(&self) -> bool {
        &&& self.public_key@ == ed25519_public(self.secret_key@)
        &&& self.public_key@.len() == 32
        &&& self.device_id@ == hex_text(sha256_of(self.public_key@))
    }

    /// The identity of a secret key. A new identity is made from 32 random
    /// bytes.
    pub fn generate(secret_key: [u8; 32]) -> (id: DeviceIdentity)
        ensures
            id.wf(),
            id.secret_key == secret_key,
    {
        let public_key = public_key_of(&secret_key);
        let device_id = derive_device_id(public_key.as_slice());
        DeviceIdentity { device_id, secret_key, public_key }
    }

    /// The 32 bytes of the public key.
    pub fn public_key_raw(&self) -> (out: Vec<u8>)
        ensures
            out@ == self.public_key@,
    {
        crate::text::copy_bytes(&self.public_key)
    }

    /// The public key in unpadded URL-safe base64.
    pub fn public_key_base64url(&self) -> (out: String)
        ensures
            out@ == base64url_text(self.public_key@),
    {
        base64url(self.public_key.as_slice())
    }

    /// The signature of a text's bytes, in unpadded URL-safe base64.
    pub fn sign(&self, payload: &str) -> (out: String)
        ensures
            out@ == base64url_text(ed25519_signature(self.secret_key@, payload.spec_bytes())),
    {
        let signature = sign_bytes(&self.secret_key, payload.as_bytes());
        base64url(signature.as_slice())
    }
}

} // verus!
