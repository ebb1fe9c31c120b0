//! The client SDK's payloads and message encryption.
//!
//! A client subscribes to groups of its own key (`<api_key>_<group_id>`),
//! emits events to groups, and may encrypt message bodies with AES in ECB
//! mode under PKCS#7 padding, using its encryption key's UTF-8 bytes as the
//! AES key.

use vstd::prelude::*;
use vstd::utf8::encode_utf8;
use crate::text::join_with_underscore;
use crate::shared::structs::JoinLeaveRequestData;

verus! {

/// The result of `soft_aes::aes::aes_enc_ecb` on these arguments: the
/// ciphertext, or `None` when it fails.
pub uninterp spec fn aes_ecb_encryption(plaintext: Seq<u8>, key: Seq<u8>, padding: Seq<char>) -> Option<Seq<u8>>;

/// The result of `soft_aes::aes::aes_dec_ecb` on these arguments: the
/// plaintext, or `None` when it fails.
pub uninterp spec fn aes_ecb_decryption(ciphertext: Seq<u8>, key: Seq<u8>, padding: Seq<char>) -> Option<Seq<u8>>;

/// Whether `n` bytes make an AES key (AES-128, AES-192 or AES-256).
pub open spec fn valid_aes_key_len(n: nat) -> bool {
    n == 16 || n == 24 || n == 32
}

/// `soft_aes::aes::aes_enc_ecb` with PKCS#7 padding. Its result is named by
/// [`aes_ecb_encryption`]. As its source shows: it succeeds exactly when the
/// key has an AES key length (padding always yields at least one block, and
/// each block checks the key length); the ciphertext is the padded length, a
/// whole number of 16-byte blocks; and, as its documentation shows, the same
/// key decrypts it back to the plaintext.
#[verifier::external_body]
fn aes_encrypt_ecb(plaintext: &[u8], key: &[u8], padding: &str) -> (r: Result<Vec<u8>, ()>)
    requires
        padding@ == "PKCS7"@,
    ensures
        match r {
            Ok(c) => aes_ecb_encryption(plaintext@, key@, padding@) == Some(c@),
            Err(_) => aes_ecb_encryption(plaintext@, key@, padding@) is None,
        },
        r is Ok <==> valid_aes_key_len(key@.len()),
        r matches Ok(c) ==> c@.len() == (plaintext@.len() / 16 + 1) * 16,
        r matches Ok(c) ==> aes_ecb_decryption(c@, key@, padding@) == Some(plaintext@),
{
    match soft_aes::aes::aes_enc_ecb(plaintext, key, Some(padding)) {
        Ok(c) => Ok(c),
        Err(_) => Err(()),
    }
}

/// `soft_aes::aes::aes_dec_ecb` with PKCS#7 padding. Its result is named by
/// [`aes_ecb_decryption`]. As its source shows, it fails unless the
/// ciphertext is a non-empty whole number of 16-byte blocks and the key has
/// an AES key length; whether the padding it finds is consistent depends on
/// the decrypted bytes and is left to the name.
#[verifier::external_body]
fn aes_decrypt_ecb(ciphertext: &[u8], key: &[u8], padding: &str) -> (r: Result<Vec<u8>, ()>)
    requires
        padding@ == "PKCS7"@,
    ensures
        match r {
            Ok(p) => aes_ecb_decryption(ciphertext@, key@, padding@) == Some(p@),
            Err(_) => aes_ecb_decryption(ciphertext@, key@, padding@) is None,
        },
        r is Ok ==> ciphertext@.len() % 16 == 0 && ciphertext@.len() > 0 && valid_aes_key_len(key@.len()),
{
    match soft_aes::aes::aes_dec_ecb(ciphertext, key, Some(padding)) {
        Ok(p) => Ok(p),
        Err(_) => Err(()),
    }
}

/// An event as the SDK emits it: event name, target room and (encrypted) body.
#[derive(Debug)]
pub struct EmitPayload {
    pub event: String,
    pub room: String,
    pub message: Vec<u8>,
}

/// A client's connection settings.
pub struct Ignition {
    url: String,
    api_key: String,
    encryption_key: Option<String>,
    group_id: Option<String>,
    padding: String,
}

impl Ignition {
    /// The server URL.
    pub closed spec fn url(&self) -> Seq<char> {
        self.url@
    }

    /// The API key.
    pub closed spec fn api_key(&self) -> Seq<char> {
        self.api_key@
    }

    /// The encryption key, as given.
    pub closed spec fn encryption_key(&self) -> Option<String> {
        self.encryption_key
    }

    /// The group the client is in; none is chosen when it is made.
    pub closed spec fn group_id(&self) -> Option<String> {
        self.group_id
    }

    /// The encryption key's UTF-8 bytes, if the client has one.
    pub closed spec fn key_bytes(&self) -> Option<Seq<u8>> {
        match self.encryption_key {
            Some(k) => Some(encode_utf8(k@)),
            None => None,
        }
    }

    /// The padding scheme.
    pub closed spec fn padding(&self) -> Seq<char> {
        self.padding@
    }

    /// The client's invariant: it pads with PKCS#7.
    pub open spec fn wf(&self) -> bool {
        self.padding() == "PKCS7"@
    }

    /// Settings for `key` on the server at `connection_url`, with an optional
    /// encryption key; the padding is PKCS#7.
    pub fn new(connection_url: &str, key: &str, encryption_key: Option<String>) -> (r: Self)
        ensures
            r.wf(),
            r.url() == connection_url@,
            r.api_key() == key@,
            r.encryption_key() == encryption_key,
            r.group_id() is None,
            r.key_bytes() == (match encryption_key {
                Some(k) => Some(encode_utf8(k@)),
                None => None,
            }),
    {
        Ignition {
            url: connection_url.to_owned(),
            api_key: key.to_owned(),
            encryption_key: encryption_key,
            group_id: None,
            padding: "PKCS7".to_owned(),
        }
    }

    /// Whether the client has an encryption key.
    pub fn has_encryption_key(&self) -> (r: bool)
        ensures
            r == self.key_bytes() is Some,
    {
        self.encryption_key.is_some()
    }

    /// Whether the client can encrypt: it has an encryption key of an AES
    /// key length (16, 24 or 32 bytes of UTF-8).
    pub fn encryption_ready(&self) -> (r: bool)
        ensures
            r == (self.key_bytes() matches Some(k) && valid_aes_key_len(k.len())),
    {
        match &self.encryption_key {
            Some(k) => {
                let n = k.as_str().as_bytes().len();
                n == 16 || n == 24 || n == 32
            },
            None => false,
        }
    }

    /// The namespace URL the client connects to: `<url>/<api_key>`.
    pub fn endpoint(&self) -> (r: String)
        ensures
            r@ == self.url() + seq!['/'] + self.api_key(),
    {
        let mut out = self.url.clone();
        out.append("/");
        proof {
            reveal_strlit("/");
        }
        out.append(self.api_key.as_str());
        out
    }

    /// Encrypts `message` with the client's key. The client must have an
    /// encryption key of an AES key length.
    pub fn encrypt(&self, message: &[u8]) -> (r: Vec<u8>)
        requires
            self.wf(),
            self.key_bytes() matches Some(k) && valid_aes_key_len(k.len()),
        ensures
            Some(r@) == aes_ecb_encryption(message@, self.key_bytes()->0, self.padding()),
            aes_ecb_decryption(r@, self.key_bytes()->0, self.padding()) == Some(message@),
    {
        let key = self.encryption_key.as_ref().unwrap();
        match aes_encrypt_ecb(message, key.as_str().as_bytes(), self.padding.as_str()) {
            Ok(c) => c,
            Err(_) => {
                assert(false);
                Vec::new()
            },
        }
    }

    /// Decrypts `message` with the client's key. The client must have an
    /// encryption key, and decryption must succeed (see [`Self::try_decrypt`]).
    pub fn decrypt(&self, message: &[u8]) -> (r: Vec<u8>)
        requires
            self.wf(),
            self.key_bytes() is Some,
            aes_ecb_decryption(message@, self.key_bytes()->0, self.padding()) is Some,
        ensures
            Some(r@) == aes_ecb_decryption(message@, self.key_bytes()->0, self.padding()),
    {
        let key = self.encryption_key.as_ref().unwrap();
        match aes_decrypt_ecb(message, key.as_str().as_bytes(), self.padding.as_str()) {
            Ok(p) => p,
            Err(_) => {
                assert(false);
                Vec::new()
            },
        }
    }

    /// Decrypts `message` with the client's key; `None` when the client has no
    /// encryption key or decryption fails.
    pub fn try_decrypt(&self, message: &[u8]) -> (r: Option<Vec<u8>>)
        requires
            self.wf(),
        ensures
            self.key_bytes() is None ==> r is None,
            self.key_bytes() matches Some(k) ==> (match r {
                Some(v) => aes_ecb_decryption(message@, k, self.padding()) == Some(v@),
                None => aes_ecb_decryption(message@, k, self.padding()) is None,
            }),
    {
        match &self.encryption_key {
            Some(key) => {
                match aes_decrypt_ecb(message, key.as_str().as_bytes(), self.padding.as_str()) {
                    Ok(_) => Some(self.decrypt(message)),
                    Err(_) => None,
                }
            },
            None => None,
        }
    }

    /// The request to join `group_id`: the client's key, and the room
    /// `<api_key>_<group_id>`.
    pub fn subscribe(&self, group_id: &str) -> (r: JoinLeaveRequestData)
        ensures
            r.key@ == self.api_key(),
            r.group_id@ == self.api_key() + seq!['_'] + group_id@,
    {
        JoinLeaveRequestData {
            key: self.api_key.clone(),
            group_id: join_with_underscore(self.api_key.as_str(), group_id),
        }
    }

    /// The request to leave `group_id`: the same payload as joining it.
    pub fn unsubscribe(&self, group_id: &str) -> (r: JoinLeaveRequestData)
        ensures
            r.key@ == self.api_key(),
            r.group_id@ == self.api_key() + seq!['_'] + group_id@,
    {
        JoinLeaveRequestData {
            key: self.api_key.clone(),
            group_id: join_with_underscore(self.api_key.as_str(), group_id),
        }
    }

    /// The payload emitted for `message` to `group_id` as `event_name`: the
    /// body is the message's UTF-8 bytes, encrypted.
    pub fn emit(&self, event_name: &str, group_id: &str, message: &str) -> (r: EmitPayload)
        requires
            self.wf(),
            self.key_bytes() matches Some(k) && valid_aes_key_len(k.len()),
        ensures
            r.event@ == event_name@,
            r.room@ == group_id@,
            Some(r.message@) == aes_ecb_encryption(encode_utf8(message@), self.key_bytes()->0, self.padding()),
    {
        EmitPayload {
            event: event_name.to_owned(),
            room: group_id.to_owned(),
            message: self.encrypt(message.as_bytes()),
        }
    }
}

} // verus!
