//! Key files: a key's bytes in PEM armour.
//!
//! A signing key is stored as its 32-byte seed, a verifying key as its 32
//! bytes. Reading goes by the contents alone; the tag is written for the
//! reader's benefit and not examined.

use crate::signature::{ed25519_is_key, SigningKey, VerifyingKey};
use vstd::prelude::*;
use vstd::string::*;
use vstd::utf8::*;

verus! {

/// The tag of a verifying key's file.
pub const PUBLIC_KEY_TAG: &'static str = "ED25519 DALEK PUBLIC KEY";

/// The tag of a signing key's file.
pub const PRIVATE_KEY_TAG: &'static str = "ED25519 DALEK KEY";

/// The name of the file that holds the verifying key.
pub const PUBLIC_KEY_FILE: &'static str = "public-key.pem";

/// The name of the file that holds the signing key.
pub const PRIVATE_KEY_FILE: &'static str = "key.pem";

/// The text that `pem::encode` writes for these contents under this tag.
pub uninterp spec fn pem_text(tag: Seq<char>, contents: Seq<u8>) -> Seq<char>;

/// The contents of the first PEM block that `pem::parse` finds in `input`,
/// or nothing where it reports an error.
pub uninterp spec fn pem_contents(input: Seq<u8>) -> Option<Seq<u8>>;

/// Whether `tag` is made of capital letters, digits and spaces only, and of
/// at least one of them.
pub open spec fn is_plain_tag(tag: Seq<char>) -> bool {
    &&& tag.len() > 0
    &&& forall|i: int|
        0 <= i < tag.len() ==> ('A' <= #[trigger] tag[i] <= 'Z') || ('0' <= tag[i] <= '9')
            || tag[i] == ' '
}

/// Calls `pem::encode` on a block with this tag and these contents. Under a
/// tag without dashes, what it writes is one block that `pem::parse` reads
/// back to the same contents.
#[verifier::external_body]
fn pem_encode(tag: &str, contents: &[u8]) -> (text: String)
    requires
        is_plain_tag(tag@),
    ensures
        text@ == pem_text(tag@, contents@),
        pem_contents(encode_utf8(text@)) == Some(contents@),
{
    pem::encode(&pem::Pem { tag: tag.to_owned(), contents: contents.to_vec() })
}

/// The tags of the two key files are plain.
proof fn lemma_tags_are_plain()
    ensures
        is_plain_tag(PUBLIC_KEY_TAG@),
        is_plain_tag(PRIVATE_KEY_TAG@),
{
    reveal_strlit("ED25519 DALEK PUBLIC KEY");
    reveal_strlit("ED25519 DALEK KEY");
}

/// Calls `pem::parse` and hands out the contents of the block it found.
#[verifier::external_body]
fn pem_parse(input: &[u8]) -> (contents: Option<Vec<u8>>)
    ensures
        contents is Some <==> pem_contents(input@) is Some,
        contents is Some ==> contents->0@ == pem_contents(input@)->0,
{
    match pem::parse(input) {
        Ok(block) => Some(block.contents),
        Err(_) => None,
    }
}

/// Why a key file holds no key.
#[derive(Clone, Copy, Debug, PartialEq, Eq, Structural)]
pub enum KeyFileError {
    /// The file holds no PEM block.
    Malformed,
    /// The block does not hold 32 bytes.
    WrongLength,
    /// The 32 bytes are no verifying key.
    NotAKey,
}

/// The 32 bytes of a key, where `contents` are that many.
pub open spec fn key_of(contents: Seq<u8>) -> Option<Seq<u8>> {
    if contents.len() == 32 {
        Some(contents)
    } else {
        None
    }
}

/// The 32 bytes of the key that a key file holds, or why it holds none.
pub open spec fn key_in(input: Seq<u8>) -> Result<Seq<u8>, KeyFileError> {
    match pem_contents(input) {
        None => Err(KeyFileError::Malformed),
        Some(contents) => match key_of(contents) {
            None => Err(KeyFileError::WrongLength),
            Some(key) => Ok(key),
        },
    }
}

/// The verifying key that a key file holds, or why it holds none.
pub open spec fn verifying_key_in(input: Seq<u8>) -> Result<Seq<u8>, KeyFileError> {
    match key_in(input) {
        Err(e) => Err(e),
        Ok(key) => if ed25519_is_key(key) {
            Ok(key)
        } else {
            Err(KeyFileError::NotAKey)
        },
    }
}

/// Takes the contents of a key file as the bytes of a key. Contents of any
/// other length than 32 are none.
pub fn key_bytes(contents: &[u8]) -> (key: Option<[u8; 32]>)
    ensures
        match key_of(contents@) {
            Some(bytes) => key is Some && key->0@ == bytes,
            None => key is None,
        },
{
    if contents.len() != 32 {
        return None;
    }
    let mut key: [u8; 32] = [0u8; 32];
    let mut i: usize = 0;
    while i < 32
        invariant
            i <= 32,
            contents@.len() == 32,
            forall|k: int| 0 <= k < i ==> key@[k] == contents@[k],
        decreases 32 - i,
    {
        key[i] = contents[i];
        i += 1;
    }
    assert(key@ =~= contents@);
    Some(key)
}

/// Reads the 32 bytes of a key from its file.
fn read_key_file(input: &[u8]) -> (r: Result<[u8; 32], KeyFileError>)
    ensures
        match key_in(input@) {
            Ok(key) => r is Ok && r->Ok_0@ == key,
            Err(e) => r == Err::<[u8; 32], KeyFileError>(e),
        },
{
    match pem_parse(input) {
        None => Err(KeyFileError::Malformed),
        Some(contents) => match key_bytes(contents.as_slice()) {
            None => Err(KeyFileError::WrongLength),
            Some(key) => Ok(key),
        },
    }
}

impl SigningKey {
    /// Reads a signing key from its file.
    pub fn from_pem(input: &[u8]) -> (r: Result<SigningKey, KeyFileError>)
        ensures
            match key_in(input@) {
                Ok(seed) => r is Ok && r->Ok_0.seed@ == seed,
                Err(e) => r is Err && r->Err_0 == e,
            },
    {
        match read_key_file(input) {
            Ok(seed) => Ok(SigningKey::from_bytes(seed)),
            Err(e) => Err(e),
        }
    }

    /// Writes the signing key's file. Reading the file gives the key back.
    pub fn to_pem(&self) -> (text: String)
        ensures
            text@ == pem_text(PRIVATE_KEY_TAG@, self.seed@),
            key_in(encode_utf8(text@)) == Ok::<Seq<u8>, KeyFileError>(self.seed@),
    {
        proof {
            lemma_tags_are_plain();
        }
        pem_encode(PRIVATE_KEY_TAG, self.seed.as_slice())
    }
}

impl VerifyingKey {
    /// Reads a verifying key from its file. Bytes that are no key are refused
    /// here, not at the first signature.
    pub fn from_pem(input: &[u8]) -> (r: Result<VerifyingKey, KeyFileError>)
        ensures
            match verifying_key_in(input@) {
                Ok(bytes) => r is Ok && r->Ok_0@ == bytes,
                Err(e) => r is Err && r->Err_0 == e,
            },
    {
        match read_key_file(input) {
            Err(e) => Err(e),
            Ok(bytes) => {
                let key = VerifyingKey::from_bytes(bytes);
                if key.is_valid() {
                    Ok(key)
                } else {
                    Err(KeyFileError::NotAKey)
                }
            },
        }
    }

    /// Writes the verifying key's file. Reading the file gives the bytes
    /// back.
    pub fn to_pem(&self) -> (text: String)
        ensures
            text@ == pem_text(PUBLIC_KEY_TAG@, self@),
            key_in(encode_utf8(text@)) == Ok::<Seq<u8>, KeyFileError>(self@),
    {
        proof {
            lemma_tags_are_plain();
        }
        pem_encode(PUBLIC_KEY_TAG, self.bytes.as_slice())
    }
}

} // verus!
