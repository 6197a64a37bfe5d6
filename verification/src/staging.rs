//! Staging a verified library on disk, and checking what was staged.
//!
//! The library is written under a fresh random name, so that no other
//! process can guess where it will appear. Before it is linked, the staged
//! file is read back through a handle that keeps writers out, and its digest
//! is compared with that of the library that was verified.

use crate::digest::{blake512, digest, hashable, MAX_DIGEST_INPUT};
use crate::package::Package;
use crate::registry::Error;
use rand::distributions::DistString;
use vstd::prelude::*;
use vstd::slice::*;
use vstd::string::*;

verus! {

/// Number of characters in the random part of a staged file's name.
pub const TOKEN_LEN: usize = 32;

/// The platforms that differ in how a dynamic library's file is named.
#[derive(Clone, Copy, Debug, PartialEq, Eq, Structural)]
pub enum Platform {
    Windows,
    MacOs,
    Unix,
}

/// What is to be written to the staging directory.
#[derive(Clone, Debug, PartialEq, Eq)]
pub struct StagedLibrary {
    pub file_name: String,
    pub content: Vec<u8>,
}

/// Whether `c` is an ASCII letter or digit.
pub open spec fn is_alphanumeric(c: char) -> bool {
    ('0' <= c && c <= '9') || ('a' <= c && c <= 'z') || ('A' <= c && c <= 'Z')
}

/// Whether `token` can be the random part of a staged file's name.
pub open spec fn is_token(token: Seq<char>) -> bool {
    &&& token.len() == TOKEN_LEN
    &&& forall|i: int| 0 <= i < token.len() ==> is_alphanumeric(#[trigger] token[i])
}

/// The file extension of a dynamic library on `platform`.
pub open spec fn plugin_extension(platform: Platform) -> Seq<char> {
    match platform {
        Platform::Windows => "dll"@,
        Platform::MacOs => "dylib"@,
        Platform::Unix => "so"@,
    }
}

/// The name of the staged file: the token, a dot, and the extension.
pub open spec fn staged_name(token: Seq<char>, platform: Platform) -> Seq<char> {
    token + "."@ + plugin_extension(platform)
}

/// Calls `sample_string`, which `rand::distributions::Alphanumeric` has from
/// `DistString`, on the thread's generator. It gives `len` characters, each
/// drawn from the ASCII letters and digits; which ones come is left to
/// chance.
#[verifier::external_body]
fn random_alphanumeric(len: usize) -> (token: String)
    ensures
        token@.len() == len,
        forall|i: int| 0 <= i < token@.len() ==> is_alphanumeric(#[trigger] token@[i]),
{
    rand::distributions::Alphanumeric.sample_string(&mut rand::thread_rng(), len)
}

impl Platform {
    /// The file extension of a dynamic library on this platform.
    pub fn extension(&self) -> (extension: &'static str)
        ensures
            extension@ == plugin_extension(*self),
    {
        match self {
            Platform::Windows => "dll",
            Platform::MacOs => "dylib",
            Platform::Unix => "so",
        }
    }
}

/// The name under which a library is staged, given the random token.
pub fn staged_file_name(token: &str, platform: Platform) -> (name: String)
    ensures
        name@ == staged_name(token@, platform),
{
    let mut name = String::from_str(token);
    name.append(".");
    name.append(platform.extension());
    name
}

impl Package {
    /// Prepares the library for staging: its bytes, and a file name made of a
    /// fresh random token and the platform's extension.
    pub fn release_lib_to_temp(&self, platform: Platform) -> (staged: StagedLibrary)
        ensures
            staged.content@ == self.library@,
            exists|token: Seq<char>|
                is_token(token) && staged.file_name@ == #[trigger] staged_name(token, platform),
    {
        let token = random_alphanumeric(TOKEN_LEN);
        let file_name = staged_file_name(token.as_str(), platform);
        StagedLibrary { file_name, content: slice_to_vec(self.library.as_slice()) }
    }
}

/// Checks the bytes read back from the staged file against the digest of the
/// library that was verified. Any difference means that the file was altered
/// after it was written.
pub fn validate_file(content: &[u8], expect_digest: &[u8; 64]) -> (r: Result<(), Error>)
    ensures
        r is Ok <==> hashable(content@) && blake512(content@) == expect_digest@,
        r is Err ==> r == Err::<(), Error>(Error::Tampered),
{
    if content.len() as u64 > MAX_DIGEST_INPUT {
        return Err(Error::Tampered);
    }
    let computed = digest(content);
    let mut i: usize = 0;
    while i < 64
        invariant
            i <= 64,
            hashable(content@),
            computed@ == blake512(content@),
            forall|k: int| 0 <= k < i ==> computed@[k] == expect_digest@[k],
        decreases 64 - i,
    {
        if computed[i] != expect_digest[i] {
            return Err(Error::Tampered);
        }
        i += 1;
    }
    assert(computed@ =~= expect_digest@);
    Ok(())
}

} // verus!
