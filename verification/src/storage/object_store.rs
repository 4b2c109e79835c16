//! Content-addressed object store layout and checks.
//!
//! Objects are stored under their SHA-256 hash at `<base>/<first2>/<rest>`
//! (the layout of Git's loose objects). A `quarantine/` directory holds
//! objects that failed integrity checks and `staging/<install id>/` holds
//! objects of an install that is not committed yet. Every read re-checks the
//! hash, so an object that changed on disk is never handed out.

use vstd::prelude::*;

use crate::domain::CoreError;
use crate::security::hash::{sha256_hex, sha256_hex_spec};
use crate::text::{ends_with, has_suffix, join_path, path_join, str_eq};
use vstd::string::StringSliceAdditionalSpecFns;
use vstd::utf8::{decode_utf8, encode_utf8_decode_utf8};

verus! {

/// Filesystem-backed content-addressed object store rooted at a base directory.
#[derive(Debug, Clone)]
pub struct FsObjectStore {
    base: String,
}

impl FsObjectStore {
    /// The base directory.
    pub closed spec fn base_view(&self) -> Seq<char> {
        self.base@
    }

    /// A store rooted at `base`.
    pub fn new(base: String) -> (s: Self)
        ensures
            s.base_view() == base@,
    {
        FsObjectStore { base }
    }

    /// The base directory.
    pub fn base(&self) -> (r: &str)
        ensures
            r@ == self.base_view(),
    {
        self.base.as_str()
    }

    /// Where the object with hash `sha256_hex` lives: `<base>/<first2>/<rest>`.
    pub fn object_path(&self, sha256_hex: &str) -> (p: String)
        requires
            vstd::utf8::is_char_boundary(sha256_hex.spec_bytes(), 2),
        ensures
            p@ == path_join(
                path_join(self.base_view(), decode_utf8(sha256_hex.spec_bytes().subrange(0, 2))),
                decode_utf8(sha256_hex.spec_bytes().subrange(2, sha256_hex.spec_bytes().len() as int)),
            ),
    {
        let (prefix, rest) = object_path_parts(sha256_hex);
        proof {
            encode_utf8_decode_utf8(prefix@);
            encode_utf8_decode_utf8(rest@);
        }
        let dir = join_path(self.base.as_str(), prefix);
        join_path(dir.as_str(), rest)
    }

    /// Where a quarantined object lives: `<base>/quarantine/<hash>`.
    pub fn quarantine_path(&self, sha256_hex: &str) -> (p: String)
        ensures
            p@ == path_join(path_join(self.base_view(), "quarantine"@), sha256_hex@),
    {
        let dir = join_path(self.base.as_str(), quarantine_dir_name());
        join_path(dir.as_str(), sha256_hex)
    }
}

/// The hash an object is stored under: the lowercase hex SHA-256 of its data.
pub fn object_hash(data: &[u8]) -> (h: String)
    ensures
        h@ == sha256_hex_spec(data@),
        h@.len() == 64,
{
    sha256_hex(data)
}

/// The two path components of an object: the first two bytes of its hash
/// (the fan-out directory) and the rest (the file name).
pub fn object_path_parts(hash: &str) -> (r: (&str, &str))
    requires
        vstd::utf8::is_char_boundary(hash.spec_bytes(), 2),
    ensures
        r.0.spec_bytes() == hash.spec_bytes().subrange(0, 2),
        r.1.spec_bytes() == hash.spec_bytes().subrange(2, hash.spec_bytes().len() as int),
{
    hash.split_at(2)
}

/// The directory (under the base) that holds quarantined objects.
pub fn quarantine_dir_name() -> (r: &'static str)
    ensures
        r@ == "quarantine"@,
{
    "quarantine"
}

/// The directory (under the base) that holds staged installs.
pub fn staging_dir_name() -> (r: &'static str)
    ensures
        r@ == "staging"@,
{
    "staging"
}

/// Whether a staged file is an unfinished temporary write (`.tmp`), which a
/// commit skips.
pub fn is_temp_file(name: &str) -> (r: bool)
    ensures
        r == has_suffix(name@, ".tmp"@),
{
    ends_with(name, ".tmp")
}

/// `data` is intact for `hash`: it hashes to exactly that hash.
pub open spec fn object_intact(hash: Seq<char>, data: Seq<u8>) -> bool {
    sha256_hex_spec(data) == hash
}

/// The check made on every read: the data must hash to the hash it was
/// asked for, else the read fails with a hash mismatch for that hash.
pub fn check_object(hash: &str, data: &[u8]) -> (r: Result<(), CoreError>)
    ensures
        r is Ok <==> object_intact(hash@, data@),
        r is Ok <==> sha256_hex_spec(data@) == hash@,
        r matches Err(e) ==> e matches CoreError::HashMismatch { hash: h } && h@ == hash@,
{
    let actual = sha256_hex(data);
    if str_eq(actual.as_str(), hash) {
        Ok(())
    } else {
        Err(CoreError::HashMismatch { hash: hash.to_owned() })
    }
}

/// What a read gives back of a write: data stored under the hash that
/// `object_hash` gives it passes the read check.
pub proof fn lemma_stored_object_reads_back(data: Seq<u8>)
    ensures
        object_intact(sha256_hex_spec(data), data),
{
}

} // verus!
