//! Failure injection fixtures: the failures that happen in the field — power
//! loss mid-write, corrupt packages, storage filling up, interrupted sync.
//!
//! This module holds what the fixtures decide: the exact corrupt package of
//! each failure class, when a write-limited store starts failing, and what a
//! power-loss simulation leaves behind.

use vstd::prelude::*;

use crate::domain::{has_nmp_magic, nmp_magic};
use crate::security::hash::{sha256_hex, sha256_hex_spec};
use crate::text::{decimal, ends_with, has_suffix, push_decimal};

verus! {

// ── Write-limited store ──────────────────────────────────────────────────────

/// The write counter of a store that fails after `fail_after` successful
/// writes (simulating power loss or a full disk during an install).
#[derive(Debug, Clone, Copy)]
pub struct WriteLimiter {
    pub write_count: u32,
    pub fail_after: u32,
}

/// The limiter after one more write attempt, and whether that attempt is let
/// through: the counter counts every attempt (wrapping at `u32::MAX`, as an
/// atomic add does) and the attempt passes iff fewer than `fail_after`
/// attempts came before it.
pub open spec fn limiter_attempt(g: WriteLimiter) -> (WriteLimiter, bool) {
    (
        WriteLimiter { write_count: ((g.write_count + 1) % 0x1_0000_0000) as u32, fail_after: g.fail_after },
        g.write_count < g.fail_after,
    )
}

/// The limiter after `n` attempts.
pub open spec fn limiter_after(g: WriteLimiter, n: nat) -> WriteLimiter
    decreases n,
{
    if n == 0 { g } else { limiter_attempt(limiter_after(g, (n - 1) as nat)).0 }
}

impl WriteLimiter {
    /// A limiter that lets `fail_after` writes through, then fails every write.
    pub fn new(fail_after: u32) -> (g: Self)
        ensures
            g.write_count == 0,
            g.fail_after == fail_after,
    {
        WriteLimiter { write_count: 0, fail_after }
    }

    /// Count one write attempt; `true` iff the write may proceed.
    pub fn attempt(&mut self) -> (ok: bool)
        ensures
            (*final(self), ok) == limiter_attempt(*old(self)),
    {
        let before = self.write_count;
        self.write_count = if before == u32::MAX { 0 } else { before + 1 };
        before < self.fail_after
    }

    /// How many write attempts were counted (failed ones included).
    pub fn writes_completed(&self) -> (n: u32)
        ensures
            n == self.write_count,
    {
        self.write_count
    }

    /// The error text of a refused write.
    pub fn failure_message(&self) -> (m: String)
        ensures
            m@ == "simulated write failure after "@ + decimal(self.fail_after as nat) + " writes"@,
    {
        let mut m = "simulated write failure after ".to_owned();
        push_decimal(&mut m, self.fail_after as u64);
        m.push_str(" writes");
        m
    }
}

/// A fresh limiter lets exactly the first `fail_after` writes through: the
/// attempt made after `n` earlier ones (fewer than 2^32) passes iff
/// `n < fail_after`, and the counter then reads `n + 1` (modulo 2^32).
pub proof fn lemma_limiter_fails_after(fail_after: u32, n: nat)
    requires
        n < 0x1_0000_0000,
    ensures
        limiter_after(WriteLimiter { write_count: 0, fail_after }, n).write_count == n,
        limiter_after(WriteLimiter { write_count: 0, fail_after }, n).fail_after == fail_after,
        limiter_attempt(limiter_after(WriteLimiter { write_count: 0, fail_after }, n)).1 == (n < fail_after),
    decreases n,
{
    if n > 0 {
        lemma_limiter_fails_after(fail_after, (n - 1) as nat);
    }
}

// ── Corrupt package generator ─────────────────────────────────────────────────

/// Failure class enumeration for test parameterisation.
#[derive(Debug, Clone, Copy, PartialEq, Eq, Structural)]
pub enum FailureClass {
    /// Package magic bytes corrupted.
    CorruptMagic,
    /// Manifest bytes truncated.
    TruncatedManifest,
    /// Signature bytes zeroed.
    ZeroedSignature,
    /// Object data tampered after signing.
    TamperedObject,
    /// Empty file.
    EmptyFile,
    /// Random noise.
    RandomNoise,
}

/// `n` copies of `b`.
pub open spec fn repeat_byte(b: u8, n: nat) -> Seq<u8> {
    Seq::new(n, |i: int| b)
}

/// The big-endian encoding of a length below 256.
pub open spec fn be32_small(n: u8) -> Seq<u8> {
    seq![0u8, 0u8, 0u8, n]
}

/// The ASCII bytes of `tampered_data`.
pub open spec fn tampered_payload() -> Seq<u8> {
    seq![0x74u8, 0x61, 0x6D, 0x70, 0x65, 0x72, 0x65, 0x64, 0x5F, 0x64, 0x61, 0x74, 0x61]
}

/// The ASCII bytes of the manifest `{"module_id":"x"}`.
pub open spec fn tampered_manifest() -> Seq<u8> {
    seq![0x7Bu8, 0x22, 0x6D, 0x6F, 0x64, 0x75, 0x6C, 0x65, 0x5F, 0x69, 0x64, 0x22, 0x3A, 0x22, 0x78, 0x22, 0x7D]
}

/// A well-framed package whose last object bytes are then flipped.
pub open spec fn tampered_before_flip() -> Seq<u8> {
    nmp_magic() + seq![1u8] + be32_small(17) + tampered_manifest() + be32_small(64) + repeat_byte(0xAB, 64)
        + be32_small(1) + be32_small(13) + tampered_payload()
}

/// `s` with each of its last two bytes inverted.
pub open spec fn flip_last_two(s: Seq<u8>) -> Seq<u8> {
    s.update(s.len() - 1, (s[s.len() - 1] ^ 0xFF) as u8).update(s.len() - 2, (s[s.len() - 2] ^ 0xFF) as u8)
}

/// The corrupt bytes generated for each failure class.
pub open spec fn corrupt_package_bytes(class: FailureClass) -> Seq<u8> {
    match class {
        FailureClass::CorruptMagic => seq![0x4Au8, 0x50, 0x45, 0x47, 0xFF, 0xD8, 0xFF, 0xE0],
        FailureClass::TruncatedManifest => nmp_magic() + seq![1u8] + be32_small(5)
            + seq![0x54u8, 0x52, 0x55, 0x4E, 0x43],
        FailureClass::ZeroedSignature => nmp_magic() + seq![1u8] + be32_small(2) + seq![0x7Bu8, 0x7D]
            + be32_small(64) + repeat_byte(0, 64) + be32_small(0),
        FailureClass::TamperedObject => flip_last_two(tampered_before_flip()),
        FailureClass::EmptyFile => Seq::empty(),
        FailureClass::RandomNoise => Seq::new(256, |i: int| (i % 128) as u8),
    }
}

fn push_bytes(v: &mut Vec<u8>, bytes: &Vec<u8>)
    ensures
        final(v)@ == old(v)@ + bytes@,
{
    let n = bytes.len();
    let ghost start = v@;
    for i in 0..n
        invariant
            n == bytes@.len(),
            v@ == start + bytes@.subrange(0, i as int),
    {
        v.push(bytes[i]);
        assert(v@ =~= start + bytes@.subrange(0, i + 1));
    }
    assert(bytes@.subrange(0, n as int) =~= bytes@);
}

fn push_repeat(v: &mut Vec<u8>, b: u8, n: usize)
    ensures
        final(v)@ == old(v)@ + repeat_byte(b, n as nat),
{
    let ghost start = v@;
    for i in 0..n
        invariant
            v@ == start + repeat_byte(b, i as nat),
    {
        v.push(b);
        assert(v@ =~= start + repeat_byte(b, (i + 1) as nat));
    }
}

fn push_header(v: &mut Vec<u8>, manifest_len: u8)
    ensures
        final(v)@ == old(v)@ + nmp_magic() + seq![1u8] + be32_small(manifest_len),
{
    let ghost start = v@;
    push_bytes(v, &vec![0x54u8, 0x41, 0x4B, 0x54, 1, 0, 0, 0, manifest_len]);
    assert(v@ =~= start + nmp_magic() + seq![1u8] + be32_small(manifest_len));
}

/// Generate a corrupt `.nmp`-like byte sequence for testing failure handling.
pub fn generate_corrupt_package(class: &FailureClass) -> (bytes: Vec<u8>)
    ensures
        bytes@ == corrupt_package_bytes(*class),
{
    match class {
        FailureClass::CorruptMagic => vec![0x4Au8, 0x50, 0x45, 0x47, 0xFF, 0xD8, 0xFF, 0xE0],
        FailureClass::TruncatedManifest => {
            let mut v: Vec<u8> = Vec::new();
            push_header(&mut v, 5);
            push_bytes(&mut v, &vec![0x54u8, 0x52, 0x55, 0x4E, 0x43]);
            v
        },
        FailureClass::ZeroedSignature => {
            let mut v: Vec<u8> = Vec::new();
            push_header(&mut v, 2);
            push_bytes(&mut v, &vec![0x7Bu8, 0x7D, 0, 0, 0, 64]);
            push_repeat(&mut v, 0, 64);
            push_bytes(&mut v, &vec![0u8, 0, 0, 0]);
            let ghost expected = corrupt_package_bytes(*class);
            assert(v@ =~= expected);
            v
        },
        FailureClass::TamperedObject => {
            let mut v: Vec<u8> = Vec::new();
            push_header(&mut v, 17);
            push_bytes(&mut v, &vec![
                0x7Bu8, 0x22, 0x6D, 0x6F, 0x64, 0x75, 0x6C, 0x65, 0x5F, 0x69, 0x64, 0x22, 0x3A, 0x22,
                0x78, 0x22, 0x7D, 0, 0, 0, 64,
            ]);
            push_repeat(&mut v, 0xAB, 64);
            push_bytes(&mut v, &vec![
                0u8, 0, 0, 1, 0, 0, 0, 13, 0x74, 0x61, 0x6D, 0x70, 0x65, 0x72, 0x65, 0x64, 0x5F, 0x64,
                0x61, 0x74, 0x61,
            ]);
            let ghost framed = v@;
            assert(framed =~= tampered_before_flip());
            let len = v.len();
            let last = v[len - 1] ^ 0xFF;
            v.set(len - 1, last);
            let second = v[len - 2] ^ 0xFF;
            v.set(len - 2, second);
            assert(v@ =~= flip_last_two(framed));
            v
        },
        FailureClass::EmptyFile => Vec::new(),
        FailureClass::RandomNoise => {
            let mut v: Vec<u8> = Vec::new();
            for i in 0..256u32
                invariant
                    v@.len() == i,
                    forall|j: int| 0 <= j < i ==> v@[j] == (j % 128) as u8,
            {
                v.push((i % 128) as u8);
            }
            assert(v@ =~= corrupt_package_bytes(*class));
            v
        },
    }
}

/// Which failure classes still open with the `.nmp` magic: the structural
/// failures do, the corrupt-magic, empty and noise classes do not.
pub proof fn lemma_corrupt_magic_classes(class: FailureClass)
    ensures
        has_nmp_magic(corrupt_package_bytes(class)) <==> (class == FailureClass::TruncatedManifest
            || class == FailureClass::ZeroedSignature || class == FailureClass::TamperedObject),
{
    let b = corrupt_package_bytes(class);
    match class {
        FailureClass::CorruptMagic => {
            assert(b.subrange(0, 4)[0] != nmp_magic()[0]);
        },
        FailureClass::RandomNoise => {
            assert(b.subrange(0, 4)[0] != nmp_magic()[0]);
        },
        FailureClass::EmptyFile => {},
        FailureClass::TamperedObject => {
            assert(b.subrange(0, 4) =~= nmp_magic());
        },
        _ => {
            assert(b.subrange(0, 4) =~= nmp_magic());
        },
    }
}

/// The shape of each corrupt package. An empty file has no bytes. Noise is
/// 256 bytes counting 0 to 127 twice. The corrupt-magic file is 8 bytes
/// opening with `JPEG`. Every structural failure opens with the magic and
/// format version 1: the truncated one declares a 5-byte manifest and ends
/// right after those 5 bytes, with no signature; the zeroed-signature one
/// carries a 2-byte manifest, a declared 64-byte signature that is all zero
/// and an object count of zero, and nothing else; the tampered one is 115
/// bytes whose last two bytes, the end of the object data `...ta`, are
/// inverted.
pub proof fn lemma_corrupt_package_shapes(class: FailureClass)
    ensures
        ({
            let b = corrupt_package_bytes(class);
            &&& class == FailureClass::EmptyFile ==> b.len() == 0
            &&& class == FailureClass::RandomNoise ==> b.len() == 256
                && forall|i: int| 0 <= i < 256 ==> #[trigger] b[i] == i % 128
            &&& class == FailureClass::CorruptMagic ==> b.len() == 8
                && b[0] == 0x4A && b[1] == 0x50 && b[2] == 0x45 && b[3] == 0x47
            &&& (class == FailureClass::TruncatedManifest || class == FailureClass::ZeroedSignature
                || class == FailureClass::TamperedObject) ==> b.len() > 5
                && b.subrange(0, 4) == nmp_magic() && b[4] == 1
            &&& class == FailureClass::TruncatedManifest ==> b.len() == 14
                && b[5] == 0 && b[6] == 0 && b[7] == 0 && b[8] == 5
            &&& class == FailureClass::ZeroedSignature ==> b.len() == 83
                && b[5] == 0 && b[6] == 0 && b[7] == 0 && b[8] == 2
                && b[11] == 0 && b[12] == 0 && b[13] == 0 && b[14] == 64
                && forall|i: int| 15 <= i < 83 ==> #[trigger] b[i] == 0
            &&& class == FailureClass::TamperedObject ==> b.len() == 115
                && b[113] == (0x74u8 ^ 0xFFu8) && b[114] == (0x61u8 ^ 0xFFu8)
                && b[112] == 0x61 && b[111] == 0x64
        }),
{
    let b = corrupt_package_bytes(class);
    match class {
        FailureClass::ZeroedSignature => {
            assert forall|i: int| 15 <= i < 83 implies #[trigger] b[i] == 0 by {
                if i < 79 {
                    assert(b[i] == repeat_byte(0, 64)[i - 15]);
                } else {
                    assert(b[i] == be32_small(0)[i - 79]);
                }
            }
            assert(b.subrange(0, 4) =~= nmp_magic());
        },
        FailureClass::TamperedObject => {
            let f = tampered_before_flip();
            assert(f.len() == 115);
            assert(f[114] == 0x61) by {
                assert(f[114] == tampered_payload()[12]);
            }
            assert(f[113] == 0x74) by {
                assert(f[113] == tampered_payload()[11]);
            }
            assert(f[112] == tampered_payload()[10]);
            assert(f[111] == tampered_payload()[9]);
            assert(b.subrange(0, 4) =~= f.subrange(0, 4));
            assert(f.subrange(0, 4) =~= nmp_magic());
        },
        _ => {
            assert(class == FailureClass::TruncatedManifest ==> b.subrange(0, 4) =~= nmp_magic());
        },
    }
}

// ── Power-loss simulation ─────────────────────────────────────────────────────

/// The file a power-loss simulation leaves: `<sha256 of the full data>.partial`.
pub fn partial_file_name(data: &[u8]) -> (name: String)
    ensures
        name@ == sha256_hex_spec(data@) + ".partial"@,
{
    let mut name = sha256_hex(data);
    name.push_str(".partial");
    name
}

/// The bytes a power-loss simulation writes: the first `partial_bytes` bytes
/// of `data` (all of it if it is shorter).
pub fn partial_contents(data: &[u8], partial_bytes: usize) -> (part: &[u8])
    ensures
        part@ == data@.subrange(0, if partial_bytes < data@.len() { partial_bytes as int } else { data@.len() as int }),
{
    let end = if partial_bytes < data.len() { partial_bytes } else { data.len() };
    vstd::slice::slice_subrange(data, 0, end)
}

/// Whether a file is a leftover of an interrupted write: its extension is
/// `partial` (it ends with `.partial` and has a name before the dot).
pub fn is_partial_file(name: &str) -> (r: bool)
    ensures
        r == (name@.len() > 8 && has_suffix(name@, ".partial"@)),
{
    let suffix = ".partial";
    proof {
        reveal_strlit(".partial");
    }
    name.unicode_len() > 8 && ends_with(name, suffix)
}

} // verus!
