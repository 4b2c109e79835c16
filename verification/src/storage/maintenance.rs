//! Storage maintenance decisions: which objects are orphans, when quarantined
//! objects expire, which objects a spot check samples and whether an object
//! still matches its hash. Maintenance never deletes an object that an
//! installed package still references.

use vstd::prelude::*;

use crate::security::hash::{sha256_hex, sha256_hex_spec};
use crate::sync::manifest::listed;
use crate::text::str_eq;

verus! {

/// Maximum age for quarantined objects before they are eligible for deletion
/// (30 days in seconds).
pub const QUARANTINE_EXPIRY_SECONDS: i64 = 2_592_000;

// ── Object store GC ───────────────────────────────────────────────────────────

/// Whether a top-level directory of the object store holds objects; the
/// quarantine directory does not.
pub fn is_object_prefix_dir(dir_name: &str) -> (r: bool)
    ensures
        r == (dir_name@ != "quarantine"@),
{
    !str_eq(dir_name, "quarantine")
}

/// Whether the object stored as `<prefix>/<rest>` is an orphan: its full hash
/// `prefix + rest` is not among the hashes that installed packages reference.
pub fn is_orphan(prefix: &str, rest: &str, referenced: &Vec<String>) -> (r: bool)
    ensures
        r == !listed(referenced@, prefix@ + rest@),
        r <==> forall|j: int| 0 <= j < referenced@.len() ==> #[trigger] referenced@[j]@ != prefix@ + rest@,
{
    let mut full = prefix.to_owned();
    full.push_str(rest);
    let n = referenced.len();
    for i in 0..n
        invariant
            n == referenced@.len(),
            full@ == prefix@ + rest@,
            forall|j: int| 0 <= j < i ==> referenced@[j]@ != full@,
    {
        if referenced[i] == full {
            return false;
        }
    }
    true
}

// ── Quarantine expiry ─────────────────────────────────────────────────────────

/// Quarantined objects last modified before this many seconds after the epoch
/// have expired: `now - max_age_seconds`, or the epoch if that is negative.
pub fn quarantine_cutoff_secs(now: i64, max_age_seconds: i64) -> (cutoff: u64)
    requires
        i64::MIN <= now - max_age_seconds <= i64::MAX,
    ensures
        cutoff == (if now - max_age_seconds > 0 { now - max_age_seconds } else { 0 }),
{
    let d = now - max_age_seconds;
    if d > 0 { d as u64 } else { 0 }
}

// ── Integrity scan ────────────────────────────────────────────────────────────

/// The gap between sampled indices when `len` objects exceed `sample_size`.
pub open spec fn sample_step(len: nat, sample_size: nat) -> nat {
    len / sample_size + 1
}

/// The indices a spot check of `len` objects with budget `sample_size` looks
/// at: all of them if they fit the budget, else every `sample_step`-th one
/// starting at index 0.
pub open spec fn sample_indices(len: nat, sample_size: nat) -> Seq<int> {
    if len <= sample_size {
        Seq::new(len, |i: int| i)
    } else {
        let step = sample_step(len, sample_size);
        Seq::new(((len - 1) as nat / step + 1) as nat, |i: int| i * step)
    }
}

proof fn lemma_sample_count(len: nat, size: nat)
    requires
        size > 0,
        len > size,
    ensures
        ((len - 1) as nat / sample_step(len, size) + 1) <= size,
{
    let step = sample_step(len, size);
    let q = len / size;
    assert(len < size * (q + 1)) by (nonlinear_arith)
        requires
            size > 0,
            q == len / size,
    ;
    assert((len - 1) as nat / step <= size - 1) by (nonlinear_arith)
        requires
            len < size * (q + 1),
            step == q + 1,
            step > 0,
            len >= 1,
            size >= 1,
    ;
}

/// The indices of the objects a spot check re-verifies.
pub fn spot_check_sample(len: usize, sample_size: usize) -> (r: Vec<usize>)
    requires
        len <= sample_size || sample_size > 0,
        len < usize::MAX,
    ensures
        r@.len() == sample_indices(len as nat, sample_size as nat).len(),
        forall|i: int| 0 <= i < r@.len() ==> r@[i] as int == #[trigger] sample_indices(len as nat, sample_size as nat)[i],
{
    let mut r: Vec<usize> = Vec::new();
    if len <= sample_size {
        for i in 0..len
            invariant
                r@.len() == i,
                forall|j: int| 0 <= j < i ==> r@[j] as int == j,
        {
            r.push(i);
        }
        return r;
    }
    let step = len / sample_size + 1;
    let count = (len - 1) / step + 1;
    for k in 0..count
        invariant
            step == sample_step(len as nat, sample_size as nat),
            step >= 1,
            len >= 1,
            count == ((len - 1) as nat / step as nat + 1) as nat,
            r@.len() == k,
            forall|j: int| 0 <= j < k ==> r@[j] as int == j * step,
    {
        assert(k * step < len) by (nonlinear_arith)
            requires
                0 <= k < count,
                count == (len - 1) as nat / step as nat + 1,
                step >= 1,
                len >= 1,
        ;
        r.push(k * step);
    }
    r
}

/// A spot check never looks at more objects than its budget, looks only at
/// existing objects, and never looks at one twice. When every object fits the
/// budget it looks at all of them, and it always starts with the first one.
pub proof fn lemma_sample_within_budget(len: nat, sample_size: nat)
    requires
        len <= sample_size || sample_size > 0,
    ensures
        len <= sample_size ==> sample_indices(len, sample_size).len() == len,
        len > 0 ==> sample_indices(len, sample_size).len() > 0 && sample_indices(len, sample_size)[0] == 0,
        sample_indices(len, sample_size).len() <= sample_size,
        sample_indices(len, sample_size).len() <= len,
        forall|i: int| 0 <= i < sample_indices(len, sample_size).len() ==> 0 <= #[trigger] sample_indices(len, sample_size)[i] < len,
        forall|i: int, j: int| 0 <= i < j < sample_indices(len, sample_size).len()
            ==> #[trigger] sample_indices(len, sample_size)[i] < #[trigger] sample_indices(len, sample_size)[j],
{
    if len > sample_size {
        lemma_sample_count(len, sample_size);
        let step = sample_step(len, sample_size);
        let count = (len - 1) as nat / step + 1;
        assert(count <= len) by (nonlinear_arith)
            requires
                count == (len - 1) as nat / step + 1,
                step >= 1,
                len >= 1,
        ;
        assert forall|i: int| 0 <= i < count implies 0 <= #[trigger] (i * step) < len by {
            assert(0 <= i * step < len) by (nonlinear_arith)
                requires
                    0 <= i < count,
                    count == (len - 1) as nat / step + 1,
                    step >= 1,
                    len >= 1,
            ;
        }
        assert forall|i: int, j: int| 0 <= i < j < count implies #[trigger] (i * step) < #[trigger] (j * step) by {
            assert(i * step < j * step) by (nonlinear_arith)
                requires
                    0 <= i < j,
                    step >= 1,
            ;
        }
    }
}

/// Whether an object's data still hashes to the hash it is stored under.
pub fn object_matches(hash: &str, data: &[u8]) -> (r: bool)
    ensures
        r == (sha256_hex_spec(data@) == hash@),
{
    let actual = sha256_hex(data);
    str_eq(actual.as_str(), hash)
}

/// Running counts of a spot check.
#[derive(Debug, Clone, Copy)]
pub struct SpotCheckTally {
    pub verified: usize,
    pub corrupt: usize,
}

impl SpotCheckTally {
    /// Nothing checked yet.
    pub fn new() -> (t: Self)
        ensures
            t.verified == 0,
            t.corrupt == 0,
    {
        SpotCheckTally { verified: 0, corrupt: 0 }
    }

    /// Record the check of one sampled object whose data could be read
    /// (`None` when it could not, which counts for nothing). Returns `true`
    /// iff the object is corrupt and must be moved to quarantine.
    pub fn record(&mut self, hash: &str, data: Option<&[u8]>) -> (corrupt: bool)
        requires
            old(self).verified < usize::MAX,
            old(self).corrupt < usize::MAX,
        ensures
            corrupt == (data matches Some(d) && sha256_hex_spec(d@) != hash@),
            final(self).verified == old(self).verified + (if data matches Some(d) && sha256_hex_spec(d@) == hash@ { 1int } else { 0 }),
            final(self).corrupt == old(self).corrupt + (if corrupt { 1int } else { 0 }),
    {
        match data {
            Some(d) => {
                if object_matches(hash, d) {
                    self.verified = self.verified + 1;
                    false
                } else {
                    self.corrupt = self.corrupt + 1;
                    true
                }
            },
            None => false,
        }
    }
}

// ── Maintenance report ────────────────────────────────────────────────────────

/// Summary of a maintenance run.
#[derive(Debug, Clone, Copy)]
pub struct MaintenanceReport {
    pub objects_gc_deleted: usize,
    pub quarantine_expired: usize,
    pub partial_files_cleaned: usize,
    pub objects_spot_checked: usize,
    pub objects_corrupt_found: usize,
    pub log_rows_purged: u64,
}

impl Default for MaintenanceReport {
    fn default() -> (r: Self)
        ensures
            r.objects_gc_deleted == 0,
            r.quarantine_expired == 0,
            r.partial_files_cleaned == 0,
            r.objects_spot_checked == 0,
            r.objects_corrupt_found == 0,
            r.log_rows_purged == 0,
    {
        MaintenanceReport {
            objects_gc_deleted: 0,
            quarantine_expired: 0,
            partial_files_cleaned: 0,
            objects_spot_checked: 0,
            objects_corrupt_found: 0,
            log_rows_purged: 0,
        }
    }
}

impl MaintenanceReport {
    /// A run is clean when it found no corrupt object.
    pub fn is_clean(&self) -> (r: bool)
        ensures
            r == (self.objects_corrupt_found == 0),
    {
        self.objects_corrupt_found == 0
    }
}

} // verus!
