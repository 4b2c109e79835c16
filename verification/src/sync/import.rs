//! Physical media import: recognise `.nmp` files found on removable media.
//!
//! Files are never parsed on discovery: a scan only records where a package
//! file lies, its size and whether its first bytes carry the `.nmp` magic.
//! The user confirms each import before the install pipeline reads it.
//! Only a hash of the source path is ever stored, never the path itself.

use vstd::prelude::*;

use crate::domain::{check_magic, has_nmp_magic};
use crate::security::hash::{sha256_hex, sha256_hex_spec, sha256_spec};
use vstd::string::StringSliceAdditionalSpecFns;
use crate::text::{ends_with, has_suffix, is_hex_digit, lemma_hex_encode_digits};

verus! {

/// A `.nmp` file found during a media scan.
#[derive(Debug, Clone)]
pub struct FoundPackage {
    /// Absolute path to the file.
    pub path: String,
    /// File size in bytes.
    pub byte_size: u64,
    /// Whether the file's magic bytes look like a valid `.nmp`.
    pub looks_valid: bool,
}

/// Result of a media scan.
#[derive(Debug)]
pub struct ScanResult {
    pub found: Vec<FoundPackage>,
    pub scan_error_count: usize,
}

impl Default for ScanResult {
    fn default() -> (r: Self)
        ensures
            r.found@.len() == 0,
            r.scan_error_count == 0,
    {
        ScanResult { found: Vec::new(), scan_error_count: 0 }
    }
}

/// A file name whose extension is `nmp`: it ends with `.nmp` and has at
/// least one character before that dot.
pub open spec fn is_nmp_file_name(name: Seq<char>) -> bool {
    name.len() > 4 && has_suffix(name, ".nmp"@)
}

/// Which names are `.nmp` files: a name is one exactly when its last four
/// characters are `.`, `n`, `m`, `p` (lower case) and at least one character
/// comes before them; `.nmp` alone is not.
pub proof fn lemma_nmp_file_names(name: Seq<char>)
    ensures
        is_nmp_file_name(name) <==> (name.len() > 4 && name[name.len() - 4] == '.'
            && name[name.len() - 3] == 'n' && name[name.len() - 2] == 'm' && name[name.len() - 1] == 'p'),
{
    reveal_strlit(".nmp");
    let n = name.len() as int;
    if name.len() > 4 {
        let t = name.subrange(n - 4, n);
        assert(t[0] == name[n - 4] && t[1] == name[n - 3] && t[2] == name[n - 2] && t[3] == name[n - 1]);
        if name[n - 4] == '.' && name[n - 3] == 'n' && name[n - 2] == 'm' && name[n - 1] == 'p' {
            assert(t =~= ".nmp"@);
        }
    }
}

/// Whether a file name carries the `.nmp` extension.
pub fn has_nmp_extension(file_name: &str) -> (r: bool)
    ensures
        r == is_nmp_file_name(file_name@),
{
    let dot_nmp = ".nmp";
    proof {
        reveal_strlit(".nmp");
    }
    file_name.unicode_len() > 4 && ends_with(file_name, dot_nmp)
}

impl ScanResult {
    /// Record a directory that could not be read.
    pub fn observe_unreadable_dir(&mut self)
        requires
            old(self).scan_error_count < usize::MAX,
        ensures
            final(self).scan_error_count == old(self).scan_error_count + 1,
            final(self).found@ == old(self).found@,
    {
        self.scan_error_count = self.scan_error_count + 1;
    }
}

// ── Directory scan ────────────────────────────────────────────────────────────

/// One entry of a directory listing.
#[derive(Debug, Clone)]
pub struct DirEntryInfo {
    /// Full path of the entry.
    pub path: String,
    /// The entry's own name (the last path component).
    pub file_name: String,
    /// Whether the entry is a directory.
    pub is_dir: bool,
}

/// What a scan needs done next.
#[derive(Debug, Clone)]
pub enum ScanAction {
    /// List the directory at `path`, then call `listed` or `unreadable`.
    ReadDir { path: String },
    /// Read the size and first four bytes of the `.nmp` file at `path`, then
    /// call `inspected`.
    InspectFile { path: String },
    /// The scan is over; `result` holds what it found.
    Done,
}

/// A directory being walked: its listing, the next entry to look at, and its
/// depth below the scan root.
#[derive(Debug, Clone)]
pub struct ScanFrame {
    pub entries: Vec<DirEntryInfo>,
    pub next: usize,
    pub depth: u32,
}

/// What the last action is waiting for.
#[derive(Debug, Clone)]
pub enum ScanWait {
    /// The listing of a directory at this depth.
    Listing { depth: u32 },
    /// The size and first bytes of this file.
    FileInfo { path: String },
    /// Nothing: the scan is over.
    Nothing,
}

/// A depth-first scan for `.nmp` files below a root directory, entries taken
/// in listing order. Directories deeper than `max_depth` below the root are
/// never listed, which also stops symlink loops. Files are not parsed: only
/// their size and magic bytes are looked at.
#[derive(Debug)]
pub struct DirectoryScan {
    max_depth: u32,
    frames: Vec<ScanFrame>,
    wait: ScanWait,
    result: ScanResult,
}

/// The number of entries still to visit, plus one per open directory.
pub open spec fn scan_measure(frames: Seq<ScanFrame>) -> nat
    decreases frames.len(),
{
    if frames.len() == 0 {
        0
    } else {
        let f = frames.last();
        scan_measure(frames.drop_last()) + (if f.next <= f.entries.len() {
            (f.entries.len() - f.next) as nat
        } else {
            0
        }) + 1
    }
}

/// The walk from the given open directories to the next action: the frames
/// afterwards, the action and what it waits for.
pub open spec fn scan_advance(frames: Seq<ScanFrame>, max_depth: u32) -> (Seq<ScanFrame>, ScanAction, ScanWait)
    decreases scan_measure(frames),
{
    if frames.len() == 0 {
        (frames, ScanAction::Done, ScanWait::Nothing)
    } else {
        let top = frames.last();
        if top.next < top.entries.len() {
            let e = top.entries@[top.next as int];
            let moved = frames.drop_last().push(ScanFrame { next: (top.next + 1) as usize, ..top });
            proof {
                assert(moved.drop_last() =~= frames.drop_last());
            }
            if e.is_dir {
                if top.depth < max_depth {
                    (moved, ScanAction::ReadDir { path: e.path }, ScanWait::Listing { depth: (top.depth + 1) as u32 })
                } else {
                    scan_advance(moved, max_depth)
                }
            } else if is_nmp_file_name(e.file_name@) {
                (moved, ScanAction::InspectFile { path: e.path }, ScanWait::FileInfo { path: e.path })
            } else {
                scan_advance(moved, max_depth)
            }
        } else {
            scan_advance(frames.drop_last(), max_depth)
        }
    }
}

/// The walk visits every entry of every listed directory, in listing order.
/// With no open directory the scan is done. A directory whose entries are all
/// visited is closed and the walk goes on in the directory around it. Entry
/// `k` of the innermost directory is looked at next: a subdirectory within the
/// depth limit is asked to be listed, a `.nmp` file is asked to be inspected,
/// and in both cases the walk resumes afterwards at entry `k + 1` of the same
/// directory, every other open directory left as it was; any other entry is
/// passed over and the walk continues at entry `k + 1` straight away.
pub proof fn lemma_scan_walk_order(frames: Seq<ScanFrame>, max_depth: u32)
    ensures
        frames.len() == 0 ==> scan_advance(frames, max_depth).1 is Done,
        frames.len() > 0 && frames.last().next >= frames.last().entries@.len()
            ==> scan_advance(frames, max_depth) == scan_advance(frames.drop_last(), max_depth),
        frames.len() > 0 && frames.last().next < frames.last().entries@.len() ==> ({
            let top = frames.last();
            let e = top.entries@[top.next as int];
            let (after, action, wait) = scan_advance(frames, max_depth);
            let lists = e.is_dir && top.depth < max_depth;
            let inspects = !e.is_dir && is_nmp_file_name(e.file_name@);
            &&& lists || inspects ==> {
                &&& after.len() == frames.len()
                &&& after.drop_last() == frames.drop_last()
                &&& after.last().entries == top.entries
                &&& after.last().depth == top.depth
                &&& after.last().next == top.next + 1
            }
            &&& lists ==> action == (ScanAction::ReadDir { path: e.path })
                && wait == (ScanWait::Listing { depth: (top.depth + 1) as u32 })
            &&& inspects ==> action == (ScanAction::InspectFile { path: e.path })
                && wait == (ScanWait::FileInfo { path: e.path })
            &&& !lists && !inspects ==> scan_advance(frames, max_depth) == scan_advance(
                frames.drop_last().push(
                    ScanFrame { entries: top.entries, next: (top.next + 1) as usize, depth: top.depth },
                ),
                max_depth,
            )
        }),
{
    if frames.len() > 0 && frames.last().next < frames.last().entries@.len() {
        let top = frames.last();
        let moved = frames.drop_last().push(ScanFrame { next: (top.next + 1) as usize, ..top });
        assert(moved.drop_last() =~= frames.drop_last());
    }
}

/// Every open directory lies within the depth limit and points inside its
/// listing, and a pending listing is within the limit too.
pub open spec fn scan_frames_ok(frames: Seq<ScanFrame>, wait: ScanWait, max_depth: u32) -> bool {
    &&& forall|i: int| 0 <= i < frames.len() ==> (#[trigger] frames[i]).depth <= max_depth
        && frames[i].next <= frames[i].entries@.len()
    &&& wait matches ScanWait::Listing { depth } ==> depth <= max_depth
}

/// The walk never asks for a directory below the depth limit.
pub proof fn lemma_scan_respects_depth(frames: Seq<ScanFrame>, max_depth: u32)
    requires
        scan_frames_ok(frames, ScanWait::Nothing, max_depth),
    ensures
        scan_frames_ok(scan_advance(frames, max_depth).0, scan_advance(frames, max_depth).2, max_depth),
    decreases scan_measure(frames),
{
    if frames.len() > 0 {
        let top = frames.last();
        let moved = frames.drop_last().push(ScanFrame { next: (top.next + 1) as usize, ..top });
        if top.next < top.entries@.len() {
            assert(frames[frames.len() - 1] == top);
            assert(scan_frames_ok(moved, ScanWait::Nothing, max_depth)) by {
                assert forall|i: int| 0 <= i < moved.len() implies (#[trigger] moved[i]).depth <= max_depth
                    && moved[i].next <= moved[i].entries@.len() by {
                    if i < frames.len() - 1 {
                        assert(moved[i] == frames[i]);
                    }
                }
            }
            assert(scan_measure(moved.drop_last()) == scan_measure(frames.drop_last())) by {
                assert(moved.drop_last() =~= frames.drop_last());
            }
            lemma_scan_respects_depth(moved, max_depth);
        } else {
            assert(scan_frames_ok(frames.drop_last(), ScanWait::Nothing, max_depth)) by {
                assert forall|i: int| 0 <= i < frames.drop_last().len() implies (#[trigger] frames.drop_last()[i]).depth <= max_depth
                    && frames.drop_last()[i].next <= frames.drop_last()[i].entries@.len() by {
                    assert(frames.drop_last()[i] == frames[i]);
                }
            }
            lemma_scan_respects_depth(frames.drop_last(), max_depth);
        }
    }
}

impl DirectoryScan {
    /// The depth limit.
    pub closed spec fn depth_limit(&self) -> u32 {
        self.max_depth
    }

    /// The open directories, innermost last.
    pub closed spec fn open_frames(&self) -> Seq<ScanFrame> {
        self.frames@
    }

    /// What the last action waits for.
    pub closed spec fn waiting(&self) -> ScanWait {
        self.wait
    }

    /// What the scan has found so far.
    pub closed spec fn found_so_far(&self) -> Seq<FoundPackage> {
        self.result.found@
    }

    /// How many directories could not be read so far.
    pub closed spec fn errors_so_far(&self) -> usize {
        self.result.scan_error_count
    }

    /// The scan's invariant.
    pub closed spec fn scan_ok(&self) -> bool {
        scan_frames_ok(self.frames@, self.wait, self.max_depth)
    }

    /// Start a scan of `root`: the first action lists the root.
    pub fn start(root: String, max_depth: u32) -> (r: (Self, ScanAction))
        ensures
            r.0.scan_ok(),
            r.0.depth_limit() == max_depth,
            r.0.open_frames().len() == 0,
            r.0.waiting() == (ScanWait::Listing { depth: 0 }),
            r.0.found_so_far().len() == 0,
            r.0.errors_so_far() == 0,
            r.1 == (ScanAction::ReadDir { path: root }),
    {
        let scan = DirectoryScan {
            max_depth,
            frames: Vec::new(),
            wait: ScanWait::Listing { depth: 0 },
            result: ScanResult::default(),
        };
        (scan, ScanAction::ReadDir { path: root })
    }

    fn advance(&mut self) -> (action: ScanAction)
        requires
            scan_frames_ok(old(self).frames@, ScanWait::Nothing, old(self).max_depth),
        ensures
            (final(self).frames@, action, final(self).wait) == scan_advance(old(self).frames@, old(self).max_depth),
            final(self).max_depth == old(self).max_depth,
            final(self).result == old(self).result,
            final(self).scan_ok(),
    {
        proof {
            lemma_scan_respects_depth(self.frames@, self.max_depth);
        }
        let ghost target = scan_advance(self.frames@, self.max_depth);
        loop
            invariant
                scan_advance(self.frames@, self.max_depth) == target,
                target == scan_advance(old(self).frames@, old(self).max_depth),
                scan_frames_ok(self.frames@, ScanWait::Nothing, self.max_depth),
                scan_frames_ok(target.0, target.2, self.max_depth),
                self.max_depth == old(self).max_depth,
                self.result == old(self).result,
            decreases scan_measure(self.frames@),
        {
            let ghost before = self.frames@;
            match self.frames.pop() {
                None => {
                    self.wait = ScanWait::Nothing;
                    return ScanAction::Done;
                },
                Some(top) => {
                    assert(before.last() == top);
                    assert(self.frames@ == before.drop_last());
                    if top.next < top.entries.len() {
                        let e = &top.entries[top.next];
                        let path = e.path.clone();
                        let is_dir = e.is_dir;
                        let is_nmp = has_nmp_extension(e.file_name.as_str());
                        let depth = top.depth;
                        let next = top.next + 1;
                        self.frames.push(ScanFrame { next, ..top });
                        proof {
                            assert(self.frames@ =~= before.drop_last().push(ScanFrame { next: next, ..before.last() }));
                            assert(scan_measure(self.frames@.drop_last()) == scan_measure(before.drop_last())) by {
                                assert(self.frames@.drop_last() =~= before.drop_last());
                            }
                            assert forall|i: int| 0 <= i < self.frames@.len() implies (#[trigger] self.frames@[i]).depth <= self.max_depth
                                && self.frames@[i].next <= self.frames@[i].entries@.len() by {
                                if i < before.len() - 1 {
                                    assert(self.frames@[i] == before[i]);
                                } else {
                                    assert(before[before.len() - 1] == top);
                                }
                            }
                        }
                        if is_dir {
                            if depth < self.max_depth {
                                self.wait = ScanWait::Listing { depth: depth + 1 };
                                return ScanAction::ReadDir { path };
                            }
                        } else if is_nmp {
                            self.wait = ScanWait::FileInfo { path: path.clone() };
                            return ScanAction::InspectFile { path };
                        }
                    } else {
                        proof {
                            assert forall|i: int| 0 <= i < self.frames@.len() implies (#[trigger] self.frames@[i]).depth <= self.max_depth
                                && self.frames@[i].next <= self.frames@[i].entries@.len() by {
                                assert(self.frames@[i] == before[i]);
                            }
                        }
                    }
                },
            }
        }
    }

    /// The listing of the directory the last action asked for: the scan
    /// descends into it and walks to the next action.
    pub fn listed(&mut self, entries: Vec<DirEntryInfo>) -> (action: ScanAction)
        requires
            old(self).scan_ok(),
            old(self).waiting() is Listing,
        ensures
            final(self).scan_ok(),
            final(self).depth_limit() == old(self).depth_limit(),
            (final(self).open_frames(), action, final(self).waiting()) == scan_advance(
                old(self).open_frames().push(ScanFrame { entries, next: 0, depth: old(self).waiting()->depth }),
                old(self).depth_limit(),
            ),
            final(self).found_so_far() == old(self).found_so_far(),
            final(self).errors_so_far() == old(self).errors_so_far(),
    {
        let depth = match &self.wait {
            ScanWait::Listing { depth } => *depth,
            _ => 0,
        };
        let ghost before = self.frames@;
        self.frames.push(ScanFrame { entries, next: 0, depth });
        proof {
            assert forall|i: int| 0 <= i < self.frames@.len() implies (#[trigger] self.frames@[i]).depth <= self.max_depth
                && self.frames@[i].next <= self.frames@[i].entries@.len() by {
                if i < before.len() {
                    assert(self.frames@[i] == before[i]);
                }
            }
        }
        self.advance()
    }

    /// The directory the last action asked for could not be read: it counts
    /// as a scan error and the scan walks on.
    pub fn unreadable(&mut self) -> (action: ScanAction)
        requires
            old(self).scan_ok(),
            old(self).waiting() is Listing,
            old(self).errors_so_far() < usize::MAX,
        ensures
            final(self).scan_ok(),
            final(self).depth_limit() == old(self).depth_limit(),
            (final(self).open_frames(), action, final(self).waiting()) == scan_advance(
                old(self).open_frames(),
                old(self).depth_limit(),
            ),
            final(self).found_so_far() == old(self).found_so_far(),
            final(self).errors_so_far() == old(self).errors_so_far() + 1,
    {
        self.result.observe_unreadable_dir();
        self.advance()
    }

    /// The size and first bytes of the file the last action asked for: it is
    /// recorded as found (valid iff `head` carries the magic) and the scan
    /// walks on.
    pub fn inspected(&mut self, byte_size: u64, head: &[u8]) -> (action: ScanAction)
        requires
            old(self).scan_ok(),
            old(self).waiting() is FileInfo,
        ensures
            final(self).scan_ok(),
            final(self).depth_limit() == old(self).depth_limit(),
            (final(self).open_frames(), action, final(self).waiting()) == scan_advance(
                old(self).open_frames(),
                old(self).depth_limit(),
            ),
            final(self).found_so_far() == old(self).found_so_far().push(
                FoundPackage { path: old(self).waiting()->path, byte_size, looks_valid: has_nmp_magic(head@) },
            ),
            final(self).errors_so_far() == old(self).errors_so_far(),
    {
        let path = match &self.wait {
            ScanWait::FileInfo { path } => path.clone(),
            _ => String::new(),
        };
        let looks_valid = check_magic(head);
        self.result.found.push(FoundPackage { path, byte_size, looks_valid });
        self.advance()
    }

    /// What the scan found: the `.nmp` files in walk order and the number of
    /// directories that could not be read.
    pub fn into_result(self) -> (r: ScanResult)
        ensures
            r.found@ == self.found_so_far(),
            r.scan_error_count == self.errors_so_far(),
    {
        self.result
    }
}

/// Source label hash: the SHA-256 of the path's bytes in lowercase hex.
///
/// Protects the identity of the import source: the result has 64 hex digits
/// and nothing else, so no part of the path can show through.
pub fn source_label_hash(path: &str) -> (r: String)
    ensures
        r@ == sha256_hex_spec(path.spec_bytes()),
        r@.len() == 64,
        forall|k: int| 0 <= k < r@.len() ==> is_hex_digit(#[trigger] r@[k]),
{
    let r = sha256_hex(path.as_bytes());
    proof {
        lemma_hex_encode_digits(sha256_spec(path.spec_bytes()));
    }
    r
}

/// Status of an import job.
#[derive(Debug, Clone, Copy, PartialEq, Eq, Structural)]
pub enum ImportStatus {
    Scanning,
    Verified,
    Installed,
    Failed,
}

/// Per-item result for one `.nmp` within an import job.
#[derive(Debug, Clone, Copy, PartialEq, Eq, Structural)]
pub enum ItemVerifyResult {
    Valid,
    Invalid,
    Duplicate,
}

/// Per-item install outcome.
#[derive(Debug, Clone, Copy, PartialEq, Eq, Structural)]
pub enum ItemInstallResult {
    Installed,
    Skipped,
    Failed,
}

} // verus!
