//! Chunk transfer model for low-bandwidth / unreliable connections.
//!
//! Large objects are split into fixed-size chunks. Each chunk is individually
//! hashed and verified. An interrupted transfer can resume from the last
//! verified chunk without re-sending already-received data.

use vstd::prelude::*;
use vstd::slice::slice_subrange;

use crate::security::hash::{sha256_hex, sha256_hex_spec};

verus! {

/// Default chunk size: 64 KiB — fits comfortably in RAM on low-end devices
/// while keeping per-chunk overhead small.
pub const DEFAULT_CHUNK_SIZE: usize = 65536;

/// Status of an individual chunk in a transfer.
#[derive(Debug, Clone, Copy, PartialEq, Eq, Structural)]
pub enum ChunkStatus {
    Pending,
    Received,
    Verified,
    Failed,
}

/// A record for one chunk of an in-progress transfer.
#[derive(Debug, Clone)]
pub struct TransferChunk {
    pub transfer_id: String,
    /// SHA-256 hash of the full object being transferred.
    pub object_hash: String,
    pub chunk_index: u32,
    /// SHA-256 hash of this chunk's raw bytes.
    pub chunk_hash: String,
    pub byte_size: u32,
    pub status: ChunkStatus,
    pub updated_at: i64,
}

/// Byte offset where chunk `k` starts (clamped to the data length).
pub open spec fn chunk_start(k: int, size: int, len: int) -> int {
    if k * size <= len { k * size } else { len }
}

/// The bytes of chunk `k` when `data` is cut into pieces of `size` bytes.
pub open spec fn chunk_of(data: Seq<u8>, size: int, k: int) -> Seq<u8> {
    data.subrange(chunk_start(k, size, data.len() as int), chunk_start(k + 1, size, data.len() as int))
}

/// `n` is the number of `size`-byte chunks that cover `len` bytes.
pub open spec fn is_chunk_count(n: int, size: int, len: int) -> bool {
    &&& n * size >= len
    &&& n > 0 ==> (n - 1) * size < len
}

/// `c` is the record of chunk `k` of an object.
pub open spec fn chunk_record_for(
    c: TransferChunk,
    transfer_id: Seq<char>,
    object_hash: Seq<char>,
    piece: Seq<u8>,
    k: int,
    now: i64,
) -> bool {
    &&& c.transfer_id@ == transfer_id
    &&& c.object_hash@ == object_hash
    &&& c.chunk_index == k as u32
    &&& c.chunk_hash@ == sha256_hex_spec(piece)
    &&& c.byte_size == piece.len() as u32
    &&& c.status == ChunkStatus::Pending
    &&& c.updated_at == now
}

proof fn lemma_mul_succ(k: int, size: int)
    ensures
        (k + 1) * size == k * size + size,
        (k - 1) * size == k * size - size,
{
    assert((k + 1) * size == k * size + size) by (nonlinear_arith);
    assert((k - 1) * size == k * size - size) by (nonlinear_arith);
}

proof fn lemma_mul_nonneg(k: int, size: int)
    requires
        k >= 0,
        size >= 0,
    ensures
        k * size >= 0,
{
    assert(k * size >= 0) by (nonlinear_arith)
        requires
            k >= 0,
            size >= 0,
    ;
}

/// Split `data` into chunks of `chunk_size` bytes and compute per-chunk metadata.
pub fn split_into_chunks(
    transfer_id: &str,
    object_hash: &str,
    data: &[u8],
    chunk_size: usize,
    now: i64,
) -> (chunks: Vec<TransferChunk>)
    requires
        chunk_size > 0,
    ensures
        is_chunk_count(chunks@.len() as int, chunk_size as int, data@.len() as int),
        forall|k: int| 0 <= k < chunks@.len() ==> chunk_record_for(
            #[trigger] chunks@[k],
            transfer_id@,
            object_hash@,
            chunk_of(data@, chunk_size as int, k),
            k,
            now,
        ),
{
    let mut chunks: Vec<TransferChunk> = Vec::new();
    let len = data.len();
    let mut start: usize = 0;
    let mut k: usize = 0;
    while start < len
        invariant
            len == data@.len(),
            chunk_size > 0,
            start as int == chunk_start(k as int, chunk_size as int, len as int),
            start <= len,
            k <= start,
            chunks@.len() == k,
            k > 0 ==> (k - 1) * chunk_size < len,
            forall|j: int| 0 <= j < k ==> chunk_record_for(
                #[trigger] chunks@[j],
                transfer_id@,
                object_hash@,
                chunk_of(data@, chunk_size as int, j),
                j,
                now,
            ),
        decreases len - start,
    {
        proof {
            lemma_mul_succ(k as int, chunk_size as int);
            lemma_mul_nonneg(k as int, chunk_size as int);
        }
        let end = if len - start < chunk_size { len } else { start + chunk_size };
        let piece = slice_subrange(data, start, end);
        assert(piece@ == chunk_of(data@, chunk_size as int, k as int));
        let chunk_hash = sha256_hex(piece);
        chunks.push(TransferChunk {
            transfer_id: transfer_id.to_owned(),
            object_hash: object_hash.to_owned(),
            chunk_index: k as u32,
            chunk_hash,
            byte_size: piece.len() as u32,
            status: ChunkStatus::Pending,
            updated_at: now,
        });
        start = end;
        k = k + 1;
    }
    proof {
        lemma_mul_nonneg(k as int, chunk_size as int);
    }
    chunks
}

/// `true` iff `chunk_data` hashes to `expected_hash`.
#[verifier::opaque]
pub open spec fn chunk_matches(chunk_data: Seq<u8>, expected_hash: Seq<char>) -> bool {
    sha256_hex_spec(chunk_data) == expected_hash
}

/// Verify a received chunk against its expected hash.
pub fn verify_chunk(chunk_data: &[u8], expected_hash: &str) -> (r: bool)
    ensures
        r == chunk_matches(chunk_data@, expected_hash@),
{
    proof {
        reveal(chunk_matches);
    }
    sha256_hex(chunk_data) == expected_hash.to_owned()
}

/// Received pieces as (chunk index, bytes).
pub open spec fn piece_views(pieces: Seq<(u32, Vec<u8>)>) -> Seq<(u32, Seq<u8>)> {
    pieces.map_values(|p: (u32, Vec<u8>)| (p.0, p.1@))
}

/// Borrowed received pieces as (chunk index, bytes).
pub open spec fn ref_piece_views(pieces: Seq<&(u32, Vec<u8>)>) -> Seq<(u32, Seq<u8>)> {
    pieces.map_values(|p: &(u32, Vec<u8>)| (p.0, p.1@))
}

/// Insert `x` after every piece whose index is not greater than its own.
pub open spec fn insert_by_index(x: (u32, Seq<u8>), s: Seq<(u32, Seq<u8>)>) -> Seq<(u32, Seq<u8>)>
    decreases s.len(),
{
    if s.len() == 0 {
        seq![x]
    } else if s.last().0 <= x.0 {
        s.push(x)
    } else {
        insert_by_index(x, s.drop_last()).push(s.last())
    }
}

/// The stable sort of `s` by chunk index: pieces with equal indices keep
/// their relative order.
pub open spec fn sort_by_index(s: Seq<(u32, Seq<u8>)>) -> Seq<(u32, Seq<u8>)>
    decreases s.len(),
{
    if s.len() == 0 {
        s
    } else {
        insert_by_index(s.last(), sort_by_index(s.drop_last()))
    }
}

/// Index of the first record for chunk `idx`.
#[verifier::opaque]
pub open spec fn first_record(records: Seq<TransferChunk>, idx: u32) -> Option<int> {
    if exists|i: int| 0 <= i < records.len() && records[i].chunk_index == idx {
        Some(choose|i: int| 0 <= i < records.len() && records[i].chunk_index == idx
            && forall|j: int| 0 <= j < i ==> records[j].chunk_index != idx)
    } else {
        None
    }
}

/// Concatenate `pieces` in order, checking each against the first record of
/// its index; the error is the index of the first piece without a record or
/// with a mismatching hash.
pub open spec fn reassemble_spec(pieces: Seq<(u32, Seq<u8>)>, records: Seq<TransferChunk>) -> Result<Seq<u8>, u32>
    decreases pieces.len(),
{
    if pieces.len() == 0 {
        Ok(Seq::empty())
    } else {
        match reassemble_spec(pieces.drop_last(), records) {
            Err(e) => Err(e),
            Ok(acc) => {
                let (idx, d) = pieces.last();
                match first_record(records, idx) {
                    None => Err(idx),
                    Some(r) => if chunk_matches(d, records[r].chunk_hash@) {
                        Ok(acc + d)
                    } else {
                        Err(idx)
                    },
                }
            },
        }
    }
}

proof fn lemma_insert_at(x: (u32, Seq<u8>), s: Seq<(u32, Seq<u8>)>, j: int)
    requires
        0 <= j <= s.len(),
        forall|m: int| j <= m < s.len() ==> s[m].0 > x.0,
        j > 0 ==> s[j - 1].0 <= x.0,
    ensures
        insert_by_index(x, s) == s.insert(j, x),
    decreases s.len() - j,
{
    if j == s.len() {
        if s.len() == 0 {
            assert(s.insert(j, x) =~= seq![x]);
        } else {
            assert(s.insert(j, x) =~= s.push(x));
        }
    } else {
        lemma_insert_at(x, s.drop_last(), j);
        assert(s.drop_last().insert(j, x).push(s.last()) =~= s.insert(j, x));
    }
}

proof fn lemma_reassemble_err_propagates(pieces: Seq<(u32, Seq<u8>)>, records: Seq<TransferChunk>, i: int, e: u32)
    requires
        0 <= i <= pieces.len(),
        reassemble_spec(pieces.subrange(0, i), records) == Err::<Seq<u8>, u32>(e),
    ensures
        reassemble_spec(pieces, records) == Err::<Seq<u8>, u32>(e),
    decreases pieces.len() - i,
{
    if i < pieces.len() {
        assert(pieces.subrange(0, i + 1).drop_last() =~= pieces.subrange(0, i));
        lemma_reassemble_err_propagates(pieces, records, i + 1, e);
    } else {
        assert(pieces.subrange(0, i) =~= pieces);
    }
}

/// Reassemble chunks in index order, verifying each hash.
///
/// Returns `Ok(data)` if all chunks verify, or `Err(chunk_index)` on mismatch.
pub fn reassemble_chunks(chunks_data: &[(u32, Vec<u8>)], chunk_records: &[TransferChunk]) -> (r: Result<Vec<u8>, u32>)
    ensures
        match r {
            Ok(data) => reassemble_spec(sort_by_index(piece_views(chunks_data@)), chunk_records@)
                == Ok::<Seq<u8>, u32>(data@),
            Err(idx) => reassemble_spec(sort_by_index(piece_views(chunks_data@)), chunk_records@)
                == Err::<Seq<u8>, u32>(idx),
        },
{
    // Stable insertion sort by chunk index.
    let ghost input = piece_views(chunks_data@);
    let mut sorted: Vec<&(u32, Vec<u8>)> = Vec::new();
    let n = chunks_data.len();
    for i in 0..n
        invariant
            n == chunks_data@.len(),
            input == piece_views(chunks_data@),
            ref_piece_views(sorted@) == sort_by_index(input.subrange(0, i as int)),
    {
        let x = &chunks_data[i];
        let ghost sv = ref_piece_views(sorted@);
        let mut j = sorted.len();
        while j > 0 && sorted[j - 1].0 > x.0
            invariant
                j <= sorted@.len(),
                sv == ref_piece_views(sorted@),
                forall|m: int| j <= m < sorted@.len() ==> sorted@[m].0 > x.0,
            decreases j,
        {
            j = j - 1;
        }
        proof {
            assert(input.subrange(0, i + 1).drop_last() =~= input.subrange(0, i as int));
            assert(input.subrange(0, i + 1).last() == (x.0, x.1@));
            lemma_insert_at((x.0, x.1@), sv, j as int);
        }
        sorted.insert(j, x);
        assert(ref_piece_views(sorted@) =~= sv.insert(j as int, (x.0, x.1@)));
    }
    assert(input.subrange(0, n as int) =~= input);
    let ghost sorted_views = sort_by_index(input);
    assert(ref_piece_views(sorted@) == sorted_views);

    concat_verified(&sorted, chunk_records)
}

/// Concatenate the pieces in the given order, checking each against the first
/// record of its index.
#[verifier::rlimit(60)]
fn concat_verified(sorted: &Vec<&(u32, Vec<u8>)>, chunk_records: &[TransferChunk]) -> (r: Result<Vec<u8>, u32>)
    ensures
        match r {
            Ok(data) => reassemble_spec(ref_piece_views(sorted@), chunk_records@) == Ok::<Seq<u8>, u32>(data@),
            Err(idx) => reassemble_spec(ref_piece_views(sorted@), chunk_records@) == Err::<Seq<u8>, u32>(idx),
        },
{
    let ghost views = ref_piece_views(sorted@);
    let mut result: Vec<u8> = Vec::new();
    let m = sorted.len();
    for i in 0..m
        invariant
            m == sorted@.len(),
            views == ref_piece_views(sorted@),
            reassemble_spec(views.subrange(0, i as int), chunk_records@) == Ok::<Seq<u8>, u32>(result@),
    {
        let p = sorted[i];
        let idx = p.0;
        let ghost pre = views.subrange(0, i + 1);
        proof {
            assert(views[i as int] == (idx, p.1@));
            assert(pre.drop_last() =~= views.subrange(0, i as int));
            assert(pre.last() == (idx, p.1@));
        }
        let f = match find_record(chunk_records, idx) {
            Some(f) => f,
            None => {
                proof {
                    assert(reassemble_spec(pre, chunk_records@) == Err::<Seq<u8>, u32>(idx));
                    lemma_reassemble_err_propagates(views, chunk_records@, i + 1, idx);
                }
                return Err(idx);
            },
        };
        if !verify_chunk(p.1.as_slice(), chunk_records[f].chunk_hash.as_str()) {
            proof {
                assert(reassemble_spec(pre, chunk_records@) == Err::<Seq<u8>, u32>(idx));
                lemma_reassemble_err_propagates(views, chunk_records@, i + 1, idx);
            }
            return Err(idx);
        }
        append_bytes(&mut result, p.1.as_slice());
        assert(reassemble_spec(pre, chunk_records@) == Ok::<Seq<u8>, u32>(result@));
    }
    assert(views.subrange(0, m as int) =~= views);
    Ok(result)
}

/// The position of the first record for chunk `idx`.
fn find_record(records: &[TransferChunk], idx: u32) -> (r: Option<usize>)
    ensures
        match r {
            Some(k) => first_record(records@, idx) == Some(k as int),
            None => first_record(records@, idx) is None,
        },
        r matches Some(k) ==> k < records@.len() && records@[k as int].chunk_index == idx,
{
    let n = records.len();
    proof {
        reveal(first_record);
    }
    for q in 0..n
        invariant
            n == records@.len(),
            forall|t: int| 0 <= t < q ==> records@[t].chunk_index != idx,
    {
        if records[q].chunk_index == idx {
            proof {
                reveal(first_record);
                let c = choose|c: int| 0 <= c < records@.len() && records@[c].chunk_index == idx
                    && forall|t: int| 0 <= t < c ==> records@[t].chunk_index != idx;
                assert(records@[q as int].chunk_index == idx);
                if c < q as int {
                } else if c > q as int {
                }
                assert(c == q as int);
            }
            return Some(q);
        }
    }
    proof {
        reveal(first_record);
    }
    None
}

/// Append `data` to `out`.
fn append_bytes(out: &mut Vec<u8>, data: &[u8])
    ensures
        final(out)@ == old(out)@ + data@,
{
    let n = data.len();
    for t in 0..n
        invariant
            n == data@.len(),
            out@ == old(out)@ + data@.subrange(0, t as int),
    {
        out.push(data[t]);
        assert(out@ =~= old(out)@ + data@.subrange(0, t + 1));
    }
    assert(data@.subrange(0, n as int) =~= data@);
}

/// The pieces of `data` in chunk order, each tagged with its chunk index.
pub open spec fn chunk_pieces(data: Seq<u8>, size: int, n: int) -> Seq<(u32, Seq<u8>)> {
    Seq::new(n as nat, |k: int| (k as u32, chunk_of(data, size, k)))
}

proof fn lemma_sort_sorted_identity(s: Seq<(u32, Seq<u8>)>)
    requires
        forall|i: int, j: int| 0 <= i <= j < s.len() ==> s[i].0 <= s[j].0,
    ensures
        sort_by_index(s) == s,
    decreases s.len(),
{
    if s.len() > 0 {
        lemma_sort_sorted_identity(s.drop_last());
        if s.drop_last().len() == 0 {
            assert(s =~= seq![s.last()]);
        } else {
            assert(s.drop_last().last().0 <= s.last().0);
            assert(s.drop_last().push(s.last()) =~= s);
        }
    }
}

proof fn lemma_reassemble_prefix(data: Seq<u8>, size: int, records: Seq<TransferChunk>, tid: Seq<char>, oh: Seq<char>, now: i64, i: int)
    requires
        size > 0,
        0 <= i <= records.len(),
        records.len() <= 0x1_0000_0000,
        forall|k: int| 0 <= k < records.len() ==> chunk_record_for(
            #[trigger] records[k],
            tid,
            oh,
            chunk_of(data, size, k),
            k,
            now,
        ),
    ensures
        reassemble_spec(chunk_pieces(data, size, records.len() as int).subrange(0, i), records)
            == Ok::<Seq<u8>, u32>(data.subrange(0, chunk_start(i, size, data.len() as int))),
    decreases i,
{
    let pieces = chunk_pieces(data, size, records.len() as int);
    let len = data.len() as int;
    if i == 0 {
        assert(pieces.subrange(0, 0) =~= Seq::<(u32, Seq<u8>)>::empty());
        assert(data.subrange(0, 0) =~= Seq::<u8>::empty());
    } else {
        lemma_reassemble_prefix(data, size, records, tid, oh, now, i - 1);
        let pre = pieces.subrange(0, i);
        assert(pre.drop_last() =~= pieces.subrange(0, i - 1));
        let k = i - 1;
        assert(pre.last() == (k as u32, chunk_of(data, size, k)));
        assert(chunk_record_for(records[k], tid, oh, chunk_of(data, size, k), k, now));
        assert((k as u32) as int == k);
        assert(first_record(records, k as u32) == Some(k)) by {
            reveal(first_record);
            assert forall|j: int| 0 <= j < k implies records[j].chunk_index != k as u32 by {
                assert(chunk_record_for(records[j], tid, oh, chunk_of(data, size, j), j, now));
                assert((j as u32) as int == j);
            }
            let c = choose|c: int| 0 <= c < records.len() && records[c].chunk_index == k as u32
                && forall|j: int| 0 <= j < c ==> records[j].chunk_index != k as u32;
            if c < k {
            } else if c > k {
            }
        }
        assert(chunk_matches(chunk_of(data, size, k), records[k].chunk_hash@)) by {
            reveal(chunk_matches);
        }
        lemma_mul_succ(k, size);
        lemma_mul_nonneg(k, size);
        let a = chunk_start(k, size, len);
        let b = chunk_start(i, size, len);
        assert(0 <= a <= b <= len);
        assert(data.subrange(0, a) + data.subrange(a, b) =~= data.subrange(0, b));
    }
}

/// Reassembling the chunks that `split_into_chunks` describes, from the
/// pieces of the same data in chunk order, gives back exactly that data.
pub proof fn lemma_split_reassemble_roundtrip(
    data: Seq<u8>,
    size: int,
    records: Seq<TransferChunk>,
    transfer_id: Seq<char>,
    object_hash: Seq<char>,
    now: i64,
)
    requires
        size > 0,
        is_chunk_count(records.len() as int, size, data.len() as int),
        records.len() <= 0x1_0000_0000,
        forall|k: int| 0 <= k < records.len() ==> chunk_record_for(
            #[trigger] records[k],
            transfer_id,
            object_hash,
            chunk_of(data, size, k),
            k,
            now,
        ),
    ensures
        reassemble_spec(sort_by_index(chunk_pieces(data, size, records.len() as int)), records)
            == Ok::<Seq<u8>, u32>(data),
{
    let n = records.len() as int;
    let pieces = chunk_pieces(data, size, n);
    assert forall|i: int, j: int| 0 <= i <= j < pieces.len() implies pieces[i].0 <= pieces[j].0 by {
        assert((i as u32) as int == i);
        assert((j as u32) as int == j);
    }
    lemma_sort_sorted_identity(pieces);
    lemma_reassemble_prefix(data, size, records, transfer_id, object_hash, now, n);
    assert(pieces.subrange(0, n) =~= pieces);
    assert(chunk_start(n, size, data.len() as int) == data.len());
    assert(data.subrange(0, data.len() as int) =~= data);
}

/// The pieces are in ascending index order.
pub open spec fn index_sorted(s: Seq<(u32, Seq<u8>)>) -> bool {
    forall|i: int, j: int| 0 <= i <= j < s.len() ==> (#[trigger] s[i]).0 <= (#[trigger] s[j]).0
}

proof fn lemma_insert_by_index_props(x: (u32, Seq<u8>), s: Seq<(u32, Seq<u8>)>)
    requires
        index_sorted(s),
    ensures
        index_sorted(insert_by_index(x, s)),
        insert_by_index(x, s).to_multiset() == s.to_multiset().insert(x),
    decreases s.len(),
{
    broadcast use vstd::seq_lib::group_to_multiset_ensures;

    if s.len() == 0 {
        assert(seq![x] =~= Seq::<(u32, Seq<u8>)>::empty().push(x));
    } else if s.last().0 <= x.0 {
        assert forall|i: int, j: int| 0 <= i <= j < s.push(x).len() implies (#[trigger] s.push(x)[i]).0
            <= (#[trigger] s.push(x)[j]).0 by {
            if j == s.len() && i < s.len() {
                assert(s[i].0 <= s[s.len() - 1].0);
            }
        }
    } else {
        let init = s.drop_last();
        let last = s.last();
        assert(index_sorted(init)) by {
            assert forall|i: int, j: int| 0 <= i <= j < init.len() implies (#[trigger] init[i]).0
                <= (#[trigger] init[j]).0 by {
                assert(s[i].0 <= s[j].0);
            }
        }
        lemma_insert_by_index_props(x, init);
        let t = insert_by_index(x, init);
        assert forall|k: int| 0 <= k < t.len() implies (#[trigger] t[k]).0 <= last.0 by {
            assert(t.to_multiset().count(t[k]) > 0);
            if t[k] != x {
                assert(init.to_multiset().count(t[k]) > 0);
                assert(init.contains(t[k]));
                let m = choose|m: int| 0 <= m < init.len() && init[m] == t[k];
                assert(s[m].0 <= s[s.len() - 1].0);
            }
        }
        assert forall|i: int, j: int| 0 <= i <= j < t.push(last).len() implies (#[trigger] t.push(last)[i]).0
            <= (#[trigger] t.push(last)[j]).0 by {
            if j == t.len() && i < t.len() {
                assert(t[i].0 <= last.0);
            }
        }
        assert(s =~= init.push(last));
        assert(t.push(last).to_multiset() =~= s.to_multiset().insert(x));
    }
}

proof fn lemma_sort_by_index_props(s: Seq<(u32, Seq<u8>)>)
    ensures
        index_sorted(sort_by_index(s)),
        sort_by_index(s).to_multiset() == s.to_multiset(),
    decreases s.len(),
{
    broadcast use vstd::seq_lib::group_to_multiset_ensures;

    if s.len() > 0 {
        lemma_sort_by_index_props(s.drop_last());
        lemma_insert_by_index_props(s.last(), sort_by_index(s.drop_last()));
        assert(s =~= s.drop_last().push(s.last()));
    } else {
        assert(s.to_multiset() =~= sort_by_index(s).to_multiset());
    }
}

/// A sequence sorted by index that holds the same pieces as a sequence whose
/// indices strictly increase is that sequence.
proof fn lemma_index_sorted_unique(a: Seq<(u32, Seq<u8>)>, b: Seq<(u32, Seq<u8>)>)
    requires
        index_sorted(a),
        forall|i: int, j: int| 0 <= i < j < b.len() ==> (#[trigger] b[i]).0 < (#[trigger] b[j]).0,
        a.to_multiset() == b.to_multiset(),
    ensures
        a == b,
    decreases a.len(),
{
    broadcast use vstd::seq_lib::group_to_multiset_ensures;

    a.to_multiset_ensures();
    b.to_multiset_ensures();
    assert(a.to_multiset().len() == b.to_multiset().len());
    if a.len() == 0 {
        assert(b.len() == 0);
        assert(a =~= b);
    } else {
        assert(b.len() == a.len());
        assert(b.to_multiset().count(a[0]) > 0);
        assert(b.contains(a[0]));
        let m = choose|m: int| 0 <= m < b.len() && b[m] == a[0];
        assert(a.to_multiset().count(b[0]) > 0);
        assert(a.contains(b[0]));
        let m2 = choose|m2: int| 0 <= m2 < a.len() && a[m2] == b[0];
        assert(a[0].0 <= a[m2].0);
        if m > 0 {
            assert(b[0].0 < b[m].0);
        }
        assert(m == 0);
        assert(a[0] == b[0]);
        assert(a.remove(0) =~= a.drop_first());
        assert(b.remove(0) =~= b.drop_first());
        assert(a.drop_first().to_multiset() =~= a.to_multiset().remove(a[0]));
        assert(b.drop_first().to_multiset() =~= b.to_multiset().remove(b[0]));
        assert forall|i: int, j: int| 0 <= i < j < b.drop_first().len() implies (#[trigger] b.drop_first()[i]).0
            < (#[trigger] b.drop_first()[j]).0 by {
            assert(b[i + 1].0 < b[j + 1].0);
        }
        assert(index_sorted(a.drop_first())) by {
            assert forall|i: int, j: int| 0 <= i <= j < a.drop_first().len() implies (#[trigger] a.drop_first()[i]).0
                <= (#[trigger] a.drop_first()[j]).0 by {
                assert(a[i + 1].0 <= a[j + 1].0);
            }
        }
        lemma_index_sorted_unique(a.drop_first(), b.drop_first());
        assert forall|i: int| 0 <= i < a.len() implies a[i] == b[i] by {
            if i > 0 {
                assert(a[i] == a.drop_first()[i - 1]);
                assert(b[i] == b.drop_first()[i - 1]);
            }
        }
        assert(a =~= b);
    }
}

/// Chunks may arrive in any order: reassembling the pieces of `data`, received
/// in whatever order (each chunk once), gives back exactly that data.
pub proof fn lemma_reassemble_any_arrival_order(
    data: Seq<u8>,
    size: int,
    records: Seq<TransferChunk>,
    transfer_id: Seq<char>,
    object_hash: Seq<char>,
    now: i64,
    arrived: Seq<(u32, Seq<u8>)>,
)
    requires
        size > 0,
        is_chunk_count(records.len() as int, size, data.len() as int),
        records.len() <= 0x1_0000_0000,
        forall|k: int| 0 <= k < records.len() ==> chunk_record_for(
            #[trigger] records[k],
            transfer_id,
            object_hash,
            chunk_of(data, size, k),
            k,
            now,
        ),
        arrived.to_multiset() == chunk_pieces(data, size, records.len() as int).to_multiset(),
    ensures
        reassemble_spec(sort_by_index(arrived), records) == Ok::<Seq<u8>, u32>(data),
{
    let pieces = chunk_pieces(data, size, records.len() as int);
    lemma_sort_by_index_props(arrived);
    assert forall|i: int, j: int| 0 <= i < j < pieces.len() implies (#[trigger] pieces[i]).0 < (#[trigger] pieces[j]).0 by {
        assert((i as u32) as int == i);
        assert((j as u32) as int == j);
    }
    lemma_index_sorted_unique(sort_by_index(arrived), pieces);
    assert forall|i: int, j: int| 0 <= i <= j < pieces.len() implies pieces[i].0 <= pieces[j].0 by {
        assert((i as u32) as int == i);
        assert((j as u32) as int == j);
    }
    lemma_sort_sorted_identity(pieces);
    lemma_split_reassemble_roundtrip(data, size, records, transfer_id, object_hash, now);
}

/// The bytes of the received pieces, in order.
pub open spec fn piece_bytes(pieces: Seq<(u32, Seq<u8>)>) -> Seq<Seq<u8>> {
    pieces.map_values(|p: (u32, Seq<u8>)| p.1)
}

proof fn lemma_first_record_found(records: Seq<TransferChunk>, idx: u32, k: int)
    requires
        0 <= k < records.len(),
        records[k].chunk_index == idx,
    ensures
        first_record(records, idx) matches Some(r) && 0 <= r < records.len() && records[r].chunk_index == idx,
    decreases k,
{
    reveal(first_record);
    if exists|j: int| 0 <= j < k && records[j].chunk_index == idx {
        let j = choose|j: int| 0 <= j < k && records[j].chunk_index == idx;
        lemma_first_record_found(records, idx, j);
    } else {
        assert(0 <= k < records.len() && records[k].chunk_index == idx
            && forall|j: int| 0 <= j < k ==> records[j].chunk_index != idx);
    }
}

/// What reassembly of pieces taken in the given order yields. When every
/// piece has a record of its index and every record of its index carries the
/// piece's hash, the result is the pieces' bytes concatenated in that order.
/// A success only ever comes from such pieces: each has a record of its index
/// whose hash it matches, and the data is their concatenation. A failure names
/// the index of a piece that has no record, or that some record of its index
/// does not match.
pub proof fn lemma_reassemble_outcome(pieces: Seq<(u32, Seq<u8>)>, records: Seq<TransferChunk>)
    ensures
        (forall|i: int| 0 <= i < pieces.len() ==> {
            &&& exists|r: int| 0 <= r < records.len() && records[r].chunk_index == (#[trigger] pieces[i]).0
            &&& forall|r: int| 0 <= r < records.len() && #[trigger] records[r].chunk_index == pieces[i].0
                ==> sha256_hex_spec(pieces[i].1) == records[r].chunk_hash@
        }) ==> reassemble_spec(pieces, records) == Ok::<Seq<u8>, u32>(piece_bytes(pieces).flatten()),
        reassemble_spec(pieces, records) matches Ok(data) ==> {
            &&& data == piece_bytes(pieces).flatten()
            &&& forall|i: int| 0 <= i < pieces.len() ==> exists|r: int| 0 <= r < records.len()
                && records[r].chunk_index == (#[trigger] pieces[i]).0
                && sha256_hex_spec(pieces[i].1) == records[r].chunk_hash@
        },
        reassemble_spec(pieces, records) matches Err(e) ==> exists|i: int| 0 <= i < pieces.len()
            && (#[trigger] pieces[i]).0 == e && (
            (forall|r: int| 0 <= r < records.len() ==> records[r].chunk_index != e)
            || exists|r: int| 0 <= r < records.len() && records[r].chunk_index == e
                && sha256_hex_spec(pieces[i].1) != records[r].chunk_hash@),
    decreases pieces.len(),
{
    reveal(chunk_matches);
    piece_bytes(pieces).lemma_flatten_and_flatten_alt_are_equivalent();
    if pieces.len() > 0 {
        let p = pieces.drop_last();
        let (idx, d) = pieces.last();
        let n = pieces.len() - 1;
        assert(pieces[n] == pieces.last());
        lemma_reassemble_outcome(p, records);
        piece_bytes(p).lemma_flatten_and_flatten_alt_are_equivalent();
        assert(piece_bytes(pieces).drop_last() =~= piece_bytes(p));
        assert(piece_bytes(pieces).last() == d);
        assert forall|i: int| 0 <= i < p.len() implies #[trigger] p[i] == pieces[i] by {}
        if exists|r: int| 0 <= r < records.len() && records[r].chunk_index == idx {
            let k = choose|k: int| 0 <= k < records.len() && records[k].chunk_index == idx;
            lemma_first_record_found(records, idx, k);
        } else {
            reveal(first_record);
        }
        let fr = first_record(records, idx);
        if forall|i: int| 0 <= i < pieces.len() ==> {
            &&& exists|r: int| 0 <= r < records.len() && records[r].chunk_index == (#[trigger] pieces[i]).0
            &&& forall|r: int| 0 <= r < records.len() && #[trigger] records[r].chunk_index == pieces[i].0
                ==> sha256_hex_spec(pieces[i].1) == records[r].chunk_hash@
        } {
            assert(pieces[n].0 == idx);
            let r0 = fr->0;
            assert(records[r0].chunk_index == pieces[n].0);
        }
        match reassemble_spec(pieces, records) {
            Ok(data) => {
                assert(reassemble_spec(p, records) is Ok);
                let r0 = fr->0;
                assert(records[r0].chunk_index == pieces[n].0);
                assert forall|i: int| 0 <= i < pieces.len() implies exists|r: int| 0 <= r < records.len()
                    && records[r].chunk_index == (#[trigger] pieces[i]).0
                    && sha256_hex_spec(pieces[i].1) == records[r].chunk_hash@ by {
                    if i < n {
                        assert(p[i] == pieces[i]);
                    } else {
                        assert(records[r0].chunk_index == pieces[i].0);
                    }
                }
            },
            Err(e) => {
                match reassemble_spec(p, records) {
                    Err(e2) => {
                        let i = choose|i: int| 0 <= i < p.len() && (#[trigger] p[i]).0 == e2 && (
                            (forall|r: int| 0 <= r < records.len() ==> records[r].chunk_index != e2)
                            || exists|r: int| 0 <= r < records.len() && records[r].chunk_index == e2
                                && sha256_hex_spec(p[i].1) != records[r].chunk_hash@);
                        assert(pieces[i] == p[i]);
                    },
                    Ok(_) => {
                        assert(pieces[n].0 == e);
                        if fr is Some {
                            let r0 = fr->0;
                            assert(records[r0].chunk_index == e);
                        }
                    },
                }
            },
        }
    }
}

/// `true` for chunks that still have to be (re)received.
pub open spec fn is_pending(c: TransferChunk) -> bool {
    c.status == ChunkStatus::Pending || c.status == ChunkStatus::Failed
}

/// The pending list: a chunk still has to be received exactly when it is
/// pending or failed; received and verified chunks never are. One more chunk
/// adds its index at the end exactly in the first case.
pub proof fn lemma_pending_chunks(chunks: Seq<TransferChunk>, c: TransferChunk)
    ensures
        chunks.push(c).filter(|x: TransferChunk| is_pending(x)).map_values(|x: TransferChunk| x.chunk_index)
            == (if c.status == ChunkStatus::Pending || c.status == ChunkStatus::Failed {
            chunks.filter(|x: TransferChunk| is_pending(x)).map_values(|x: TransferChunk| x.chunk_index).push(
                c.chunk_index,
            )
        } else {
            chunks.filter(|x: TransferChunk| is_pending(x)).map_values(|x: TransferChunk| x.chunk_index)
        }),
{
    reveal_with_fuel(Seq::filter, 1);
    assert(chunks.push(c).drop_last() =~= chunks);
    let f = |x: TransferChunk| is_pending(x);
    let g = |x: TransferChunk| x.chunk_index;
    if is_pending(c) {
        assert(chunks.push(c).filter(f) == chunks.filter(f).push(c));
        assert(chunks.filter(f).push(c).map_values(g) =~= chunks.filter(f).map_values(g).push(c.chunk_index));
    } else {
        assert(chunks.push(c).filter(f) == chunks.filter(f));
    }
}

/// Return the indices of chunks that still need to be received.
pub fn pending_chunk_indices(chunks: &[TransferChunk]) -> (r: Vec<u32>)
    ensures
        r@ == chunks@.filter(|c: TransferChunk| is_pending(c)).map_values(|c: TransferChunk| c.chunk_index),
{
    let mut r: Vec<u32> = Vec::new();
    let n = chunks.len();
    for i in 0..n
        invariant
            n == chunks@.len(),
            r@ == chunks@.subrange(0, i as int).filter(|c: TransferChunk| is_pending(c)).map_values(
                |c: TransferChunk| c.chunk_index,
            ),
    {
        proof {
            assert(chunks@.subrange(0, i + 1).drop_last() =~= chunks@.subrange(0, i as int));
            reveal_with_fuel(Seq::filter, 1);
        }
        let c = &chunks[i];
        if c.status == ChunkStatus::Pending || c.status == ChunkStatus::Failed {
            r.push(c.chunk_index);
        }
        assert(r@ =~= chunks@.subrange(0, i + 1).filter(|c: TransferChunk| is_pending(c)).map_values(
            |c: TransferChunk| c.chunk_index,
        ));
    }
    assert(chunks@.subrange(0, n as int) =~= chunks@);
    r
}

} // verus!
