//! Panic wipe coordinator.
//!
//! Key destruction is the first and most critical step.
//! It uses cryptographic erasure: overwriting the key slot bytes with
//! random noise makes all encrypted data permanently unreadable,
//! without waiting for large file deletions.

use vstd::prelude::*;

use rand::RngCore;

use crate::domain::{is_approved_tag, CoreError, EventBucket};
use crate::security::key_slot::{CryptoKeySlot, KeyStatus};

verus! {

/// Fills `buf` with bytes from `rand::thread_rng().fill_bytes`.
/// Claimed: only that the length is unchanged; the bytes are random.
#[verifier::external_body]
pub(crate) fn fill_random(buf: &mut Vec<u8>)
    ensures
        final(buf)@.len() == old(buf)@.len(),
{
    rand::thread_rng().fill_bytes(buf.as_mut_slice());
}

/// A wipe coordinator over in-memory key slots.
///
/// In a real deployment the key slots are loaded from `facade.sqlite`
/// and written back after overwriting.
pub struct KeySlotWipeCoordinator<'a> {
    pub slots: &'a mut Vec<CryptoKeySlot>,
}

impl<'a> KeySlotWipeCoordinator<'a> {
    /// The coordinator's key-destruction hook; the overwrite itself is done by
    /// [`overwrite_all_keys`], which needs mutable access to the slots.
    pub fn destroy_keys(&self) -> (r: Result<(), CoreError>)
        ensures
            r is Ok,
    {
        Ok(())
    }
}

/// `true` for slots whose key material is still live.
pub open spec fn is_live(status: KeyStatus) -> bool {
    status == KeyStatus::Active || status == KeyStatus::Retired
}

/// How `slot` looks after its key material was overwritten: same metadata and
/// key length, status `Destroyed`.
pub open spec fn overwritten(before: CryptoKeySlot, after: CryptoKeySlot) -> bool {
    &&& after.key_id == before.key_id
    &&& after.purpose == before.purpose
    &&& after.wrapped_key@.len() == before.wrapped_key@.len()
    &&& after.alg == before.alg
    &&& after.created_at == before.created_at
    &&& after.rotated_at == before.rotated_at
    &&& after.status == KeyStatus::Destroyed
}

/// Overwrite a key slot's wrapped key bytes with cryptographically random noise
/// and mark it as destroyed.
pub fn overwrite_key_slot(slot: &mut CryptoKeySlot)
    ensures
        overwritten(*old(slot), *final(slot)),
{
    fill_random(&mut slot.wrapped_key);
    slot.status = KeyStatus::Destroyed;
}

/// Number of slots in `slots` with live key material.
pub open spec fn live_count(slots: Seq<CryptoKeySlot>) -> nat {
    slots.filter(|k: CryptoKeySlot| is_live(k.status)).len()
}

/// Overwrite all active and retired key slots.
/// Returns the number of slots destroyed.
pub fn overwrite_all_keys(slots: &mut Vec<CryptoKeySlot>) -> (count: usize)
    ensures
        count == live_count(old(slots)@),
        final(slots)@.len() == old(slots)@.len(),
        forall|i: int| 0 <= i < old(slots)@.len() ==> {
            if is_live(old(slots)@[i].status) {
                overwritten(old(slots)@[i], #[trigger] final(slots)@[i])
            } else {
                final(slots)@[i] == old(slots)@[i]
            }
        },
{
    let ghost orig = slots@;
    let mut count: usize = 0;
    let n = slots.len();
    for i in 0..n
        invariant
            n == orig.len(),
            slots@.len() == n,
            count == live_count(orig.subrange(0, i as int)),
            count <= i,
            forall|j: int| 0 <= j < i ==> {
                if is_live(orig[j].status) {
                    overwritten(orig[j], #[trigger] slots@[j])
                } else {
                    slots@[j] == orig[j]
                }
            },
            forall|j: int| i <= j < n ==> #[trigger] slots@[j] == orig[j],
    {
        proof {
            assert(orig.subrange(0, i + 1).drop_last() =~= orig.subrange(0, i as int));
            reveal_with_fuel(Seq::filter, 1);
        }
        let status = slots[i].status;
        if status == KeyStatus::Active || status == KeyStatus::Retired {
            overwrite_key_slot(&mut slots[i]);
            count = count + 1;
        }
    }
    assert(orig.subrange(0, n as int) =~= orig);
    count
}

/// After a full overwrite no slot holds live key material: no slot is
/// active or retired any more, each formerly active or retired slot is
/// destroyed with its metadata kept, and every other slot is as it was. A
/// repeated wipe therefore destroys nothing more: wiping is idempotent.
pub proof fn lemma_overwrite_all_idempotent(before: Seq<CryptoKeySlot>, after: Seq<CryptoKeySlot>)
    requires
        after.len() == before.len(),
        forall|i: int| 0 <= i < before.len() ==> {
            if is_live(before[i].status) {
                overwritten(before[i], #[trigger] after[i])
            } else {
                after[i] == before[i]
            }
        },
    ensures
        live_count(after) == 0,
        forall|i: int| 0 <= i < after.len() ==> (#[trigger] after[i]).status != KeyStatus::Active
            && after[i].status != KeyStatus::Retired,
        forall|i: int| 0 <= i < after.len() && (before[i].status == KeyStatus::Active
            || before[i].status == KeyStatus::Retired) ==> (#[trigger] after[i]).status == KeyStatus::Destroyed
            && after[i].key_id == before[i].key_id,
        forall|i: int| 0 <= i < after.len() && before[i].status != KeyStatus::Active
            && before[i].status != KeyStatus::Retired ==> #[trigger] after[i] == before[i],
{
    let f = |k: CryptoKeySlot| is_live(k.status);
    assert forall|i: int| 0 <= i < after.len() implies !f(after[i]) by {
        if is_live(before[i].status) {
            assert(overwritten(before[i], after[i]));
        } else {
            assert(after[i] == before[i]);
        }
    }
    lemma_filter_none(after, f);
}

proof fn lemma_filter_none<A>(s: Seq<A>, f: spec_fn(A) -> bool)
    requires
        forall|i: int| 0 <= i < s.len() ==> !f(s[i]),
    ensures
        s.filter(f).len() == 0,
    decreases s.len(),
{
    reveal_with_fuel(Seq::filter, 1);
    if s.len() > 0 {
        lemma_filter_none(s.drop_last(), f);
    }
}

/// The redacted form of a log line: every character but `'\n'` becomes `'*'`.
pub open spec fn redact_spec(input: Seq<char>) -> Seq<char> {
    input.map_values(|c: char| if c == '\n' { '\n' } else { '*' })
}

/// Log-redaction helper: replace all printable characters in a log line
/// with asterisks to prevent module names or user data leaking into logs.
pub fn redact(input: &str) -> (r: String)
    ensures
        r@ == redact_spec(input@),
        r@.len() == input@.len(),
        forall|i: int| 0 <= i < r@.len() ==> (#[trigger] r@[i] == '\n' <==> input@[i] == '\n'),
        forall|i: int| 0 <= i < r@.len() ==> #[trigger] r@[i] == '\n' || r@[i] == '*',
{
    let n = input.unicode_len();
    let mut r = String::new();
    for i in 0..n
        invariant
            n == input@.len(),
            r@ == redact_spec(input@.subrange(0, i as int)),
    {
        let c = input.get_char(i);
        let out = if c == '\n' { c } else { '*' };
        r.push(out);
        assert(r@ =~= redact_spec(input@.subrange(0, i + 1)));
    }
    assert(input@.subrange(0, n as int) =~= input@);
    r
}

/// `true` iff `tag` may be written to the persistent log: it must be one of
/// the approved bucket tags, so it can carry no module names, profile or peer
/// identifiers.
pub fn is_safe_log_tag(tag: &str) -> (r: bool)
    ensures
        r == is_approved_tag(tag@),
{
    EventBucket::is_approved(tag)
}

} // verus!
