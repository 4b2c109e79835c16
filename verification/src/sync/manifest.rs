//! Manifest exchange: compare two inventories and build a transfer plan.
//!
//! The manifest exchange is the first step of every sync session.
//! No object data is transferred until the plan is agreed upon.

use vstd::prelude::*;

use crate::domain::SyncInventoryItem;
use crate::sync::inventory::{has_package, LocalInventory};

verus! {

/// The action to take for one package during a sync.
#[derive(Debug, Clone, Copy, PartialEq, Eq, Structural)]
pub enum SyncAction {
    /// Send this package to the peer.
    Send,
    /// Receive this package from the peer.
    Receive,
    /// Both sides already have the same version; no transfer needed.
    Skip,
    /// Hash mismatch — verify integrity before proceeding.
    VerifyOnly,
}

/// One item in the negotiated sync plan.
#[derive(Debug, Clone)]
pub struct ManifestItem {
    pub package_id: String,
    pub action: SyncAction,
    /// Manifest hash of the local copy (if present).
    pub local_manifest_hash: Option<String>,
    /// Manifest hash of the remote copy (if present).
    pub remote_manifest_hash: Option<String>,
}

/// Position of an action in the plan: Receive, Send, VerifyOnly, Skip.
pub open spec fn action_rank(a: SyncAction) -> int {
    match a {
        SyncAction::Receive => 0,
        SyncAction::Send => 1,
        SyncAction::VerifyOnly => 2,
        SyncAction::Skip => 3,
    }
}

/// The entry for package `id` when inventories list several entries with the
/// same id: the last one counts.
#[verifier::opaque]
pub open spec fn entry_for(items: Seq<SyncInventoryItem>, id: Seq<char>) -> Option<SyncInventoryItem> {
    if has_package(items, id) {
        let i = choose|i: int| 0 <= i < items.len() && items[i].package_id@ == id
            && forall|j: int| i < j < items.len() ==> items[j].package_id@ != id;
        Some(items[i])
    } else {
        None
    }
}

/// The action for a package given its local and remote entries.
pub open spec fn action_for(l: Option<SyncInventoryItem>, r: Option<SyncInventoryItem>) -> SyncAction {
    match (l, r) {
        (Some(li), Some(ri)) => if li.manifest_hash@ == ri.manifest_hash@ {
            SyncAction::Skip
        } else {
            SyncAction::VerifyOnly
        },
        (Some(_), None) => SyncAction::Send,
        (None, Some(_)) => SyncAction::Receive,
        (None, None) => SyncAction::Skip,
    }
}

/// The manifest hash of an optional entry.
pub open spec fn hash_of(e: Option<SyncInventoryItem>) -> Option<String> {
    match e {
        Some(i) => Some(i.manifest_hash),
        None => None,
    }
}

/// `item` is the plan entry for its package id.
pub open spec fn plan_item_ok(item: ManifestItem, local: Seq<SyncInventoryItem>, remote: Seq<SyncInventoryItem>) -> bool {
    let l = entry_for(local, item.package_id@);
    let r = entry_for(remote, item.package_id@);
    &&& item.action == action_for(l, r)
    &&& item.local_manifest_hash == hash_of(l)
    &&& item.remote_manifest_hash == hash_of(r)
}

/// The plan covers each package id of either inventory exactly once, gives
/// each its action and hashes, and lists Receive items first, then Send,
/// VerifyOnly and Skip.
pub open spec fn is_transfer_plan(
    plan: Seq<ManifestItem>,
    local: Seq<SyncInventoryItem>,
    remote: Seq<SyncInventoryItem>,
) -> bool {
    &&& forall|i: int| 0 <= i < plan.len() ==> has_package(local, (#[trigger] plan[i]).package_id@)
        || has_package(remote, plan[i].package_id@)
    &&& forall|id: Seq<char>| has_package(local, id) || has_package(remote, id)
        ==> exists|i: int| 0 <= i < plan.len() && (#[trigger] plan[i]).package_id@ == id
    &&& forall|i: int, j: int| 0 <= i < j < plan.len() ==> (#[trigger] plan[i]).package_id@ != (
    #[trigger] plan[j]).package_id@
    &&& forall|i: int| 0 <= i < plan.len() ==> plan_item_ok(#[trigger] plan[i], local, remote)
    &&& forall|i: int, j: int| 0 <= i <= j < plan.len() ==> action_rank((#[trigger] plan[i]).action)
        <= action_rank((#[trigger] plan[j]).action)
}

/// The action the peer takes for a package when this side takes `a`.
pub open spec fn peer_action(a: SyncAction) -> SyncAction {
    match a {
        SyncAction::Send => SyncAction::Receive,
        SyncAction::Receive => SyncAction::Send,
        other => other,
    }
}

/// The two peers of a sync agree on every package: both plans list the same
/// packages, what one side sends the other receives, both skip or both verify
/// the same packages, and each sees the other's manifest hash as remote.
pub proof fn lemma_peer_plans_agree(
    local: Seq<SyncInventoryItem>,
    remote: Seq<SyncInventoryItem>,
    plan: Seq<ManifestItem>,
    peer_plan: Seq<ManifestItem>,
)
    requires
        is_transfer_plan(plan, local, remote),
        is_transfer_plan(peer_plan, remote, local),
    ensures
        forall|i: int| 0 <= i < plan.len() ==> exists|j: int| 0 <= j < peer_plan.len()
            && (#[trigger] peer_plan[j]).package_id@ == (#[trigger] plan[i]).package_id@,
        forall|i: int, j: int| 0 <= i < plan.len() && 0 <= j < peer_plan.len()
            && (#[trigger] plan[i]).package_id@ == (#[trigger] peer_plan[j]).package_id@ ==> {
            &&& peer_plan[j].action == peer_action(plan[i].action)
            &&& peer_plan[j].local_manifest_hash == plan[i].remote_manifest_hash
            &&& peer_plan[j].remote_manifest_hash == plan[i].local_manifest_hash
        },
{
    assert forall|i: int| 0 <= i < plan.len() implies exists|j: int| 0 <= j < peer_plan.len()
        && (#[trigger] peer_plan[j]).package_id@ == (#[trigger] plan[i]).package_id@ by {
        let id = plan[i].package_id@;
        assert(has_package(remote, id) || has_package(local, id));
    }
    assert forall|i: int, j: int| 0 <= i < plan.len() && 0 <= j < peer_plan.len()
        && (#[trigger] plan[i]).package_id@ == (#[trigger] peer_plan[j]).package_id@ implies {
        &&& peer_plan[j].action == peer_action(plan[i].action)
        &&& peer_plan[j].local_manifest_hash == plan[i].remote_manifest_hash
        &&& peer_plan[j].remote_manifest_hash == plan[i].local_manifest_hash
    } by {
        assert(plan_item_ok(plan[i], local, remote));
        assert(plan_item_ok(peer_plan[j], remote, local));
    }
}

/// What each plan entry says, read off the entry itself. It carries a local
/// manifest hash exactly when the local inventory lists the package, and a
/// remote one exactly when the remote inventory does. A package on both sides
/// is skipped exactly when the two manifest hashes are equal and verified
/// exactly when they differ, whatever the other fields of the two inventory
/// entries say; a package only this side has is sent, and one only the peer
/// has is received. Items come in the order Receive, Send, VerifyOnly, Skip.
pub proof fn lemma_plan_actions(
    plan: Seq<ManifestItem>,
    local: Seq<SyncInventoryItem>,
    remote: Seq<SyncInventoryItem>,
)
    requires
        is_transfer_plan(plan, local, remote),
    ensures
        forall|i: int| 0 <= i < plan.len() ==> {
            let it = #[trigger] plan[i];
            &&& (it.local_manifest_hash is Some <==> has_package(local, it.package_id@))
            &&& (it.remote_manifest_hash is Some <==> has_package(remote, it.package_id@))
            &&& (it.local_manifest_hash matches Some(lh) ==> (it.remote_manifest_hash matches Some(rh) ==> {
                &&& (it.action == SyncAction::Skip <==> lh@ == rh@)
                &&& (it.action == SyncAction::VerifyOnly <==> lh@ != rh@)
            }))
            &&& (it.local_manifest_hash is Some && it.remote_manifest_hash is None
                ==> it.action == SyncAction::Send)
            &&& (it.local_manifest_hash is None && it.remote_manifest_hash is Some
                ==> it.action == SyncAction::Receive)
        },
        forall|i: int, j: int| 0 <= i < j < plan.len() ==> {
            &&& ((#[trigger] plan[j]).action == SyncAction::Receive ==> (#[trigger] plan[i]).action
                == SyncAction::Receive)
            &&& (plan[j].action == SyncAction::Send ==> plan[i].action == SyncAction::Receive
                || plan[i].action == SyncAction::Send)
            &&& (plan[i].action == SyncAction::Skip ==> plan[j].action == SyncAction::Skip)
        },
{
    reveal(entry_for);
    assert forall|i: int| 0 <= i < plan.len() implies {
        let it = #[trigger] plan[i];
        &&& (it.local_manifest_hash is Some <==> has_package(local, it.package_id@))
        &&& (it.remote_manifest_hash is Some <==> has_package(remote, it.package_id@))
    } by {
        assert(plan_item_ok(plan[i], local, remote));
    }
}

/// The last entry of `items` with package id `id`.
fn find_last(items: &Vec<SyncInventoryItem>, id: &String) -> (r: Option<usize>)
    ensures
        match r {
            Some(k) => k < items@.len() && entry_for(items@, id@) == Some(items@[k as int]),
            None => entry_for(items@, id@) is None,
        },
{
    let n = items.len();
    let mut found: Option<usize> = None;
    for i in 0..n
        invariant
            n == items@.len(),
            found is None ==> forall|j: int| 0 <= j < i ==> items@[j].package_id@ != id@,
            found matches Some(k) ==> k < i && items@[k as int].package_id@ == id@ && forall|j: int|
                k < j < i ==> items@[j].package_id@ != id@,
    {
        if items[i].package_id == *id {
            found = Some(i);
        }
    }
    match found {
        Some(k) => {
            proof {
                reveal(entry_for);
                assert(has_package(items@, id@));
                let c = choose|c: int| 0 <= c < items@.len() && items@[c].package_id@ == id@
                    && forall|j: int| c < j < items@.len() ==> items@[j].package_id@ != id@;
                if c < k as int {
                } else if c > k as int {
                }
                assert(c == k as int);
            }
            Some(k)
        },
        None => {
            proof {
                reveal(entry_for);
            }
            None
        },
    }
}

/// `true` iff `id` occurs in `ids`.
pub open spec fn listed(ids: Seq<String>, id: Seq<char>) -> bool {
    exists|i: int| 0 <= i < ids.len() && ids[i]@ == id
}

/// The strings of `ids` are pairwise different.
pub open spec fn distinct_ids(ids: Seq<String>) -> bool {
    forall|i: int, j: int| 0 <= i < j < ids.len() ==> ids[i]@ != ids[j]@
}

/// Whether `id` already occurs in `ids`.
fn contains_id(ids: &Vec<String>, id: &String) -> (r: bool)
    ensures
        r == listed(ids@, id@),
{
    let n = ids.len();
    for i in 0..n
        invariant
            n == ids@.len(),
            forall|j: int| 0 <= j < i ==> ids@[j]@ != id@,
    {
        if ids[i] == *id {
            return true;
        }
    }
    false
}

/// Add the package ids of `items` that are not in `ids` yet.
fn collect_ids(ids: &mut Vec<String>, items: &Vec<SyncInventoryItem>)
    requires
        distinct_ids(old(ids)@),
    ensures
        distinct_ids(final(ids)@),
        forall|i: int| 0 <= i < final(ids)@.len() ==> listed(old(ids)@, (#[trigger] final(ids)@[i])@)
            || has_package(items@, final(ids)@[i]@),
        forall|id: Seq<char>| listed(old(ids)@, id) ==> #[trigger] listed(final(ids)@, id),
        forall|id: Seq<char>| has_package(items@, id) ==> #[trigger] listed(final(ids)@, id),
{
    let ghost orig = ids@;
    let n = items.len();
    for t in 0..n
        invariant
            n == items@.len(),
            orig == old(ids)@,
            distinct_ids(ids@),
            forall|i: int| 0 <= i < ids@.len() ==> listed(orig, (#[trigger] ids@[i])@) || has_package(
                items@,
                ids@[i]@,
            ),
            forall|id: Seq<char>| listed(orig, id) ==> #[trigger] listed(ids@, id),
            forall|q: int| 0 <= q < t ==> #[trigger] listed(ids@, items@[q].package_id@),
    {
        let id = &items[t].package_id;
        if !contains_id(ids, id) {
            let ghost before = ids@;
            ids.push(id.clone());
            proof {
                assert(ids@[before.len() as int]@ == id@);
                assert(has_package(items@, id@));
                assert forall|x: Seq<char>| listed(before, x) implies #[trigger] listed(ids@, x) by {
                    let i = choose|i: int| 0 <= i < before.len() && before[i]@ == x;
                    assert(ids@[i] == before[i]);
                }
                assert forall|i: int| 0 <= i < ids@.len() implies listed(orig, (#[trigger] ids@[i])@)
                    || has_package(items@, ids@[i]@) by {
                    if i < before.len() {
                        assert(ids@[i] == before[i]);
                    }
                }
                assert(listed(ids@, items@[t as int].package_id@));
            }
        }
    }
    proof {
        assert forall|id: Seq<char>| has_package(items@, id) implies #[trigger] listed(ids@, id) by {
            let q = choose|q: int| 0 <= q < items@.len() && items@[q].package_id@ == id;
            assert(listed(ids@, items@[q].package_id@));
        }
    }
}

/// A copy of the manifest hash of entry `k` (if any).
fn hash_at(items: &Vec<SyncInventoryItem>, k: Option<usize>) -> (r: Option<String>)
    requires
        k matches Some(i) ==> i < items@.len(),
    ensures
        match k {
            Some(i) => r == Some(items@[i as int].manifest_hash),
            None => r is None,
        },
{
    match k {
        Some(i) => Some(items[i].manifest_hash.clone()),
        None => None,
    }
}

/// The plan entry for package `id`.
fn plan_item(local: &Vec<SyncInventoryItem>, remote: &Vec<SyncInventoryItem>, id: &String) -> (item: ManifestItem)
    ensures
        item.package_id == *id,
        plan_item_ok(item, local@, remote@),
{
    let l = find_last(local, id);
    let r = find_last(remote, id);
    let action = match (l, r) {
        (Some(li), Some(ri)) => {
            if local[li].manifest_hash == remote[ri].manifest_hash {
                SyncAction::Skip
            } else {
                SyncAction::VerifyOnly
            }
        },
        (Some(_), None) => SyncAction::Send,
        (None, Some(_)) => SyncAction::Receive,
        (None, None) => SyncAction::Skip,
    };
    ManifestItem {
        package_id: id.clone(),
        action,
        local_manifest_hash: hash_at(local, l),
        remote_manifest_hash: hash_at(remote, r),
    }
}

fn rank_of(a: SyncAction) -> (r: u8)
    ensures
        r as int == action_rank(a),
{
    match a {
        SyncAction::Receive => 0,
        SyncAction::Send => 1,
        SyncAction::VerifyOnly => 2,
        SyncAction::Skip => 3,
    }
}

/// The rank of the plan entry of the `t`-th collected id.
pub open spec fn id_rank(ids: Seq<String>, t: int, local: Seq<SyncInventoryItem>, remote: Seq<SyncInventoryItem>) -> int {
    action_rank(action_for(entry_for(local, ids[t]@), entry_for(remote, ids[t]@)))
}

/// Build a transfer plan from two inventories.
///
/// Returns the list of actions that need to happen for the local device to
/// come into parity with the remote. Receive items come first, then Send,
/// then VerifyOnly, then Skip.
pub fn build_transfer_plan(local: &LocalInventory, remote: &LocalInventory) -> (plan: Vec<ManifestItem>)
    ensures
        is_transfer_plan(plan@, local.items@, remote.items@),
{
    let mut ids: Vec<String> = Vec::new();
    collect_ids(&mut ids, &local.items);
    let ghost ids1 = ids@;
    collect_ids(&mut ids, &remote.items);
    let ghost lv = local.items@;
    let ghost rv = remote.items@;
    let ghost iv = ids@;
    proof {
        assert forall|i: int| 0 <= i < iv.len() implies has_package(lv, (#[trigger] iv[i])@) || has_package(rv, iv[i]@) by {
            if !has_package(rv, iv[i]@) {
                assert(listed(ids1, iv[i]@));
                let k = choose|k: int| 0 <= k < ids1.len() && ids1[k]@ == iv[i]@;
                assert(listed(Seq::<String>::empty(), ids1[k]@) || has_package(lv, ids1[k]@));
            }
        }
        assert forall|id: Seq<char>| has_package(lv, id) || has_package(rv, id) implies #[trigger] listed(iv, id) by {
            if has_package(lv, id) {
                assert(listed(ids1, id));
            }
        }
    }

    let mut plan: Vec<ManifestItem> = Vec::new();
    let ghost mut src: Seq<int> = Seq::empty();
    let n = ids.len();
    for r in 0..4u8
        invariant
            n == iv.len(),
            iv == ids@,
            lv == local.items@,
            rv == remote.items@,
            distinct_ids(iv),
            plan@.len() == src.len(),
            forall|i: int| 0 <= i < src.len() ==> 0 <= #[trigger] src[i] < n && plan@[i].package_id == iv[src[i]]
                && plan_item_ok(plan@[i], lv, rv) && id_rank(iv, src[i], lv, rv) < r,
            forall|i: int, j: int| 0 <= i < j < src.len() ==> id_rank(iv, #[trigger] src[i], lv, rv) < id_rank(iv, #[trigger] src[j], lv, rv)
                || (id_rank(iv, src[i], lv, rv) == id_rank(iv, src[j], lv, rv) && src[i] < src[j]),
            forall|t: int| #![trigger id_rank(iv, t, lv, rv)] 0 <= t < n && id_rank(iv, t, lv, rv) < r ==> exists|i: int| 0 <= i < src.len() && #[trigger] src[i] == t,
    {
        for t in 0..n
            invariant
                n == iv.len(),
                iv == ids@,
                lv == local.items@,
                rv == remote.items@,
                r < 4,
                plan@.len() == src.len(),
                forall|i: int| 0 <= i < src.len() ==> 0 <= #[trigger] src[i] < n && plan@[i].package_id == iv[src[i]]
                    && plan_item_ok(plan@[i], lv, rv) && (id_rank(iv, src[i], lv, rv) < r
                    || (id_rank(iv, src[i], lv, rv) == r && src[i] < t)),
                forall|i: int, j: int| 0 <= i < j < src.len() ==> id_rank(iv, #[trigger] src[i], lv, rv) < id_rank(iv, #[trigger] src[j], lv, rv)
                    || (id_rank(iv, src[i], lv, rv) == id_rank(iv, src[j], lv, rv) && src[i] < src[j]),
                forall|q: int| #![trigger id_rank(iv, q, lv, rv)] 0 <= q < n && (id_rank(iv, q, lv, rv) < r || (id_rank(iv, q, lv, rv) == r && q < t))
                    ==> exists|i: int| 0 <= i < src.len() && #[trigger] src[i] == q,
        {
            let item = plan_item(&local.items, &remote.items, &ids[t]);
            if rank_of(item.action) == r {
                let ghost before = src;
                plan.push(item);
                proof {
                    src = src.push(t as int);
                    assert forall|q: int| #![trigger id_rank(iv, q, lv, rv)] 0 <= q < n && (id_rank(iv, q, lv, rv) < r || (id_rank(iv, q, lv, rv) == r && q < t + 1))
                        implies exists|i: int| 0 <= i < src.len() && #[trigger] src[i] == q by {
                        if q == t {
                            assert(src[before.len() as int] == q);
                        } else {
                            let i = choose|i: int| 0 <= i < before.len() && #[trigger] before[i] == q;
                            assert(src[i] == q);
                        }
                    }
                }
            } else {
                proof {
                    assert(id_rank(iv, t as int, lv, rv) != r);
                }
            }
        }
    }
    proof {
        let pv = plan@;
        assert forall|i: int| 0 <= i < pv.len() implies has_package(lv, (#[trigger] pv[i]).package_id@)
            || has_package(rv, pv[i].package_id@) by {
            assert(pv[i].package_id == iv[src[i]]);
        }
        assert forall|id: Seq<char>| has_package(lv, id) || has_package(rv, id) implies exists|i: int|
            0 <= i < pv.len() && (#[trigger] pv[i]).package_id@ == id by {
            assert(listed(iv, id));
            let t = choose|t: int| 0 <= t < iv.len() && iv[t]@ == id;
            assert(id_rank(iv, t, lv, rv) < 4);
            let i = choose|i: int| 0 <= i < src.len() && #[trigger] src[i] == t;
            assert(pv[i].package_id == iv[t]);
        }
        assert forall|i: int, j: int| 0 <= i < j < pv.len() implies (#[trigger] pv[i]).package_id@ != (
        #[trigger] pv[j]).package_id@ by {
            assert(src[i] != src[j]);
            assert(pv[i].package_id == iv[src[i]]);
            assert(pv[j].package_id == iv[src[j]]);
        }
        assert forall|i: int, j: int| 0 <= i <= j < pv.len() implies action_rank((#[trigger] pv[i]).action)
            <= action_rank((#[trigger] pv[j]).action) by {
            assert(pv[i].package_id == iv[src[i]]);
            assert(pv[j].package_id == iv[src[j]]);
            assert(plan_item_ok(pv[i], lv, rv));
            assert(plan_item_ok(pv[j], lv, rv));
        }
        assert forall|i: int| 0 <= i < pv.len() implies plan_item_ok(#[trigger] pv[i], lv, rv) by {
            assert(0 <= src[i] < n);
        }
    }
    plan
}

} // verus!
