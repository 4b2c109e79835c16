//! Sync inventory: local catalogue of installed packages for peer comparison.
//!
//! During a sync session, both devices exchange their inventory so that
//! each can compute what the other is missing. No package content is
//! exchanged at this stage — only hashes and version strings.

use vstd::prelude::*;
use vstd::utf8::encode_utf8;

use crate::domain::SyncInventoryItem;
use crate::security::hash::{sha256_hex, sha256_hex_spec};
use crate::text::{chars_le, join, lemma_str_order_total, str_le, str_order};
use vstd::relations::sorted_by;

verus! {

/// A local inventory snapshot ready to share with a peer.
#[derive(Debug, Clone)]
pub struct LocalInventory {
    /// Packages available on this device.
    pub items: Vec<SyncInventoryItem>,
    /// Hash of the sorted manifest hashes, for quick equality checks.
    pub snapshot_hash: String,
}

/// Insert `x` after every string that sorts before or equal to it.
pub open spec fn insert_sorted(x: Seq<char>, s: Seq<Seq<char>>) -> Seq<Seq<char>>
    decreases s.len(),
{
    if s.len() == 0 {
        seq![x]
    } else if chars_le(s.last(), x) {
        s.push(x)
    } else {
        insert_sorted(x, s.drop_last()).push(s.last())
    }
}

/// `s` in ascending lexicographic order.
pub open spec fn sort_strings(s: Seq<Seq<char>>) -> Seq<Seq<char>>
    decreases s.len(),
{
    if s.len() == 0 {
        s
    } else {
        insert_sorted(s.last(), sort_strings(s.drop_last()))
    }
}

/// The character views of string slices.
pub open spec fn str_views(s: Seq<&str>) -> Seq<Seq<char>> {
    s.map_values(|x: &str| x@)
}

/// The manifest hashes of `items`, in order.
pub open spec fn manifest_hashes(items: Seq<SyncInventoryItem>) -> Seq<Seq<char>> {
    items.map_values(|i: SyncInventoryItem| i.manifest_hash@)
}

/// Both inventories list exactly the same package ids.
pub open spec fn same_package_ids(a: Seq<SyncInventoryItem>, b: Seq<SyncInventoryItem>) -> bool {
    forall|id: Seq<char>| has_package(a, id) <==> has_package(b, id)
}

/// Every package id of `a` is listed in `b`.
pub open spec fn all_listed_spec(a: Seq<SyncInventoryItem>, b: Seq<SyncInventoryItem>) -> bool {
    forall|i: int| 0 <= i < a.len() ==> has_package(b, (#[trigger] a[i]).package_id@)
}

fn all_listed_in(a: &Vec<SyncInventoryItem>, b: &Vec<SyncInventoryItem>) -> (r: bool)
    ensures
        r == all_listed_spec(a@, b@),
{
    let n = a.len();
    for i in 0..n
        invariant
            n == a@.len(),
            forall|j: int| 0 <= j < i ==> has_package(b@, (#[trigger] a@[j]).package_id@),
    {
        if !contains_package(b, a[i].package_id.as_str()) {
            return false;
        }
    }
    true
}

/// The snapshot hash of an inventory: SHA-256 (lowercase hex) of the UTF-8
/// bytes of the sorted manifest hashes joined by `|`.
pub open spec fn inventory_hash_spec(items: Seq<SyncInventoryItem>) -> Seq<char> {
    sha256_hex_spec(encode_utf8(join(sort_strings(manifest_hashes(items)), "|"@)))
}

/// `true` iff some item of `items` has package id `id`.
pub open spec fn has_package(items: Seq<SyncInventoryItem>, id: Seq<char>) -> bool {
    exists|i: int| 0 <= i < items.len() && items[i].package_id@ == id
}

/// The items of `remote` whose package id does not occur in `local`, in order.
pub open spec fn missing_spec(local: Seq<SyncInventoryItem>, remote: Seq<SyncInventoryItem>) -> Seq<SyncInventoryItem> {
    remote.filter(|it: SyncInventoryItem| !has_package(local, it.package_id@))
}

proof fn lemma_insert_sorted_at(x: Seq<char>, s: Seq<Seq<char>>, j: int)
    requires
        0 <= j <= s.len(),
        forall|m: int| j <= m < s.len() ==> !chars_le(#[trigger] s[m], x),
        j > 0 ==> chars_le(s[j - 1], x),
    ensures
        insert_sorted(x, s) == s.insert(j, x),
    decreases s.len() - j,
{
    if j == s.len() {
        if s.len() == 0 {
            assert(s.insert(j, x) =~= seq![x]);
        } else {
            assert(s.insert(j, x) =~= s.push(x));
        }
    } else {
        lemma_insert_sorted_at(x, s.drop_last(), j);
        assert(s.drop_last().insert(j, x).push(s.last()) =~= s.insert(j, x));
    }
}

proof fn lemma_insert_sorted_props(x: Seq<char>, s: Seq<Seq<char>>)
    requires
        sorted_by(s, str_order()),
        vstd::relations::total_ordering(str_order()),
    ensures
        sorted_by(insert_sorted(x, s), str_order()),
        insert_sorted(x, s).to_multiset() == s.to_multiset().insert(x),
    decreases s.len(),
{
    broadcast use vstd::seq_lib::group_to_multiset_ensures;

    let r = str_order();
    if s.len() == 0 {
        assert(seq![x] =~= Seq::<Seq<char>>::empty().push(x));
    } else if chars_le(s.last(), x) {
        assert forall|i: int, j: int| 0 <= i < j < s.push(x).len() implies #[trigger] r(s.push(x)[i], s.push(x)[j]) by {
            if j == s.len() {
                if i < s.len() - 1 {
                    assert(r(s[i], s[s.len() - 1]));
                }
                assert(r(s.last(), x));
            }
        }
    } else {
        let init = s.drop_last();
        let last = s.last();
        assert(sorted_by(init, r)) by {
            assert forall|i: int, j: int| 0 <= i < j < init.len() implies #[trigger] r(init[i], init[j]) by {
                assert(r(s[i], s[j]));
            }
        }
        lemma_insert_sorted_props(x, init);
        let t = insert_sorted(x, init);
        assert(r(last, x) || r(x, last));
        assert(!r(last, x));
        assert(r(x, last));
        assert forall|k: int| 0 <= k < t.len() implies #[trigger] r(t[k], last) by {
            assert(t.to_multiset().count(t[k]) > 0);
            if t[k] != x {
                assert(init.to_multiset().count(t[k]) > 0);
                assert(init.contains(t[k]));
                let m = choose|m: int| 0 <= m < init.len() && init[m] == t[k];
                assert(r(s[m], s[s.len() - 1]));
            }
        }
        assert forall|i: int, j: int| 0 <= i < j < t.push(last).len() implies #[trigger] r(t.push(last)[i], t.push(last)[j]) by {
            if j == t.len() {
                assert(r(t[i], last));
            }
        }
        assert(s =~= init.push(last));
        assert(t.push(last).to_multiset() =~= s.to_multiset().insert(x));
    }
}

/// `sort_strings` sorts: its result is in ascending order and holds the same
/// strings as its input.
pub proof fn lemma_sort_strings_sorts(s: Seq<Seq<char>>)
    ensures
        sorted_by(sort_strings(s), str_order()),
        sort_strings(s).to_multiset() == s.to_multiset(),
    decreases s.len(),
{
    broadcast use vstd::seq_lib::group_to_multiset_ensures;

    lemma_str_order_total();
    if s.len() > 0 {
        lemma_sort_strings_sorts(s.drop_last());
        lemma_insert_sorted_props(s.last(), sort_strings(s.drop_last()));
        assert(s =~= s.drop_last().push(s.last()));
    } else {
        assert(s.to_multiset() =~= sort_strings(s).to_multiset());
    }
}

/// The snapshot hash does not depend on the order in which packages are
/// listed: two inventories holding the same manifest hashes (with the same
/// multiplicities) have the same snapshot hash.
pub proof fn lemma_snapshot_hash_order_independent(a: Seq<SyncInventoryItem>, b: Seq<SyncInventoryItem>)
    requires
        manifest_hashes(a).to_multiset() == manifest_hashes(b).to_multiset(),
    ensures
        inventory_hash_spec(a) == inventory_hash_spec(b),
{
    lemma_str_order_total();
    lemma_sort_strings_sorts(manifest_hashes(a));
    lemma_sort_strings_sorts(manifest_hashes(b));
    vstd::seq_lib::lemma_sorted_unique(
        sort_strings(manifest_hashes(a)),
        sort_strings(manifest_hashes(b)),
        str_order(),
    );
}

/// What is missing from `local`: every item of `remote` whose package id
/// `local` does not list, in `remote`'s order, and nothing else. An item is
/// reported exactly when it is in `remote` and its id is absent from `local`;
/// when both inventories list the same package ids nothing is missing.
pub proof fn lemma_missing_items(local: Seq<SyncInventoryItem>, remote: Seq<SyncInventoryItem>)
    ensures
        forall|x: SyncInventoryItem| #[trigger] missing_spec(local, remote).contains(x)
            <==> remote.contains(x) && !has_package(local, x.package_id@),
        missing_spec(local, remote).len() <= remote.len(),
        same_package_ids(local, remote) ==> missing_spec(local, remote).len() == 0,
{
    broadcast use vstd::seq_lib::group_filter_ensures;

    let pred = |it: SyncInventoryItem| !has_package(local, it.package_id@);
    assert forall|x: SyncInventoryItem| #[trigger] missing_spec(local, remote).contains(x)
        implies remote.contains(x) && !has_package(local, x.package_id@) by {
        let k = choose|k: int| 0 <= k < remote.filter(pred).len() && remote.filter(pred)[k] == x;
        assert(pred(remote.filter(pred)[k]));
        remote.lemma_filter_contains_rev(pred, x);
    }
    assert forall|x: SyncInventoryItem| remote.contains(x) && !has_package(local, x.package_id@)
        implies #[trigger] missing_spec(local, remote).contains(x) by {
        let k = choose|k: int| 0 <= k < remote.len() && remote[k] == x;
        remote.lemma_filter_contains(pred, k);
    }
    if same_package_ids(local, remote) {
        assert forall|k: int| 0 <= k < remote.len() implies !pred(#[trigger] remote[k]) by {
            assert(has_package(remote, remote[k].package_id@));
        }
        remote.lemma_all_neg_filter_empty(pred);
    }
}

/// Sort string slices ascending (insertion sort).
fn sort_strs<'a>(v: Vec<&'a str>) -> (r: Vec<&'a str>)
    ensures
        str_views(r@) == sort_strings(str_views(v@)),
{
    let ghost input = str_views(v@);
    let mut sorted: Vec<&'a str> = Vec::new();
    let n = v.len();
    for i in 0..n
        invariant
            n == v@.len(),
            input == str_views(v@),
            str_views(sorted@) == sort_strings(input.subrange(0, i as int)),
    {
        let x = v[i];
        let ghost sv = str_views(sorted@);
        let mut j = sorted.len();
        while j > 0 && !str_le(sorted[j - 1], x)
            invariant
                j <= sorted@.len(),
                sv == str_views(sorted@),
                forall|m: int| j <= m < sv.len() ==> !chars_le(#[trigger] sv[m], x@),
            decreases j,
        {
            j = j - 1;
        }
        proof {
            assert(input.subrange(0, i + 1).drop_last() =~= input.subrange(0, i as int));
            assert(input.subrange(0, i + 1).last() == x@);
            lemma_insert_sorted_at(x@, sv, j as int);
        }
        sorted.insert(j, x);
        assert(str_views(sorted@) =~= sv.insert(j as int, x@));
    }
    assert(input.subrange(0, n as int) =~= input);
    sorted
}

/// `sep`-join string slices.
fn join_strs(parts: &Vec<&str>, sep: &str) -> (r: String)
    ensures
        r@ == join(str_views(parts@), sep@),
{
    let ghost views = str_views(parts@);
    let mut r = String::new();
    let n = parts.len();
    for i in 0..n
        invariant
            n == parts@.len(),
            views == str_views(parts@),
            r@ == join(views.subrange(0, i as int), sep@),
    {
        proof {
            assert(views.subrange(0, i + 1).drop_last() =~= views.subrange(0, i as int));
        }
        if i != 0 {
            r.append(sep);
        }
        r.append(parts[i]);
        proof {
            if i == 0 {
                assert(r@ =~= join(views.subrange(0, 1), sep@));
            }
        }
    }
    assert(views.subrange(0, n as int) =~= views);
    r
}

/// Compute a deterministic SHA-256 hash of the sorted inventory for quick
/// equality checks without full comparison.
fn compute_inventory_hash(items: &Vec<SyncInventoryItem>) -> (r: String)
    ensures
        r@ == inventory_hash_spec(items@),
{
    let mut hashes: Vec<&str> = Vec::new();
    let n = items.len();
    for i in 0..n
        invariant
            n == items@.len(),
            hashes@.len() == i,
            str_views(hashes@) == manifest_hashes(items@.subrange(0, i as int)),
    {
        let ghost before = hashes@;
        let h = items[i].manifest_hash.as_str();
        assert(h@ == items@[i as int].manifest_hash@);
        hashes.push(h);
        assert(hashes@ == before.push(h));
        assert forall|k: int| 0 <= k <= i implies #[trigger] str_views(hashes@)[k]
            == manifest_hashes(items@.subrange(0, i + 1))[k] by {
            if k < i {
                assert(hashes@[k] == before[k]);
                assert(str_views(before)[k] == manifest_hashes(items@.subrange(0, i as int))[k]);
            }
        }
        assert(str_views(hashes@) =~= manifest_hashes(items@.subrange(0, i + 1)));
    }
    assert(items@.subrange(0, n as int) =~= items@);
    let sorted = sort_strs(hashes);
    let joined = join_strs(&sorted, "|");
    let bytes = joined.as_str().as_bytes();
    sha256_hex(bytes)
}

/// A field-by-field copy of an inventory item.
fn copy_item(it: &SyncInventoryItem) -> (r: SyncInventoryItem)
    ensures
        r == *it,
{
    SyncInventoryItem {
        package_id: it.package_id.clone(),
        version_string: it.version_string.clone(),
        manifest_hash: it.manifest_hash.clone(),
        locally_available: it.locally_available,
    }
}

/// Whether some item of `items` has package id `id`.
fn contains_package(items: &Vec<SyncInventoryItem>, id: &str) -> (r: bool)
    ensures
        r == has_package(items@, id@),
{
    let n = items.len();
    for i in 0..n
        invariant
            n == items@.len(),
            forall|j: int| 0 <= j < i ==> items@[j].package_id@ != id@,
    {
        if items[i].package_id.as_str().to_owned() == id.to_owned() {
            return true;
        }
    }
    false
}

impl LocalInventory {
    /// Build from a list of installed (package_id, version, manifest_hash) triples.
    pub fn build(packages: Vec<(String, String, String)>) -> (inv: Self)
        ensures
            inv.items@.len() == packages@.len(),
            forall|i: int| 0 <= i < packages@.len() ==> {
                &&& (#[trigger] inv.items@[i]).package_id == packages@[i].0
                &&& inv.items@[i].version_string == packages@[i].1
                &&& inv.items@[i].manifest_hash == packages@[i].2
                &&& inv.items@[i].locally_available
            },
            inv.snapshot_hash@ == inventory_hash_spec(inv.items@),
    {
        let mut items: Vec<SyncInventoryItem> = Vec::new();
        let n = packages.len();
        for i in 0..n
            invariant
                n == packages@.len(),
                items@.len() == i,
                forall|j: int| 0 <= j < i ==> {
                    &&& (#[trigger] items@[j]).package_id == packages@[j].0
                    &&& items@[j].version_string == packages@[j].1
                    &&& items@[j].manifest_hash == packages@[j].2
                    &&& items@[j].locally_available
                },
        {
            let p = &packages[i];
            items.push(SyncInventoryItem {
                package_id: p.0.clone(),
                version_string: p.1.clone(),
                manifest_hash: p.2.clone(),
                locally_available: true,
            });
        }
        let snapshot_hash = compute_inventory_hash(&items);
        LocalInventory { items, snapshot_hash }
    }

    /// Compute which items in `remote` are absent from this inventory.
    pub fn missing_from_remote(&self, remote: &LocalInventory) -> (r: Vec<SyncInventoryItem>)
        ensures
            r@ == missing_spec(self.items@, remote.items@),
    {
        let mut r: Vec<SyncInventoryItem> = Vec::new();
        let n = remote.items.len();
        for i in 0..n
            invariant
                n == remote.items@.len(),
                r@ == missing_spec(self.items@, remote.items@.subrange(0, i as int)),
        {
            proof {
                assert(remote.items@.subrange(0, i + 1).drop_last() =~= remote.items@.subrange(0, i as int));
                reveal_with_fuel(Seq::filter, 1);
            }
            let it = &remote.items[i];
            if !contains_package(&self.items, it.package_id.as_str()) {
                r.push(copy_item(it));
            }
        }
        assert(remote.items@.subrange(0, n as int) =~= remote.items@);
        r
    }

    /// Items this device has that the remote is missing.
    pub fn missing_from_local(&self, remote: &LocalInventory) -> (r: Vec<SyncInventoryItem>)
        ensures
            r@ == missing_spec(remote.items@, self.items@),
    {
        remote.missing_from_remote(self)
    }

    /// Returns `true` if both inventories contain the same set of package IDs.
    pub fn is_in_sync_with(&self, remote: &LocalInventory) -> (r: bool)
        ensures
            r == same_package_ids(self.items@, remote.items@),
    {
        let r = all_listed_in(&self.items, &remote.items) && all_listed_in(&remote.items, &self.items);
        proof {
            if r {
                assert forall|id: Seq<char>| has_package(self.items@, id) <==> has_package(remote.items@, id) by {
                    if has_package(self.items@, id) {
                        let i = choose|i: int| 0 <= i < self.items@.len() && self.items@[i].package_id@ == id;
                        assert(has_package(remote.items@, self.items@[i].package_id@));
                    }
                    if has_package(remote.items@, id) {
                        let i = choose|i: int| 0 <= i < remote.items@.len() && remote.items@[i].package_id@ == id;
                        assert(has_package(self.items@, remote.items@[i].package_id@));
                    }
                }
            } else {
                if same_package_ids(self.items@, remote.items@) {
                    if !all_listed_spec(self.items@, remote.items@) {
                        let i = choose|i: int| 0 <= i < self.items@.len() && !has_package(remote.items@, self.items@[i].package_id@);
                        assert(has_package(self.items@, self.items@[i].package_id@));
                    } else {
                        let i = choose|i: int| 0 <= i < remote.items@.len() && !has_package(self.items@, remote.items@[i].package_id@);
                        assert(has_package(remote.items@, remote.items@[i].package_id@));
                    }
                }
            }
        }
        r
    }
}

} // verus!
