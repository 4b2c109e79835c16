//! Transport descriptions for offline sync.
//!
//! The sync protocol never depends on how bytes move; a transport only needs
//! to exchange inventories and objects. The local filesystem transport uses a
//! shared staging directory as the channel between two devices: each side
//! writes `<side>_inventory.json` there and objects are staged under
//! `objects/<hash>`.

use vstd::prelude::*;

use crate::text::{join_path, path_join, str_eq};

verus! {

/// An object found in the peer's inventory.
#[derive(Debug, Clone)]
pub struct RemoteObject {
    pub object_hash: String,
    pub byte_size: u64,
}

/// Local filesystem sync transport: a staging directory shared by side `"a"`
/// and side `"b"`.
#[derive(Debug, Clone)]
pub struct LocalFsTransport {
    /// Shared staging directory used as the channel.
    staging_dir: String,
    /// This device's side tag.
    side: &'static str,
    /// The peer's side tag.
    peer: &'static str,
}

/// The peer of `side`: `"b"` for `"a"`, `"a"` for anything else.
pub open spec fn peer_of(side: Seq<char>) -> Seq<char> {
    if side == "a"@ { "b"@ } else { "a"@ }
}

/// The name of the inventory file written by side `who`.
pub open spec fn inventory_file_name(who: Seq<char>) -> Seq<char> {
    who + "_inventory.json"@
}

/// The two sides of a staging directory read each other's files: the peer of
/// either side is the other side, the peer's peer is the side itself, and the
/// two sides write inventory files under different names, so what one side
/// writes as its own is exactly what the other reads as its peer's.
pub proof fn lemma_sides_pair_up(side: Seq<char>)
    requires
        side == "a"@ || side == "b"@,
    ensures
        peer_of(side) != side,
        peer_of(side) == "a"@ || peer_of(side) == "b"@,
        peer_of(peer_of(side)) == side,
        inventory_file_name(side) != inventory_file_name(peer_of(side)),
{
    reveal_strlit("a");
    reveal_strlit("b");
    let other = peer_of(side);
    assert(inventory_file_name(side)[0] == side[0]);
    assert(inventory_file_name(other)[0] == other[0]);
}

impl LocalFsTransport {
    /// The staging directory.
    pub closed spec fn dir_view(&self) -> Seq<char> {
        self.staging_dir@
    }

    /// This device's side tag.
    pub closed spec fn side_view(&self) -> Seq<char> {
        self.side@
    }

    /// The peer's side tag.
    pub closed spec fn peer_view(&self) -> Seq<char> {
        self.peer@
    }

    /// A transport for side `side` over `staging_dir`; the peer is the other
    /// side. (Creating the directory is the caller's I/O.)
    pub fn new(staging_dir: String, side: &'static str) -> (t: Self)
        ensures
            t.dir_view() == staging_dir@,
            t.side_view() == side@,
            t.peer_view() == peer_of(side@),
    {
        let peer = if str_eq(side, "a") { "b" } else { "a" };
        LocalFsTransport { staging_dir, side, peer }
    }

    /// Human-readable transport name for logging.
    pub fn name(&self) -> (r: &'static str)
        ensures
            r@ == "local-fs"@,
    {
        "local-fs"
    }

    /// The staging directory.
    pub fn staging_dir(&self) -> (r: &str)
        ensures
            r@ == self.dir_view(),
    {
        self.staging_dir.as_str()
    }

    /// Where side `who` writes its inventory: `<staging>/<who>_inventory.json`.
    pub fn inventory_path(&self, who: &str) -> (p: String)
        ensures
            p@ == path_join(self.dir_view(), inventory_file_name(who@)),
    {
        let mut name = who.to_owned();
        name.push_str("_inventory.json");
        join_path(self.staging_dir.as_str(), name.as_str())
    }

    /// Where a staged object lives: `<staging>/objects/<hash>`.
    pub fn object_path(&self, hash: &str) -> (p: String)
        ensures
            p@ == path_join(path_join(self.dir_view(), "objects"@), hash@),
    {
        let dir = join_path(self.staging_dir.as_str(), "objects");
        join_path(dir.as_str(), hash)
    }

    /// File name (inside the staging directory) of this side's inventory.
    pub fn own_inventory_file(&self) -> (r: String)
        ensures
            r@ == inventory_file_name(self.side_view()),
    {
        let mut r = self.side.to_owned();
        r.push_str("_inventory.json");
        r
    }

    /// File name (inside the staging directory) of the peer's inventory.
    pub fn peer_inventory_file(&self) -> (r: String)
        ensures
            r@ == inventory_file_name(self.peer_view()),
    {
        let mut r = self.peer.to_owned();
        r.push_str("_inventory.json");
        r
    }
}

} // verus!
