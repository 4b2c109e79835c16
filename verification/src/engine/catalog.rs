//! Dashboard catalog model.
//!
//! The dashboard shows two pillars (Shield / Spear) with module tiles.
//! Each tile carries a progress badge and a completion indicator.
//! No network calls; all data comes from local storage.

use vstd::prelude::*;

use crate::domain::{CurriculumAxis, Module, ModuleStatus};
use crate::text::{has_prefix, starts_with};

verus! {

/// Progress badge on a module tile.
#[derive(Debug, Clone, Copy, PartialEq, Eq, Structural)]
pub enum ProgressBadge {
    /// Module is available but the learner has not started it.
    NotStarted,
    /// Learning is in progress; carries completed/total step counts.
    InProgress { completed: u32, total: u32 },
    /// All lessons completed.
    Completed,
    /// Package was quarantined or is otherwise unavailable.
    Unavailable,
}

/// A single tile in the module catalog.
#[derive(Debug, Clone)]
pub struct ModuleTile {
    pub module_id: String,
    pub axis: CurriculumAxis,
    /// Localization key for the title.
    pub title_key: String,
    /// Localization key for the short description.
    pub description_key: String,
    pub progress: ProgressBadge,
    /// Estimated minutes to complete (for UI display).
    pub estimated_minutes: Option<u16>,
}

/// The two-pillar dashboard view model.
#[derive(Debug, Clone)]
pub struct DashboardView {
    pub shield_tiles: Vec<ModuleTile>,
    pub spear_tiles: Vec<ModuleTile>,
}

/// All tiles, Shield first, then Spear.
pub open spec fn all_tiles_spec(d: DashboardView) -> Seq<ModuleTile> {
    d.shield_tiles@ + d.spear_tiles@
}

/// Number of tiles with a `Completed` badge.
pub open spec fn completed_tiles(tiles: Seq<ModuleTile>) -> nat {
    tiles.filter(|t: ModuleTile| t.progress == ProgressBadge::Completed).len()
}

/// Index of the first tile whose module id is `id`, if any.
pub open spec fn first_tile_index(tiles: Seq<ModuleTile>, id: Seq<char>) -> Option<int> {
    if exists|i: int| 0 <= i < tiles.len() && tiles[i].module_id@ == id {
        Some(choose|i: int| 0 <= i < tiles.len() && tiles[i].module_id@ == id
            && forall|j: int| 0 <= j < i ==> tiles[j].module_id@ != id)
    } else {
        None
    }
}

impl DashboardView {
    /// A dashboard with the given Shield and Spear tiles.
    pub fn new(shield: Vec<ModuleTile>, spear: Vec<ModuleTile>) -> (d: Self)
        ensures
            d.shield_tiles == shield,
            d.spear_tiles == spear,
    {
        DashboardView { shield_tiles: shield, spear_tiles: spear }
    }

    /// All tiles across both axes.
    pub fn all_tiles(&self) -> (r: Vec<&ModuleTile>)
        ensures
            r@.len() == all_tiles_spec(*self).len(),
            forall|i: int| 0 <= i < r@.len() ==> *r@[i] == all_tiles_spec(*self)[i],
    {
        let mut r: Vec<&ModuleTile> = Vec::new();
        let ns = self.shield_tiles.len();
        for i in 0..ns
            invariant
                ns == self.shield_tiles@.len(),
                r@.len() == i,
                forall|k: int| 0 <= k < i ==> *r@[k] == self.shield_tiles@[k],
        {
            r.push(&self.shield_tiles[i]);
        }
        let np = self.spear_tiles.len();
        for i in 0..np
            invariant
                ns == self.shield_tiles@.len(),
                np == self.spear_tiles@.len(),
                r@.len() == ns + i,
                forall|k: int| 0 <= k < ns ==> *r@[k] == self.shield_tiles@[k],
                forall|k: int| 0 <= k < i ==> *r@[ns + k] == self.spear_tiles@[k],
        {
            r.push(&self.spear_tiles[i]);
        }
        r
    }

    /// Find a tile by module_id (the first match, Shield before Spear).
    pub fn tile(&self, module_id: &str) -> (r: Option<&ModuleTile>)
        ensures
            match first_tile_index(all_tiles_spec(*self), module_id@) {
                Some(i) => r is Some && *r->0 == all_tiles_spec(*self)[i],
                None => r is None,
            },
    {
        let tiles = self.all_tiles();
        let ghost all = all_tiles_spec(*self);
        let n = tiles.len();
        for i in 0..n
            invariant
                n == tiles@.len(),
                n == all.len(),
                all == all_tiles_spec(*self),
                forall|k: int| 0 <= k < n ==> *tiles@[k] == all[k],
                forall|j: int| 0 <= j < i ==> all[j].module_id@ != module_id@,
        {
            let t = tiles[i];
            if t.module_id.as_str().to_owned() == module_id.to_owned() {
                proof {
                    let w = i as int;
                    assert(0 <= w < all.len() && all[w].module_id@ == module_id@);
                    let c = choose|c: int| 0 <= c < all.len() && all[c].module_id@ == module_id@
                        && forall|j: int| 0 <= j < c ==> all[j].module_id@ != module_id@;
                    assert(0 <= c < all.len() && all[c].module_id@ == module_id@
                        && forall|j: int| 0 <= j < c ==> all[j].module_id@ != module_id@);
                    if c < w {
                    } else if w < c {
                    }
                    assert(c == w);
                }
                return Some(t);
            }
        }
        None
    }

    /// Count of completed modules across both axes.
    pub fn completed_count(&self) -> (r: usize)
        ensures
            r == completed_tiles(all_tiles_spec(*self)),
    {
        let tiles = self.all_tiles();
        let ghost all = all_tiles_spec(*self);
        let n = tiles.len();
        let mut count: usize = 0;
        for i in 0..n
            invariant
                n == tiles@.len(),
                n == all.len(),
                all == all_tiles_spec(*self),
                forall|k: int| 0 <= k < n ==> *tiles@[k] == all[k],
                count == completed_tiles(all.subrange(0, i as int)),
                count <= i,
        {
            proof {
                assert(all.subrange(0, i + 1).drop_last() =~= all.subrange(0, i as int));
                reveal_with_fuel(Seq::filter, 1);
            }
            if tiles[i].progress == ProgressBadge::Completed {
                count = count + 1;
            }
        }
        assert(all.subrange(0, n as int) =~= all);
        count
    }
}

/// The completed count counts completed tiles and nothing else: no tiles
/// count zero, and one more tile adds one exactly when its badge is
/// `Completed`, whatever the other badges are.
pub proof fn lemma_completed_count_counts(tiles: Seq<ModuleTile>, t: ModuleTile)
    ensures
        completed_tiles(Seq::<ModuleTile>::empty()) == 0,
        completed_tiles(tiles.push(t)) == completed_tiles(tiles) + (if t.progress == ProgressBadge::Completed {
            1int
        } else {
            0int
        }),
        completed_tiles(tiles) <= tiles.len(),
{
    reveal_with_fuel(Seq::filter, 1);
    assert(tiles.push(t).drop_last() =~= tiles);
    broadcast use vstd::seq_lib::group_filter_ensures;
}

/// The badge for a module with the given status and step counts.
pub open spec fn badge_spec(status: ModuleStatus, completed_steps: u32, total_steps: u32) -> ProgressBadge {
    match status {
        ModuleStatus::Quarantined | ModuleStatus::Disabled => ProgressBadge::Unavailable,
        _ => if completed_steps == 0 {
            ProgressBadge::NotStarted
        } else if completed_steps >= total_steps && total_steps > 0 {
            ProgressBadge::Completed
        } else {
            ProgressBadge::InProgress { completed: completed_steps, total: total_steps }
        },
    }
}

/// The badge rules. A quarantined or disabled module is always shown as
/// unavailable, whatever its step counts, and no other module ever is. For an
/// available or partial module: no completed step means not started; at least
/// one completed step and all of a non-empty lesson set done means completed;
/// anything else is in progress and carries the two counts as given.
pub proof fn lemma_badge_rules(status: ModuleStatus, completed_steps: u32, total_steps: u32)
    ensures
        (status == ModuleStatus::Quarantined || status == ModuleStatus::Disabled)
            <==> badge_spec(status, completed_steps, total_steps) == ProgressBadge::Unavailable,
        status != ModuleStatus::Quarantined && status != ModuleStatus::Disabled ==> {
            &&& completed_steps == 0 <==> badge_spec(status, completed_steps, total_steps)
                == ProgressBadge::NotStarted
            &&& (completed_steps > 0 && total_steps > 0 && completed_steps >= total_steps)
                <==> badge_spec(status, completed_steps, total_steps) == ProgressBadge::Completed
            &&& (completed_steps > 0 && (total_steps == 0 || completed_steps < total_steps))
                ==> badge_spec(status, completed_steps, total_steps) == (ProgressBadge::InProgress {
                    completed: completed_steps,
                    total: total_steps,
                })
        },
{
}

/// The pillar of a category: `shield*` categories are Shield, all others Spear.
pub open spec fn axis_of_category(category_id: Seq<char>) -> CurriculumAxis {
    if has_prefix(category_id, "shield"@) {
        CurriculumAxis::Shield
    } else {
        CurriculumAxis::Spear
    }
}

/// Pillars by category: a category belongs to the Shield pillar exactly when
/// its id begins with the six characters `shield`; every other category,
/// the empty one included, belongs to the Spear pillar.
pub proof fn lemma_axis_rule(category_id: Seq<char>)
    ensures
        axis_of_category(category_id) == CurriculumAxis::Shield <==> (category_id.len() >= 6
            && category_id[0] == 's' && category_id[1] == 'h' && category_id[2] == 'i'
            && category_id[3] == 'e' && category_id[4] == 'l' && category_id[5] == 'd'),
        axis_of_category(category_id) == CurriculumAxis::Shield || axis_of_category(category_id)
            == CurriculumAxis::Spear,
{
    reveal_strlit("shield");
    if category_id.len() >= 6 {
        let t = category_id.subrange(0, 6);
        assert(t[0] == category_id[0] && t[1] == category_id[1] && t[2] == category_id[2]
            && t[3] == category_id[3] && t[4] == category_id[4] && t[5] == category_id[5]);
        if category_id[0] == 's' && category_id[1] == 'h' && category_id[2] == 'i'
            && category_id[3] == 'e' && category_id[4] == 'l' && category_id[5] == 'd' {
            assert(t =~= "shield"@);
        }
    }
}

proof fn lemma_first_tile_found(tiles: Seq<ModuleTile>, id: Seq<char>, k: int)
    requires
        0 <= k < tiles.len(),
        tiles[k].module_id@ == id,
    ensures
        exists|i: int| 0 <= i < tiles.len() && tiles[i].module_id@ == id
            && forall|j: int| 0 <= j < i ==> tiles[j].module_id@ != id,
    decreases k,
{
    if exists|j: int| 0 <= j < k && tiles[j].module_id@ == id {
        let j = choose|j: int| 0 <= j < k && tiles[j].module_id@ == id;
        lemma_first_tile_found(tiles, id, j);
    } else {
        assert(forall|j: int| 0 <= j < k ==> tiles[j].module_id@ != id);
    }
}

/// Looking a tile up by module id finds a tile exactly when some tile has
/// that id, and then the first such tile (Shield tiles before Spear tiles):
/// its id is the one asked for and no earlier tile has it.
pub proof fn lemma_tile_lookup(tiles: Seq<ModuleTile>, id: Seq<char>)
    ensures
        first_tile_index(tiles, id) is None <==> forall|i: int| 0 <= i < tiles.len()
            ==> (#[trigger] tiles[i]).module_id@ != id,
        first_tile_index(tiles, id) matches Some(i) ==> {
            &&& 0 <= i < tiles.len()
            &&& tiles[i].module_id@ == id
            &&& forall|j: int| 0 <= j < i ==> (#[trigger] tiles[j]).module_id@ != id
        },
{
    if exists|k: int| 0 <= k < tiles.len() && tiles[k].module_id@ == id {
        let k = choose|k: int| 0 <= k < tiles.len() && tiles[k].module_id@ == id;
        lemma_first_tile_found(tiles, id, k);
    }
}

/// Build a `ModuleTile` from a module record and its aggregate progress.
pub fn build_tile(module: &Module, completed_steps: u32, total_steps: u32) -> (t: ModuleTile)
    ensures
        t.module_id == module.module_id,
        t.axis == axis_of_category(module.category_id@),
        t.title_key == module.title_key,
        t.description_key == module.description_key,
        t.progress == badge_spec(module.status, completed_steps, total_steps),
        (module.status == ModuleStatus::Quarantined || module.status == ModuleStatus::Disabled)
            <==> t.progress == ProgressBadge::Unavailable,
        t.estimated_minutes == module.estimated_minutes,
{
    let progress = match module.status {
        ModuleStatus::Quarantined | ModuleStatus::Disabled => ProgressBadge::Unavailable,
        _ => {
            if completed_steps == 0 {
                ProgressBadge::NotStarted
            } else if completed_steps >= total_steps && total_steps > 0 {
                ProgressBadge::Completed
            } else {
                ProgressBadge::InProgress { completed: completed_steps, total: total_steps }
            }
        },
    };
    // Resolve the pillar by convention: "shield-*" → Shield, everything else → Spear.
    let axis = if starts_with(module.category_id.as_str(), "shield") {
        CurriculumAxis::Shield
    } else {
        CurriculumAxis::Spear
    };
    ModuleTile {
        module_id: module.module_id.clone(),
        axis,
        title_key: module.title_key.clone(),
        description_key: module.description_key.clone(),
        progress,
        estimated_minutes: module.estimated_minutes,
    }
}

} // verus!
