use vstd::prelude::*;
use crate::db::achievement_store::{Achievement, AchievementStore};
use crate::game_fetch::Game;

verus! {

/// One owned game as a front-end lists it, with a selection mark the user
/// can toggle.
pub struct GameListItem {
    pub game: Game,
    pub selected: bool,
}

impl GameListItem {
    /// Toggles the selection mark and touches nothing else.
    pub fn select(&mut self)
        ensures
            final(self).selected == !old(self).selected,
            final(self).game == old(self).game,
    {
        self.selected = !self.selected;
    }
}

/// Whether a goal list is ordered by owning game identifier.
pub open spec fn sorted_by_app_id(s: Seq<Achievement>) -> bool {
    forall|i: int, j: int| 0 <= i < j < s.len() ==> #[trigger] s[i].app_id <= #[trigger] s[j].app_id
}

/// The current goals, grouped for display: the store's rows reordered by
/// owning game identifier.
#[verifier::loop_isolation(false)]
pub fn get_goals(store: &AchievementStore) -> (r: Vec<Achievement>)
    ensures
        r@.to_multiset() == store@.to_multiset(),
        sorted_by_app_id(r@),
{
    broadcast use vstd::seq_lib::group_to_multiset_ensures;

    let rows = store.get_achievements();
    let mut r: Vec<Achievement> = Vec::new();
    let mut i: usize = 0;
    while i < rows.len()
        invariant
            0 <= i <= rows@.len(),
            rows@ == store@,
            r@.to_multiset() == rows@.take(i as int).to_multiset(),
            sorted_by_app_id(r@),
        decreases rows@.len() - i,
    {
        let x = rows[i].clone();
        let mut pos: usize = 0;
        while pos < r.len() && r[pos].app_id <= x.app_id
            invariant
                0 <= pos <= r@.len(),
                forall|j: int| 0 <= j < pos ==> #[trigger] r@[j].app_id <= x.app_id,
            decreases r@.len() - pos,
        {
            pos += 1;
        }
        proof {
            assert(forall|j: int| pos <= j < r@.len() ==> x.app_id < #[trigger] r@[j].app_id);
            assert(rows@.take(i + 1).drop_last() =~= rows@.take(i as int));
            assert(rows@.take(i + 1) == rows@.take(i as int).push(rows@[i as int]));
        }
        r.insert(pos, x);
        i += 1;
    }
    proof {
        assert(rows@.take(rows@.len() as int) =~= rows@);
    }
    r
}

} // verus!
