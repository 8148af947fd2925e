use vstd::prelude::*;

verus! {

/// A permanent opt-out: an achievement key that may never again become a
/// goal for its game.
pub struct ExcludedAchievement {
    pub id: i32,
    pub achievement_name: String,
    pub app_id: i32,
}

impl Clone for ExcludedAchievement {
    fn clone(&self) -> (res: Self)
        ensures
            res == *self,
    {
        ExcludedAchievement {
            id: self.id,
            achievement_name: self.achievement_name.clone(),
            app_id: self.app_id,
        }
    }
}

/// The persisted list of exclusions. Rows are append-only and carry a
/// store-assigned identifier; the engine never deletes one.
pub struct ExcludedAchievementStore {
    rows: Vec<ExcludedAchievement>,
    next_id: i32,
}

impl View for ExcludedAchievementStore {
    type V = Seq<ExcludedAchievement>;

    closed spec fn view(&self) -> Seq<ExcludedAchievement> {
        self.rows@
    }
}

impl ExcludedAchievementStore {
    /// The identifier the next inserted row will receive.
    pub closed spec fn spec_next_id(self) -> i32 {
        self.next_id
    }

    /// Every row's identifier is positive, below the next free identifier,
    /// and unlike every other row's.
    pub open spec fn wf(self) -> bool {
        &&& 1 <= self.spec_next_id()
        &&& forall|i: int| 0 <= i < self@.len() ==> 1 <= #[trigger] self@[i].id
            < self.spec_next_id()
        &&& forall|i: int, j: int|
            0 <= i < j < self@.len() ==> #[trigger] self@[i].id != #[trigger] self@[j].id
    }

    /// An empty store, as the idempotent schema-ensure synthesizes it on
    /// first access.
    pub fn new() -> (s: Self)
        ensures
            s@ == Seq::<ExcludedAchievement>::empty(),
            s.wf(),
            s.spec_next_id() == 1,
    {
        ExcludedAchievementStore { rows: Vec::new(), next_id: 1 }
    }

    /// All exclusions recorded for one game, in insertion order.
    #[verifier::loop_isolation(false)]
    pub fn get_excluded_achievements_for_app(&self, app_id: &i32) -> (r: Vec<ExcludedAchievement>)
        ensures
            r@ == self@.filter(|a: ExcludedAchievement| a.app_id == *app_id),
    {
        let ghost pred = |a: ExcludedAchievement| a.app_id == *app_id;
        let mut r: Vec<ExcludedAchievement> = Vec::new();
        let mut i: usize = 0;
        while i < self.rows.len()
            invariant
                0 <= i <= self@.len(),
                self.rows@ == self@,
                r@ == self@.take(i as int).filter(pred),
            decreases self@.len() - i,
        {
            if self.rows[i].app_id == *app_id {
                r.push(self.rows[i].clone());
            }
            i += 1;
            proof {
                reveal(Seq::filter);
                assert(self@.take(i as int).drop_last() =~= self@.take(i - 1));
            }
        }
        proof {
            assert(self@.take(self@.len() as int) =~= self@);
        }
        r
    }

    /// Records a new exclusion under a fresh identifier.
    pub fn save_excluded_achievement(&mut self, achievement_name: &String, app_id: &i32)
        requires
            old(self).wf(),
            old(self).spec_next_id() < i32::MAX,
        ensures
            final(self)@ == old(self)@.push(
                (ExcludedAchievement {
                    id: old(self).spec_next_id(),
                    achievement_name: *achievement_name,
                    app_id: *app_id,
                }),
            ),
            final(self).spec_next_id() == old(self).spec_next_id() + 1,
            final(self).wf(),
    {
        let row = ExcludedAchievement {
            id: self.next_id,
            achievement_name: achievement_name.clone(),
            app_id: *app_id,
        };
        self.rows.push(row);
        self.next_id = self.next_id + 1;
    }
}

} // verus!
