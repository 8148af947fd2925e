use vstd::prelude::*;
use vstd::pervasive::VecAdditionalExecFns;

verus! {

/// A chosen pending achievement: the goal the player is working toward.
/// `achievement_name` is the stable upstream key; `last_played` is the
/// owning game's last-played timestamp at the time of selection.
pub struct Achievement {
    pub id: i32,
    pub achievement_name: String,
    pub display_name: String,
    pub app_id: i32,
    pub description: Option<String>,
    pub last_played: i64,
}

impl Clone for Achievement {
    fn clone(&self) -> (res: Self)
        ensures
            res == *self,
    {
        Achievement {
            id: self.id,
            achievement_name: self.achievement_name.clone(),
            display_name: self.display_name.clone(),
            app_id: self.app_id,
            description: match &self.description {
                Some(d) => Some(d.clone()),
                None => None,
            },
            last_played: self.last_played,
        }
    }
}

/// The persisted list of goals. Rows carry a store-assigned identifier that
/// is unique for the store's lifetime.
pub struct AchievementStore {
    rows: Vec<Achievement>,
    next_id: i32,
}

impl View for AchievementStore {
    type V = Seq<Achievement>;

    closed spec fn view(&self) -> Seq<Achievement> {
        self.rows@
    }
}

impl AchievementStore {
    /// The identifier the next inserted row will receive.
    pub closed spec fn spec_next_id(self) -> i32 {
        self.next_id
    }

    /// Every row's identifier is positive, below the next free identifier,
    /// and unlike every other row's.
    pub open spec fn wf(self) -> bool {
        &&& 1 <= self.spec_next_id()
        &&& forall|i: int| 0 <= i < self@.len() ==> 1 <= #[trigger] self@[i].id
            < self.spec_next_id()
        &&& forall|i: int, j: int|
            0 <= i < j < self@.len() ==> #[trigger] self@[i].id != #[trigger] self@[j].id
    }

    /// In a well-formed store, distinct rows carry distinct identifiers.
    pub proof fn lemma_unique_ids(self, i: int, j: int)
        requires
            self.wf(),
            0 <= i < self@.len(),
            0 <= j < self@.len(),
            i != j,
        ensures
            self@[i].id != self@[j].id,
    {
        if i < j {
            assert(self@[i].id != self@[j].id);
        } else {
            assert(self@[j].id != self@[i].id);
        }
    }

    /// An empty store, as the idempotent schema-ensure synthesizes it on
    /// first access.
    pub fn new() -> (s: Self)
        ensures
            s@ == Seq::<Achievement>::empty(),
            s.wf(),
            s.spec_next_id() == 1,
    {
        AchievementStore { rows: Vec::new(), next_id: 1 }
    }

    /// Rebuilds a store from persisted rows, refusing a row set whose
    /// identifiers are not unique positive values below `i32::MAX`. The
    /// next free identifier continues above the largest one present.
    #[verifier::loop_isolation(false)]
    pub fn from_rows(rows: Vec<Achievement>) -> (r: Option<AchievementStore>)
        ensures
            r is Some <==> ((forall|i: int|
                0 <= i < rows@.len() ==> 1 <= #[trigger] rows@[i].id < i32::MAX) && (forall|
                i: int,
                j: int,
            |
                0 <= i < j < rows@.len() ==> #[trigger] rows@[i].id != #[trigger] rows@[j].id)),
            (r matches Some(s) ==> s@ == rows@ && s.wf()),
    {
        let mut max_id: i32 = 0;
        let mut i: usize = 0;
        while i < rows.len()
            invariant
                0 <= i <= rows@.len(),
                0 <= max_id < i32::MAX,
                forall|j: int| 0 <= j < i ==> 1 <= #[trigger] rows@[j].id < i32::MAX,
                forall|j: int| 0 <= j < i ==> #[trigger] rows@[j].id <= max_id,
                forall|j: int, k: int|
                    0 <= j < k < i ==> #[trigger] rows@[j].id != #[trigger] rows@[k].id,
            decreases rows@.len() - i,
        {
            let id = rows[i].id;
            if id < 1 || id == i32::MAX {
                return None;
            }
            let mut j: usize = 0;
            while j < i
                invariant
                    0 <= j <= i <= rows@.len(),
                    forall|k: int| 0 <= k < j ==> #[trigger] rows@[k].id != id,
                decreases i - j,
            {
                if rows[j].id == id {
                    return None;
                }
                j += 1;
            }
            if id > max_id {
                max_id = id;
            }
            i += 1;
        }
        Some(AchievementStore { rows, next_id: max_id + 1 })
    }

    /// The row stored under `id`, or nothing when no row carries that
    /// identifier.
    pub fn get_achievement(&self, id: &i32) -> (r: Option<Achievement>)
        ensures
            r is Some <==> exists|i: int| 0 <= i < self@.len() && self@[i].id == *id,
            (r matches Some(a) ==> a.id == *id && exists|i: int|
                0 <= i < self@.len() && self@[i] == a && (forall|j: int|
                    0 <= j < i ==> self@[j].id != *id)),
    {
        let mut i: usize = 0;
        while i < self.rows.len()
            invariant
                0 <= i <= self@.len(),
                self.rows@ == self@,
                forall|j: int| 0 <= j < i ==> self@[j].id != *id,
            decreases self@.len() - i,
        {
            if self.rows[i].id == *id {
                let a = self.rows[i].clone();
                proof {
                    assert(self@[i as int] == a);
                }
                return Some(a);
            }
            i += 1;
        }
        None
    }

    /// Every goal in the store, in insertion order.
    pub fn get_achievements(&self) -> (r: Vec<Achievement>)
        ensures
            r@ == self@,
    {
        let mut r: Vec<Achievement> = Vec::new();
        let mut i: usize = 0;
        while i < self.rows.len()
            invariant
                0 <= i <= self@.len(),
                self.rows@ == self@,
                r@ == self@.take(i as int),
            decreases self@.len() - i,
        {
            r.push(self.rows[i].clone());
            proof {
                assert(r@ =~= self@.take(i + 1));
            }
            i += 1;
        }
        proof {
            assert(self@.take(self@.len() as int) =~= self@);
        }
        r
    }

    /// Every goal recorded for one game, in insertion order.
    #[verifier::loop_isolation(false)]
    pub fn get_achievements_for_app(&self, app_id: &i32) -> (r: Vec<Achievement>)
        ensures
            r@ == self@.filter(|a: Achievement| a.app_id == *app_id),
    {
        let ghost pred = |a: Achievement| a.app_id == *app_id;
        let mut r: Vec<Achievement> = Vec::new();
        let mut i: usize = 0;
        while i < self.rows.len()
            invariant
                0 <= i <= self@.len(),
                r@ == self@.take(i as int).filter(pred),
            decreases self@.len() - i,
        {
            if self.rows[i].app_id == *app_id {
                r.push(self.rows[i].clone());
            }
            i += 1;
            proof {
                reveal(Seq::filter);
                assert(self@.take(i as int).drop_last() =~= self@.take(i - 1));
            }
        }
        proof {
            assert(self@.take(self@.len() as int) =~= self@);
        }
        r
    }

    /// Inserts a new goal under a fresh identifier.
    pub fn save_achievement(
        &mut self,
        achievement_name: &String,
        display_name: &String,
        description: &Option<String>,
        app_id: &i32,
        last_played: &i64,
    )
        requires
            old(self).wf(),
            old(self).spec_next_id() < i32::MAX,
        ensures
            final(self)@ == old(self)@.push(
                (Achievement {
                    id: old(self).spec_next_id(),
                    achievement_name: *achievement_name,
                    display_name: *display_name,
                    app_id: *app_id,
                    description: *description,
                    last_played: *last_played,
                }),
            ),
            final(self).spec_next_id() == old(self).spec_next_id() + 1,
            final(self).wf(),
    {
        let row = Achievement {
            id: self.next_id,
            achievement_name: achievement_name.clone(),
            display_name: display_name.clone(),
            app_id: *app_id,
            description: match description {
                Some(d) => Some(d.clone()),
                None => None,
            },
            last_played: *last_played,
        };
        self.rows.push(row);
        self.next_id = self.next_id + 1;
    }

    /// Rewrites the last-played timestamp of the row stored under `id`;
    /// a store without such a row is left unchanged.
    #[verifier::loop_isolation(false)]
    pub fn update_last_played(&mut self, id: &i32, last_played: &i64)
        requires
            old(self).wf(),
        ensures
            final(self)@.len() == old(self)@.len(),
            forall|i: int|
                0 <= i < old(self)@.len() && old(self)@[i].id != *id ==> final(self)@[i] == old(
                    self,
                )@[i],
            forall|i: int|
                0 <= i < old(self)@.len() && old(self)@[i].id == *id ==> final(self)@[i] == (
                Achievement {
                    id: old(self)@[i].id,
                    achievement_name: old(self)@[i].achievement_name,
                    display_name: old(self)@[i].display_name,
                    app_id: old(self)@[i].app_id,
                    description: old(self)@[i].description,
                    last_played: *last_played,
                }),
            final(self).wf(),
            final(self).spec_next_id() == old(self).spec_next_id(),
    {
        let mut i: usize = 0;
        while i < self.rows.len()
            invariant
                0 <= i <= self@.len(),
                *self == *old(self),
                forall|j: int| 0 <= j < i ==> self@[j].id != *id,
            decreases self@.len() - i,
        {
            if self.rows[i].id == *id {
                let row = self.rows[i].clone();
                let updated = Achievement {
                    id: row.id,
                    achievement_name: row.achievement_name,
                    display_name: row.display_name,
                    app_id: row.app_id,
                    description: row.description,
                    last_played: *last_played,
                };
                self.rows.set(i, updated);
                proof {
                    assert(forall|x: int|
                        0 <= x < self@.len() ==> #[trigger] self@[x].id == old(self)@[x].id);
                    assert forall|k: int|
                        0 <= k < old(self)@.len() && old(self)@[k].id == *id implies k
                        == i as int by {
                        if k != i as int {
                            old(self).lemma_unique_ids(k, i as int);
                        }
                    }
                }
                return ;
            }
            i += 1;
        }
    }

    /// Removes the row stored under `id`; a store without such a row is left
    /// unchanged.
    #[verifier::loop_isolation(false)]
    pub fn delete_achievement(&mut self, id: &i32)
        requires
            old(self).wf(),
        ensures
            final(self)@ == old(self)@.filter(|a: Achievement| a.id != *id),
            final(self).wf(),
            final(self).spec_next_id() == old(self).spec_next_id(),
    {
        let ghost pred = |a: Achievement| a.id != *id;
        let mut kept: Vec<Achievement> = Vec::new();
        let mut i: usize = 0;
        while i < self.rows.len()
            invariant
                0 <= i <= self@.len(),
                kept@ == self@.take(i as int).filter(pred),
                forall|k: int|
                    0 <= k < kept@.len() ==> exists|j: int|
                        0 <= j < i && #[trigger] kept@[k] == self@[j],
                forall|k: int, l: int|
                    0 <= k < l < kept@.len() ==> #[trigger] kept@[k].id != #[trigger] kept@[l].id,
            decreases self@.len() - i,
        {
            if self.rows[i].id != *id {
                proof {
                    assert forall|k: int| 0 <= k < kept@.len() implies kept@[k].id
                        != self@[i as int].id by {
                        let j = choose|j: int| 0 <= j < i && kept@[k] == self@[j];
                        assert(self@[j].id != self@[i as int].id);
                    }
                }
                kept.push(self.rows[i].clone());
            }
            i += 1;
            proof {
                reveal(Seq::filter);
                assert(self@.take(i as int).drop_last() =~= self@.take(i - 1));
            }
        }
        proof {
            assert(self@.take(self@.len() as int) =~= self@);
        }
        self.rows = kept;
    }
}

} // verus!
