use vstd::prelude::*;
use vstd::pervasive::VecAdditionalExecFns;

verus! {

/// The derived summary of one game's achievement progress: its completion
/// percentage (0 to 100), the last-played timestamp observed when the entry
/// was computed, and whether the game reports any achievements at all.
#[derive(Clone, Copy, Debug, PartialEq, Eq, Structural)]
pub struct GameCompletion {
    pub app_id: i32,
    pub complete: i8,
    pub last_played: i64,
    pub has_achievements: bool,
}

/// Whether the cache holds an entry for `app_id`.
pub open spec fn cache_has_entry(rows: Seq<GameCompletion>, app_id: i32) -> bool {
    exists|i: int| 0 <= i < rows.len() && rows[i].app_id == app_id
}

/// The index of the entry for `app_id`; meaningful only when one exists.
pub open spec fn cache_entry_index(rows: Seq<GameCompletion>, app_id: i32) -> int {
    choose|i: int| 0 <= i < rows.len() && rows[i].app_id == app_id
}

/// The entry the cache holds for `app_id`; meaningful only when one exists.
pub open spec fn cache_entry(rows: Seq<GameCompletion>, app_id: i32) -> GameCompletion {
    rows[cache_entry_index(rows, app_id)]
}

/// No two entries describe the same game.
pub open spec fn cache_wf(rows: Seq<GameCompletion>) -> bool {
    forall|i: int, j: int|
        0 <= i < j < rows.len() ==> #[trigger] rows[i].app_id != #[trigger] rows[j].app_id
}

/// The cache after writing `e`: the entry for `e.app_id` is replaced whole
/// when one exists, else `e` is appended.
pub open spec fn cache_upsert(rows: Seq<GameCompletion>, e: GameCompletion) -> Seq<
    GameCompletion,
> {
    if cache_has_entry(rows, e.app_id) {
        rows.update(cache_entry_index(rows, e.app_id), e)
    } else {
        rows.push(e)
    }
}

/// The persisted per-game completion cache, keyed by game identifier.
pub struct GameCompletionCache {
    rows: Vec<GameCompletion>,
}

impl View for GameCompletionCache {
    type V = Seq<GameCompletion>;

    closed spec fn view(&self) -> Seq<GameCompletion> {
        self.rows@
    }
}

impl GameCompletionCache {
    pub open spec fn wf(self) -> bool {
        cache_wf(self@)
    }

    /// In a well-formed cache, distinct entries describe distinct games.
    pub proof fn lemma_unique_app_ids(self, i: int, j: int)
        requires
            self.wf(),
            0 <= i < self@.len(),
            0 <= j < self@.len(),
            i != j,
        ensures
            self@[i].app_id != self@[j].app_id,
    {
        if i < j {
            assert(self@[i].app_id != self@[j].app_id);
        } else {
            assert(self@[j].app_id != self@[i].app_id);
        }
    }

    /// An empty cache, as the idempotent schema-ensure synthesizes it on
    /// first access.
    pub fn new() -> (s: Self)
        ensures
            s@ == Seq::<GameCompletion>::empty(),
            s.wf(),
    {
        GameCompletionCache { rows: Vec::new() }
    }

    /// Every cache entry, in insertion order.
    pub fn get_game_completion(&self) -> (r: Vec<GameCompletion>)
        ensures
            r@ == self@,
    {
        let mut r: Vec<GameCompletion> = Vec::new();
        let mut i: usize = 0;
        while i < self.rows.len()
            invariant
                0 <= i <= self@.len(),
                self.rows@ == self@,
                r@ == self@.take(i as int),
            decreases self@.len() - i,
        {
            r.push(self.rows[i]);
            proof {
                assert(r@ =~= self@.take(i + 1));
            }
            i += 1;
        }
        proof {
            assert(self@.take(self@.len() as int) =~= self@);
        }
        r
    }

    /// The entry recorded for one game, or nothing when the game was never
    /// cached.
    #[verifier::loop_isolation(false)]
    pub fn find_entry(&self, app_id: &i32) -> (r: Option<GameCompletion>)
        requires
            self.wf(),
        ensures
            r is Some <==> cache_has_entry(self@, *app_id),
            (r matches Some(e) ==> e == cache_entry(self@, *app_id)),
    {
        let mut i: usize = 0;
        while i < self.rows.len()
            invariant
                0 <= i <= self@.len(),
                forall|j: int| 0 <= j < i ==> self@[j].app_id != *app_id,
            decreases self@.len() - i,
        {
            if self.rows[i].app_id == *app_id {
                proof {
                    assert(cache_has_entry(self@, *app_id));
                    let k = cache_entry_index(self@, *app_id);
                    if k != i as int {
                        self.lemma_unique_app_ids(k, i as int);
                    }
                }
                return Some(self.rows[i]);
            }
            i += 1;
        }
        None
    }

    /// Writes the summary for one game, replacing every field of an existing
    /// entry at once or appending a new entry.
    #[verifier::loop_isolation(false)]
    pub fn save_game_completion(
        &mut self,
        app_id: &i32,
        complete: i8,
        last_played: i64,
        has_achievements: bool,
    )
        requires
            old(self).wf(),
        ensures
            final(self)@ == cache_upsert(
                old(self)@,
                (GameCompletion { app_id: *app_id, complete, last_played, has_achievements }),
            ),
            final(self).wf(),
    {
        let e = GameCompletion { app_id: *app_id, complete, last_played, has_achievements };
        let mut i: usize = 0;
        while i < self.rows.len()
            invariant
                0 <= i <= self@.len(),
                *self == *old(self),
                forall|j: int| 0 <= j < i ==> self@[j].app_id != *app_id,
            decreases self@.len() - i,
        {
            if self.rows[i].app_id == *app_id {
                proof {
                    assert(cache_has_entry(self@, *app_id));
                    let k = cache_entry_index(self@, *app_id);
                    if k != i as int {
                        self.lemma_unique_app_ids(k, i as int);
                    }
                }
                self.rows.set(i, e);
                proof {
                    assert(forall|x: int|
                        0 <= x < self@.len() ==> #[trigger] self@[x].app_id == old(
                            self,
                        )@[x].app_id);
                }
                return ;
            }
            i += 1;
        }
        self.rows.push(e);
    }

    /// Clears the cache whole: the explicit bulk-clear operation.
    pub fn drop_table(&mut self)
        ensures
            final(self)@ == Seq::<GameCompletion>::empty(),
            final(self).wf(),
    {
        self.rows = Vec::new();
    }
}

} // verus!
