use vstd::prelude::*;
use vstd::arithmetic::div_mod::{
    lemma_div_by_multiple,
    lemma_div_by_multiple_is_strongly_ordered,
    lemma_div_is_ordered,
    lemma_div_pos_is_pos,
};
use crate::achievement_fetch::{PlayerAchievement, PlayerAchievements};
use crate::db::excluded_achievement_store::ExcludedAchievement;
use crate::db::game_completion_cache::{
    GameCompletion,
    GameCompletionCache,
    cache_entry,
    cache_entry_index,
    cache_has_entry,
    cache_upsert,
    cache_wf,
};
use crate::game_fetch::Game;
use crate::goals::{contains_excluded_name, excluded_names};
use crate::seq_facts::lemma_filter_subset;

verus! {

/// Whether one reported achievement still counts against completion: not
/// yet achieved and not excluded.
pub open spec fn is_unachieved_unexcluded(
    a: PlayerAchievement,
    excl: Seq<ExcludedAchievement>,
) -> bool {
    a.achieved == 0 && !excluded_names(excl).contains(a.apiname@)
}

/// How many reported achievements still count against completion.
pub open spec fn spec_unachieved_count(
    achievements: Seq<PlayerAchievement>,
    excl: Seq<ExcludedAchievement>,
) -> nat {
    achievements.filter(|a: PlayerAchievement| is_unachieved_unexcluded(a, excl)).len()
}

/// The completion percentage: the achieved share of all reported
/// achievements, as a whole number truncated toward zero.
pub open spec fn spec_completion_percent(total: int, unachieved: int) -> int
    recommends
        0 < total,
        0 <= unachieved <= total,
{
    (100 * (total - unachieved)) / total
}

/// The cache entry one refresh step writes for a game: a game without
/// stats is vacuously complete and flagged as having no achievements;
/// otherwise the percentage follows from the unachieved, unexcluded count.
pub open spec fn spec_completion_entry(
    game: Game,
    player: Option<PlayerAchievements>,
    excl: Seq<ExcludedAchievement>,
) -> GameCompletion {
    match player {
        None => GameCompletion {
            app_id: game.appid,
            complete: 100,
            last_played: game.last_played,
            has_achievements: false,
        },
        Some(p) => {
            let u = spec_unachieved_count(p.achievements@, excl);
            if u == 0 {
                GameCompletion {
                    app_id: game.appid,
                    complete: 100,
                    last_played: game.last_played,
                    has_achievements: true,
                }
            } else {
                GameCompletion {
                    app_id: game.appid,
                    complete: spec_completion_percent(
                        p.achievements@.len() as int,
                        u as int,
                    ) as i8,
                    last_played: game.last_played,
                    has_achievements: true,
                }
            }
        },
    }
}

/// Whether a refresh must requery a game: it has recorded play time, and
/// the cache either has no entry for it or one from another play session.
pub open spec fn spec_needs_refresh(game: Game, cache: Seq<GameCompletion>) -> bool {
    game.playtime_forever != 0 && (!cache_has_entry(cache, game.appid) || cache_entry(
        cache,
        game.appid,
    ).last_played != game.last_played)
}

/// The completion percentage is a whole number between 0 and 100, and it
/// reaches 100 exactly when nothing unexcluded is left unachieved.
pub proof fn lemma_completion_percent_bounds(total: int, unachieved: int)
    requires
        0 < total,
        0 <= unachieved <= total,
    ensures
        0 <= spec_completion_percent(total, unachieved) <= 100,
        spec_completion_percent(total, unachieved) == 100 <==> unachieved == 0,
{
    let v = 100 * (total - unachieved);
    lemma_div_pos_is_pos(v, total);
    lemma_div_is_ordered(v, 100 * total, total);
    lemma_div_by_multiple(100, total);
    if unachieved > 0 {
        lemma_div_by_multiple_is_strongly_ordered(v, 100 * total, 100, total);
    }
}

/// Counts the reported achievements that are not achieved and not
/// excluded.
#[verifier::loop_isolation(false)]
pub fn count_unachieved(
    achievements: &Vec<PlayerAchievement>,
    excluded: &Vec<ExcludedAchievement>,
) -> (n: usize)
    ensures
        n == spec_unachieved_count(achievements@, excluded@),
{
    let ghost pred = |a: PlayerAchievement| is_unachieved_unexcluded(a, excluded@);
    let mut n: usize = 0;
    let mut i: usize = 0;
    while i < achievements.len()
        invariant
            0 <= i <= achievements@.len(),
            n == achievements@.take(i as int).filter(pred).len(),
            n <= i,
        decreases achievements@.len() - i,
    {
        let a = &achievements[i];
        if a.achieved == 0 && !contains_excluded_name(excluded, &a.apiname) {
            n += 1;
        }
        i += 1;
        proof {
            reveal(Seq::filter);
            assert(achievements@.take(i as int).drop_last() =~= achievements@.take(i - 1));
        }
    }
    proof {
        assert(achievements@.take(achievements@.len() as int) =~= achievements@);
    }
    n
}

/// Whether a refresh must requery a game. A game with no recorded play
/// time is skipped unconditionally; one whose cache entry matches its
/// current last-played timestamp is fresh, since progress cannot change
/// without new play activity.
pub fn needs_refresh(game: &Game, cache: &GameCompletionCache) -> (b: bool)
    requires
        cache.wf(),
    ensures
        b == spec_needs_refresh(*game, cache@),
{
    if game.playtime_forever == 0 {
        return false;
    }
    match cache.find_entry(&game.appid) {
        None => true,
        Some(e) => e.last_played != game.last_played,
    }
}

/// Computes the cache entry for one game from the upstream player-state
/// report (nothing when the game has no stats) and the game's exclusions.
pub fn completion_entry(
    game: &Game,
    player: &Option<PlayerAchievements>,
    excluded: &Vec<ExcludedAchievement>,
) -> (e: GameCompletion)
    ensures
        e == spec_completion_entry(*game, *player, excluded@),
        0 <= e.complete <= 100,
        e.app_id == game.appid,
        e.last_played == game.last_played,
{
    match player {
        None => GameCompletion {
            app_id: game.appid,
            complete: 100,
            last_played: game.last_played,
            has_achievements: false,
        },
        Some(p) => {
            let total: usize = p.achievements.len();
            let unachieved: usize = count_unachieved(&p.achievements, excluded);
            proof {
                broadcast use vstd::seq_lib::group_filter_ensures;

                assert(unachieved <= total);
            }
            if unachieved == 0 {
                GameCompletion {
                    app_id: game.appid,
                    complete: 100,
                    last_played: game.last_played,
                    has_achievements: true,
                }
            } else {
                let pct: u128 = (100u128 * ((total - unachieved) as u128)) / (total as u128);
                proof {
                    lemma_completion_percent_bounds(total as int, unachieved as int);
                    assert(pct == spec_completion_percent(total as int, unachieved as int));
                }
                GameCompletion {
                    app_id: game.appid,
                    complete: pct as i8,
                    last_played: game.last_played,
                    has_achievements: true,
                }
            }
        },
    }
}

/// A full entry means full completion: the written percentage is 100
/// exactly when the game reports no stats at all or every unexcluded
/// achievement is achieved.
pub proof fn lemma_completion_full_iff(
    game: Game,
    player: Option<PlayerAchievements>,
    excl: Seq<ExcludedAchievement>,
)
    ensures
        spec_completion_entry(game, player, excl).complete == 100 <==> (match player {
            None => true,
            Some(p) => forall|i: int|
                0 <= i < p.achievements@.len() ==> !is_unachieved_unexcluded(
                    #[trigger] p.achievements@[i],
                    excl,
                ),
        }),
{
    match player {
        None => {},
        Some(p) => {
            let pred = |a: PlayerAchievement| is_unachieved_unexcluded(a, excl);
            let u = spec_unachieved_count(p.achievements@, excl);
            broadcast use vstd::seq_lib::group_filter_ensures;

            lemma_filter_subset(p.achievements@, pred);
            if u == 0 {
                assert forall|i: int| 0 <= i < p.achievements@.len() implies !pred(
                    #[trigger] p.achievements@[i],
                ) by {
                    if pred(p.achievements@[i]) {
                        assert(p.achievements@.filter(pred).contains(p.achievements@[i]));
                    }
                }
            } else {
                let f = p.achievements@.filter(pred);
                assert(pred(f[0]));
                assert(p.achievements@.contains(f[0]));
                let w = choose|w: int|
                    0 <= w < p.achievements@.len() && p.achievements@[w] == f[0];
                assert(pred(p.achievements@[w]));
                lemma_completion_percent_bounds(p.achievements@.len() as int, u as int);
            }
        },
    }
}

/// Refresh is idempotent: once a refresh step has written the entry it
/// computed for a game, a second look at the same game list with an
/// unchanged last-played timestamp finds the cache fresh, so the second
/// pass queries nothing and rewrites nothing.
pub proof fn lemma_refresh_idempotent(
    game: Game,
    player: Option<PlayerAchievements>,
    excl: Seq<ExcludedAchievement>,
    cache: Seq<GameCompletion>,
)
    requires
        cache_wf(cache),
    ensures
        !spec_needs_refresh(
            game,
            cache_upsert(cache, spec_completion_entry(game, player, excl)),
        ),
{
    let e = spec_completion_entry(game, player, excl);
    let after = cache_upsert(cache, e);
    if cache_has_entry(cache, e.app_id) {
        let i = cache_entry_index(cache, e.app_id);
        assert(after[i] == e);
        assert(cache_has_entry(after, game.appid));
        let j = cache_entry_index(after, game.appid);
        if i != j {
            assert(after[j].app_id == after[i].app_id);
            assert(cache[j].app_id == cache[i].app_id);
            if i < j {
                assert(cache[i].app_id != cache[j].app_id);
            } else {
                assert(cache[j].app_id != cache[i].app_id);
            }
        }
        assert(cache_entry(after, game.appid).last_played == game.last_played);
    } else {
        let n = cache.len() as int;
        assert(after[n] == e);
        assert(cache_has_entry(after, game.appid));
        let j = cache_entry_index(after, game.appid);
        if j != n {
            assert(after[j] == cache[j]);
            assert(cache_has_entry(cache, e.app_id));
        }
        assert(cache_entry(after, game.appid).last_played == game.last_played);
    }
}

/// Writing the same computed entry twice leaves the cache exactly as one
/// write left it.
pub proof fn lemma_upsert_idempotent(cache: Seq<GameCompletion>, e: GameCompletion)
    requires
        cache_wf(cache),
    ensures
        cache_upsert(cache_upsert(cache, e), e) == cache_upsert(cache, e),
{
    let once = cache_upsert(cache, e);
    if cache_has_entry(cache, e.app_id) {
        let i = cache_entry_index(cache, e.app_id);
        assert(once[i] == e);
        assert(cache_has_entry(once, e.app_id));
        let j = cache_entry_index(once, e.app_id);
        if i != j {
            assert(once[j].app_id == e.app_id);
            assert(cache[j].app_id == cache[i].app_id);
            if i < j {
                assert(cache[i].app_id != cache[j].app_id);
            } else {
                assert(cache[j].app_id != cache[i].app_id);
            }
        }
        assert(cache_upsert(once, e) =~= once);
    } else {
        let n = cache.len() as int;
        assert(once[n] == e);
        assert(cache_has_entry(once, e.app_id));
        let j = cache_entry_index(once, e.app_id);
        if j != n {
            assert(once[j] == cache[j]);
            assert(cache_has_entry(cache, e.app_id));
        }
        assert(cache_upsert(once, e) =~= once);
    }
}

} // verus!
