use vstd::prelude::*;
use crate::EngineError;
use crate::achievement_fetch::{
    GameAchievement,
    PlayerAchievement,
    PlayerAchievements,
    find_achievement_by_name,
    schema_names,
};
use crate::db::achievement_store::Achievement;
use crate::db::excluded_achievement_store::ExcludedAchievement;
use crate::seq_facts::{lemma_contains_of_permutation, lemma_filter_subset};

verus! {

/// The achievement keys of a player-state report, achieved or not.
pub open spec fn achievement_names(s: Seq<PlayerAchievement>) -> Set<Seq<char>> {
    Set::new(|n: Seq<char>| exists|i: int| 0 <= i < s.len() && s[i].apiname@ == n)
}

/// The achievement keys that a player-state report lists as not achieved.
pub open spec fn unachieved_names(player: Seq<PlayerAchievement>) -> Set<Seq<char>> {
    Set::new(
        |n: Seq<char>|
            exists|i: int|
                0 <= i < player.len() && player[i].achieved == 0 && player[i].apiname@ == n,
    )
}

/// The achievement keys already chosen as goals.
pub open spec fn goal_names(goals: Seq<Achievement>) -> Set<Seq<char>> {
    Set::new(
        |n: Seq<char>|
            exists|i: int| 0 <= i < goals.len() && goals[i].achievement_name@ == n,
    )
}

/// The achievement keys permanently excluded from eligibility.
pub open spec fn excluded_names(excl: Seq<ExcludedAchievement>) -> Set<Seq<char>> {
    Set::new(
        |n: Seq<char>| exists|i: int| 0 <= i < excl.len() && excl[i].achievement_name@ == n,
    )
}

/// Whether one reported achievement may become a goal: not yet achieved,
/// not already a goal, not excluded.
pub open spec fn is_eligible(
    a: PlayerAchievement,
    goals: Seq<Achievement>,
    excl: Seq<ExcludedAchievement>,
) -> bool {
    a.achieved == 0 && !goal_names(goals).contains(a.apiname@) && !excluded_names(excl).contains(
        a.apiname@,
    )
}

/// The reported achievements still eligible to become a goal, in report
/// order.
pub open spec fn spec_eligible(
    player: Seq<PlayerAchievement>,
    goals: Seq<Achievement>,
    excl: Seq<ExcludedAchievement>,
) -> Seq<PlayerAchievement> {
    player.filter(|a: PlayerAchievement| is_eligible(a, goals, excl))
}

/// The eligible set: the unachieved keys, minus the keys already chosen as
/// goals, minus the excluded keys.
pub open spec fn eligible_names(
    player: Seq<PlayerAchievement>,
    goals: Seq<Achievement>,
    excl: Seq<ExcludedAchievement>,
) -> Set<Seq<char>> {
    unachieved_names(player).difference(goal_names(goals)).difference(excluded_names(excl))
}

/// Whether the store already lists `name` as a goal.
#[verifier::loop_isolation(false)]
fn contains_goal_name(goals: &Vec<Achievement>, name: &String) -> (b: bool)
    ensures
        b == goal_names(goals@).contains(name@),
{
    let mut i: usize = 0;
    while i < goals.len()
        invariant
            0 <= i <= goals@.len(),
            forall|j: int| 0 <= j < i ==> goals@[j].achievement_name@ != name@,
        decreases goals@.len() - i,
    {
        if goals[i].achievement_name == *name {
            proof {
                assert(goals@[i as int].achievement_name@ == name@);
            }
            return true;
        }
        i += 1;
    }
    false
}

/// Whether the store lists `name` as excluded.
#[verifier::loop_isolation(false)]
pub(crate) fn contains_excluded_name(excl: &Vec<ExcludedAchievement>, name: &String) -> (b: bool)
    ensures
        b == excluded_names(excl@).contains(name@),
{
    let mut i: usize = 0;
    while i < excl.len()
        invariant
            0 <= i <= excl@.len(),
            forall|j: int| 0 <= j < i ==> excl@[j].achievement_name@ != name@,
        decreases excl@.len() - i,
    {
        if excl[i].achievement_name == *name {
            proof {
                assert(excl@[i as int].achievement_name@ == name@);
            }
            return true;
        }
        i += 1;
    }
    false
}

/// Computes the eligible subsequence: the reported achievements that are
/// unachieved, not already a goal and not excluded, in report order.
#[verifier::loop_isolation(false)]
pub fn eligible_achievements(
    player_achievements: &Vec<PlayerAchievement>,
    current_goals_for_app: &Vec<Achievement>,
    excluded_achievement_for_app: &Vec<ExcludedAchievement>,
) -> (r: Vec<PlayerAchievement>)
    ensures
        r@ == spec_eligible(
            player_achievements@,
            current_goals_for_app@,
            excluded_achievement_for_app@,
        ),
{
    let ghost pred = |a: PlayerAchievement|
        is_eligible(a, current_goals_for_app@, excluded_achievement_for_app@);
    let mut r: Vec<PlayerAchievement> = Vec::new();
    let mut i: usize = 0;
    while i < player_achievements.len()
        invariant
            0 <= i <= player_achievements@.len(),
            r@ == player_achievements@.take(i as int).filter(pred),
        decreases player_achievements@.len() - i,
    {
        let a = &player_achievements[i];
        if a.achieved == 0 && !contains_goal_name(current_goals_for_app, &a.apiname)
            && !contains_excluded_name(excluded_achievement_for_app, &a.apiname) {
            r.push(a.clone());
        }
        i += 1;
        proof {
            reveal(Seq::filter);
            assert(player_achievements@.take(i as int).drop_last() =~= player_achievements@.take(
                i - 1,
            ));
        }
    }
    proof {
        assert(player_achievements@.take(player_achievements@.len() as int)
            =~= player_achievements@);
    }
    r
}

/// Relies on rand: `Rng::random_range(0..len)` draws uniformly from the
/// range; it panics only on an empty range, which the precondition rules
/// out. Which index comes back depends on the generator's state, so only
/// the bound is promised.
#[verifier::external_body]
fn pick_index(len: usize) -> (i: usize)
    requires
        0 < len,
    ensures
        i < len,
{
    let mut rng = rand::rng();
    rand::Rng::random_range(&mut rng, 0..len)
}

/// Draws a goal for one game. `player_achievements` is the upstream
/// player-state report (nothing when the game has no stats),
/// `game_achievements` the upstream schema, and the two store lists are the
/// goals and exclusions already recorded for the game.
///
/// Nothing comes back when the game has no stats or nothing is eligible.
/// Otherwise one eligible achievement is drawn at random and resolved
/// against the schema; a drawn key the schema does not list is upstream
/// data drift and surfaces as an error rather than a silent skip.
pub fn get_random_achievement_for_game(
    player_achievements: &Option<PlayerAchievements>,
    game_achievements: &Vec<GameAchievement>,
    current_goals_for_app: &Vec<Achievement>,
    excluded_achievement_for_app: &Vec<ExcludedAchievement>,
) -> (r: Result<Option<GameAchievement>, EngineError>)
    ensures
        (match *player_achievements {
            None => r == Ok::<Option<GameAchievement>, EngineError>(None),
            Some(p) => {
                let elig = spec_eligible(
                    p.achievements@,
                    current_goals_for_app@,
                    excluded_achievement_for_app@,
                );
                match r {
                    Ok(None) => elig.len() == 0,
                    Ok(Some(g)) => elig.len() > 0 && eligible_names(
                        p.achievements@,
                        current_goals_for_app@,
                        excluded_achievement_for_app@,
                    ).contains(g.name@) && (exists|i: int|
                        0 <= i < game_achievements@.len() && game_achievements@[i] == g && (
                        forall|j: int| 0 <= j < i ==> game_achievements@[j].name@ != g.name@)),
                    Err(e) => e == EngineError::DataInconsistency && elig.len() > 0 && (exists|
                        k: int,
                    |
                        0 <= k < elig.len() && !schema_names(game_achievements@).contains(
                            #[trigger] elig[k].apiname@,
                        )),
                }
            },
        }),
        (match *player_achievements {
            None => true,
            Some(p) => {
                let elig = spec_eligible(
                    p.achievements@,
                    current_goals_for_app@,
                    excluded_achievement_for_app@,
                );
                (elig.len() > 0 && (forall|k: int|
                    0 <= k < elig.len() ==> schema_names(game_achievements@).contains(
                        #[trigger] elig[k].apiname@,
                    ))) ==> r matches Ok(Some(_))
            },
        }),
{
    match player_achievements {
        None => Ok(None),
        Some(p) => {
            let filter_to_unachieved = eligible_achievements(
                &p.achievements,
                current_goals_for_app,
                excluded_achievement_for_app,
            );
            if filter_to_unachieved.len() == 0 {
                Ok(None)
            } else {
                let idx = pick_index(filter_to_unachieved.len());
                let random_achievement = &filter_to_unachieved[idx];
                let found = find_achievement_by_name(
                    game_achievements,
                    &random_achievement.apiname,
                );
                match found {
                    Some(g) => {
                        proof {
                            broadcast use vstd::seq_lib::group_filter_ensures;

                            let ghost pred = |a: PlayerAchievement|
                                is_eligible(
                                    a,
                                    current_goals_for_app@,
                                    excluded_achievement_for_app@,
                                );
                            let elig = p.achievements@.filter(pred);
                            assert(pred(elig[idx as int]));
                            lemma_filter_subset(p.achievements@, pred);
                            let w = choose|w: int|
                                0 <= w < p.achievements@.len() && p.achievements@[w] == elig[
                                idx as int];
                            assert(p.achievements@[w].achieved == 0 && p.achievements@[w].apiname@
                                == g.name@);
                            assert(unachieved_names(p.achievements@).contains(g.name@));
                        }
                        Ok(Some(g))
                    },
                    None => {
                        proof {
                            broadcast use vstd::seq_lib::group_filter_ensures;

                            let elig = spec_eligible(
                                p.achievements@,
                                current_goals_for_app@,
                                excluded_achievement_for_app@,
                            );
                            assert(!schema_names(game_achievements@).contains(
                                elig[idx as int].apiname@,
                            ));
                        }
                        Err(EngineError::DataInconsistency)
                    },
                }
            }
        },
    }
}

/// The eligible subsequence names exactly the eligible set: every key of an
/// eligible achievement lies in the set, and every key of the set is the
/// key of some eligible achievement.
pub proof fn lemma_eligible_names(
    player: Seq<PlayerAchievement>,
    goals: Seq<Achievement>,
    excl: Seq<ExcludedAchievement>,
)
    ensures
        achievement_names(spec_eligible(player, goals, excl)) == eligible_names(
            player,
            goals,
            excl,
        ),
{
    broadcast use vstd::seq_lib::group_filter_ensures;

    let pred = |a: PlayerAchievement| is_eligible(a, goals, excl);
    let f = player.filter(pred);
    lemma_filter_subset(player, pred);
    assert forall|n: Seq<char>| achievement_names(f).contains(n) implies eligible_names(
        player,
        goals,
        excl,
    ).contains(n) by {
        let k = choose|k: int| 0 <= k < f.len() && f[k].apiname@ == n;
        assert(pred(f[k]));
        assert(player.contains(f[k]));
        let w = choose|w: int| 0 <= w < player.len() && player[w] == f[k];
        assert(player[w].achieved == 0 && player[w].apiname@ == n);
    }
    assert forall|n: Seq<char>| eligible_names(player, goals, excl).contains(n) implies
    achievement_names(f).contains(n) by {
        let i = choose|i: int|
            0 <= i < player.len() && player[i].achieved == 0 && player[i].apiname@ == n;
        assert(pred(player[i]));
        assert(f.contains(player[i]));
        let k = choose|k: int| 0 <= k < f.len() && f[k] == player[i];
        assert(f[k].apiname@ == n);
    }
    assert(achievement_names(f) =~= eligible_names(player, goals, excl));
}

/// The eligible set is insensitive to the order in which the player-state
/// report, the goal store and the exclusion store list their rows.
pub proof fn lemma_eligible_names_order_insensitive(
    p1: Seq<PlayerAchievement>,
    p2: Seq<PlayerAchievement>,
    g1: Seq<Achievement>,
    g2: Seq<Achievement>,
    e1: Seq<ExcludedAchievement>,
    e2: Seq<ExcludedAchievement>,
)
    requires
        p1.to_multiset() == p2.to_multiset(),
        g1.to_multiset() == g2.to_multiset(),
        e1.to_multiset() == e2.to_multiset(),
    ensures
        eligible_names(p1, g1, e1) == eligible_names(p2, g2, e2),
{
    lemma_unachieved_names_subset(p1, p2);
    lemma_unachieved_names_subset(p2, p1);
    lemma_goal_names_subset(g1, g2);
    lemma_goal_names_subset(g2, g1);
    lemma_excluded_names_subset(e1, e2);
    lemma_excluded_names_subset(e2, e1);
    assert(unachieved_names(p1) =~= unachieved_names(p2));
    assert(goal_names(g1) =~= goal_names(g2));
    assert(excluded_names(e1) =~= excluded_names(e2));
}

proof fn lemma_unachieved_names_subset(p1: Seq<PlayerAchievement>, p2: Seq<PlayerAchievement>)
    requires
        p1.to_multiset() == p2.to_multiset(),
    ensures
        forall|n: Seq<char>|
            unachieved_names(p1).contains(n) ==> unachieved_names(p2).contains(n),
{
    assert forall|n: Seq<char>| unachieved_names(p1).contains(n) implies unachieved_names(
        p2,
    ).contains(n) by {
        let i = choose|i: int|
            0 <= i < p1.len() && p1[i].achieved == 0 && p1[i].apiname@ == n;
        assert(p1.contains(p1[i]));
        lemma_contains_of_permutation(p1, p2, p1[i]);
        let j = choose|j: int| 0 <= j < p2.len() && p2[j] == p1[i];
        assert(p2[j].achieved == 0 && p2[j].apiname@ == n);
    }
}

proof fn lemma_goal_names_subset(g1: Seq<Achievement>, g2: Seq<Achievement>)
    requires
        g1.to_multiset() == g2.to_multiset(),
    ensures
        forall|n: Seq<char>| goal_names(g1).contains(n) ==> goal_names(g2).contains(n),
{
    assert forall|n: Seq<char>| goal_names(g1).contains(n) implies goal_names(g2).contains(
        n,
    ) by {
        let i = choose|i: int| 0 <= i < g1.len() && g1[i].achievement_name@ == n;
        assert(g1.contains(g1[i]));
        lemma_contains_of_permutation(g1, g2, g1[i]);
        let j = choose|j: int| 0 <= j < g2.len() && g2[j] == g1[i];
        assert(g2[j].achievement_name@ == n);
    }
}

proof fn lemma_excluded_names_subset(e1: Seq<ExcludedAchievement>, e2: Seq<ExcludedAchievement>)
    requires
        e1.to_multiset() == e2.to_multiset(),
    ensures
        forall|n: Seq<char>| excluded_names(e1).contains(n) ==> excluded_names(e2).contains(n),
{
    assert forall|n: Seq<char>| excluded_names(e1).contains(n) implies excluded_names(
        e2,
    ).contains(n) by {
        let i = choose|i: int| 0 <= i < e1.len() && e1[i].achievement_name@ == n;
        assert(e1.contains(e1[i]));
        lemma_contains_of_permutation(e1, e2, e1[i]);
        let j = choose|j: int| 0 <= j < e2.len() && e2[j] == e1[i];
        assert(e2[j].achievement_name@ == n);
    }
}

/// Exclusion is terminal: a key the exclusion store lists can never lie in
/// the eligible set, whatever the player state and the goal store hold.
pub proof fn lemma_excluded_never_eligible(
    player: Seq<PlayerAchievement>,
    goals: Seq<Achievement>,
    excl: Seq<ExcludedAchievement>,
    name: Seq<char>,
)
    requires
        excluded_names(excl).contains(name),
    ensures
        !eligible_names(player, goals, excl).contains(name),
{
}

} // verus!
