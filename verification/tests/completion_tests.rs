use steam_randomiser::EngineError;
use steam_randomiser::achievement_fetch::{
    PlayerAchievement, PlayerAchievements, player_achievements_from_response,
};
use steam_randomiser::completion::{completion_entry, count_unachieved, needs_refresh};
use steam_randomiser::db::excluded_achievement_store::ExcludedAchievementStore;
use steam_randomiser::db::game_completion_cache::GameCompletionCache;
use steam_randomiser::game_fetch::Game;

fn player(entries: &[(&str, i32)]) -> Vec<PlayerAchievement> {
    entries
        .iter()
        .map(|(name, achieved)| PlayerAchievement {
            apiname: name.to_string(),
            achieved: *achieved,
        })
        .collect()
}

fn game(appid: i32, playtime_forever: i32, last_played: i64) -> Game {
    Game { appid, name: format!("Game {appid}"), playtime_forever, last_played }
}

fn report(entries: &[(&str, i32)]) -> Option<PlayerAchievements> {
    Some(PlayerAchievements {
        achievements: player(entries),
        game_name: "Some Game".to_string(),
    })
}

#[test]
fn no_stats_game_is_vacuously_complete() {
    let e = completion_entry(&game(10, 60, 500), &None, &Vec::new());
    assert_eq!(e.app_id, 10);
    assert_eq!(e.complete, 100);
    assert_eq!(e.last_played, 500);
    assert!(!e.has_achievements);
}

#[test]
fn percentage_truncates_toward_zero() {
    // 1 of 2 unachieved: exactly 50.
    let e = completion_entry(&game(10, 60, 0), &report(&[("a", 0), ("b", 1)]), &Vec::new());
    assert_eq!(e.complete, 50);
    assert!(e.has_achievements);

    // 1 of 3 unachieved: 66.66... truncates to 66.
    let e = completion_entry(
        &game(10, 60, 0),
        &report(&[("a", 0), ("b", 1), ("c", 1)]),
        &Vec::new(),
    );
    assert_eq!(e.complete, 66);

    // Everything unachieved: 0.
    let e = completion_entry(&game(10, 60, 0), &report(&[("a", 0), ("b", 0)]), &Vec::new());
    assert_eq!(e.complete, 0);
}

#[test]
fn all_achieved_or_excluded_is_fully_complete() {
    let e = completion_entry(&game(10, 60, 0), &report(&[("a", 1), ("b", 1)]), &Vec::new());
    assert_eq!(e.complete, 100);
    assert!(e.has_achievements);

    // The one unachieved key is excluded, so the game counts as complete.
    let mut excluded = ExcludedAchievementStore::new();
    excluded.save_excluded_achievement(&"a".to_string(), &10);
    let e = completion_entry(
        &game(10, 60, 0),
        &report(&[("a", 0), ("b", 1)]),
        &excluded.get_excluded_achievements_for_app(&10),
    );
    assert_eq!(e.complete, 100);

    // A report that lists no achievements at all is complete as well.
    let e = completion_entry(&game(10, 60, 0), &report(&[]), &Vec::new());
    assert_eq!(e.complete, 100);
    assert!(e.has_achievements);
}

#[test]
fn count_unachieved_skips_achieved_and_excluded() {
    let mut excluded = ExcludedAchievementStore::new();
    excluded.save_excluded_achievement(&"c".to_string(), &10);
    let n = count_unachieved(
        &player(&[("a", 0), ("b", 1), ("c", 0), ("d", 0)]),
        &excluded.get_excluded_achievements_for_app(&10),
    );
    assert_eq!(n, 2);
}

#[test]
fn refresh_skips_unplayed_and_fresh_games() {
    let mut cache = GameCompletionCache::new();

    // No recorded play time: skipped unconditionally.
    assert!(!needs_refresh(&game(10, 0, 500), &cache));

    // Played but never cached: must refresh.
    assert!(needs_refresh(&game(10, 60, 500), &cache));

    cache.save_game_completion(&10, 50, 500, true);

    // Cached at the same last-played timestamp: fresh.
    assert!(!needs_refresh(&game(10, 60, 500), &cache));

    // New play activity: stale again.
    assert!(needs_refresh(&game(10, 60, 501), &cache));
}

#[test]
fn refreshing_twice_changes_nothing_the_second_time() {
    let mut cache = GameCompletionCache::new();
    let g = game(10, 60, 500);
    let upstream = report(&[("a", 0), ("b", 1)]);

    // First pass: the game is stale, so it is queried and written.
    assert!(needs_refresh(&g, &cache));
    let e = completion_entry(&g, &upstream, &Vec::new());
    cache.save_game_completion(&e.app_id, e.complete, e.last_played, e.has_achievements);
    let after_first = cache.get_game_completion();

    // Second pass over the unchanged game list: fresh, so nothing runs.
    assert!(!needs_refresh(&g, &cache));
    let after_second = cache.get_game_completion();
    assert_eq!(after_first, after_second);

    // Even a redundant rewrite of the same entry would leave it identical.
    cache.save_game_completion(&e.app_id, e.complete, e.last_played, e.has_achievements);
    assert_eq!(cache.get_game_completion(), after_first);
}

#[test]
fn response_interpretation_distinguishes_no_stats_from_malformed() {
    let achievements = player(&[("a", 0)]);

    let ok = player_achievements_from_response(
        true,
        Some(achievements.clone()),
        Some("Some Game".to_string()),
    )
    .expect("well-formed response")
    .expect("stats are present");
    assert_eq!(ok.game_name, "Some Game");
    assert_eq!(ok.achievements.len(), 1);

    // An unsuccessful report, or one without an achievement list, means the
    // game has no stats.
    assert!(player_achievements_from_response(false, None, None)
        .expect("well-formed response")
        .is_none());
    assert!(player_achievements_from_response(true, None, Some("Some Game".to_string()))
        .expect("well-formed response")
        .is_none());
    assert!(player_achievements_from_response(false, Some(achievements.clone()), None)
        .expect("well-formed response")
        .is_none());

    // Achievements without a game name: the envelope is malformed.
    let err = player_achievements_from_response(true, Some(achievements), None);
    assert!(matches!(err, Err(EngineError::MalformedResponse)));
}
