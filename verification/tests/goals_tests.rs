use steam_randomiser::EngineError;
use steam_randomiser::achievement_fetch::{
    GameAchievement, PlayerAchievement, PlayerAchievements, find_achievement_by_name,
};
use steam_randomiser::db::achievement_store::AchievementStore;
use steam_randomiser::db::excluded_achievement_store::ExcludedAchievementStore;
use steam_randomiser::goals::{eligible_achievements, get_random_achievement_for_game};

fn player(entries: &[(&str, i32)]) -> Vec<PlayerAchievement> {
    entries
        .iter()
        .map(|(name, achieved)| PlayerAchievement {
            apiname: name.to_string(),
            achieved: *achieved,
        })
        .collect()
}

fn schema(names: &[&str]) -> Vec<GameAchievement> {
    names
        .iter()
        .map(|name| GameAchievement {
            name: name.to_string(),
            display_name: format!("Display {name}"),
            description: None,
        })
        .collect()
}

#[test]
fn eligible_set_is_unachieved_minus_goals_minus_exclusions() {
    let player_achievements = player(&[("a", 0), ("b", 1), ("c", 0), ("d", 0), ("e", 0)]);

    let mut goals = AchievementStore::new();
    goals.save_achievement(&"c".to_string(), &"C".to_string(), &None, &10, &0);
    let goals_for_app = goals.get_achievements_for_app(&10);

    let mut excluded = ExcludedAchievementStore::new();
    excluded.save_excluded_achievement(&"d".to_string(), &10);
    let excluded_for_app = excluded.get_excluded_achievements_for_app(&10);

    let eligible = eligible_achievements(&player_achievements, &goals_for_app, &excluded_for_app);
    let names: Vec<&str> = eligible.iter().map(|a| a.apiname.as_str()).collect();
    assert_eq!(names, vec!["a", "e"]);
}

#[test]
fn eligible_set_ignores_input_order() {
    let forward = player(&[("a", 0), ("b", 1), ("c", 0)]);
    let backward = player(&[("c", 0), ("b", 1), ("a", 0)]);
    let goals_for_app = Vec::new();
    let excluded_for_app = Vec::new();

    let mut from_forward: Vec<String> = eligible_achievements(
        &forward,
        &goals_for_app,
        &excluded_for_app,
    )
    .iter()
    .map(|a| a.apiname.clone())
    .collect();
    let mut from_backward: Vec<String> = eligible_achievements(
        &backward,
        &goals_for_app,
        &excluded_for_app,
    )
    .iter()
    .map(|a| a.apiname.clone())
    .collect();
    from_forward.sort();
    from_backward.sort();
    assert_eq!(from_forward, from_backward);
}

#[test]
fn selection_with_single_eligible_always_returns_it() {
    let report = PlayerAchievements {
        achievements: player(&[("a", 0), ("b", 1)]),
        game_name: "Some Game".to_string(),
    };
    let game_achievements = schema(&["a", "b"]);
    for _ in 0..50 {
        let drawn = get_random_achievement_for_game(
            &Some(PlayerAchievements {
                achievements: report.achievements.clone(),
                game_name: report.game_name.clone(),
            }),
            &game_achievements,
            &Vec::new(),
            &Vec::new(),
        );
        match drawn {
            Ok(Some(g)) => assert_eq!(g.name, "a"),
            _ => panic!("expected a drawn goal"),
        }
    }
}

#[test]
fn selection_without_stats_returns_nothing() {
    let drawn = get_random_achievement_for_game(&None, &schema(&["a"]), &Vec::new(), &Vec::new());
    assert!(matches!(drawn, Ok(None)));
}

#[test]
fn selection_with_everything_achieved_returns_nothing() {
    let report = PlayerAchievements {
        achievements: player(&[("a", 1), ("b", 1)]),
        game_name: "Some Game".to_string(),
    };
    let drawn = get_random_achievement_for_game(
        &Some(report),
        &schema(&["a", "b"]),
        &Vec::new(),
        &Vec::new(),
    );
    assert!(matches!(drawn, Ok(None)));
}

#[test]
fn drawn_key_missing_from_schema_is_an_inconsistency() {
    let report = PlayerAchievements {
        achievements: player(&[("ghost", 0)]),
        game_name: "Some Game".to_string(),
    };
    let drawn = get_random_achievement_for_game(
        &Some(report),
        &schema(&["a", "b"]),
        &Vec::new(),
        &Vec::new(),
    );
    assert!(matches!(drawn, Err(EngineError::DataInconsistency)));
}

#[test]
fn excluding_a_goal_makes_it_unselectable() {
    let app_id = 42;
    let mut goals = AchievementStore::new();
    goals.save_achievement(&"a".to_string(), &"A".to_string(), &None, &app_id, &0);
    let goal_id = goals.get_achievements_for_app(&app_id)[0].id;

    let mut excluded = ExcludedAchievementStore::new();

    // The one user action: drop the goal, record the exclusion.
    let row = goals.get_achievement(&goal_id).expect("goal row should exist");
    goals.delete_achievement(&goal_id);
    excluded.save_excluded_achievement(&row.achievement_name, &row.app_id);

    let report_entries = player(&[("a", 0), ("b", 0)]);
    let game_achievements = schema(&["a", "b"]);
    for _ in 0..50 {
        let drawn = get_random_achievement_for_game(
            &Some(PlayerAchievements {
                achievements: report_entries.clone(),
                game_name: "Some Game".to_string(),
            }),
            &game_achievements,
            &goals.get_achievements_for_app(&app_id),
            &excluded.get_excluded_achievements_for_app(&app_id),
        )
        .expect("selection should succeed");
        let g = drawn.expect("b is still eligible");
        assert_eq!(g.name, "b");
    }
}

#[test]
fn selection_is_roughly_uniform() {
    let report_entries = player(&[("a", 0), ("b", 0), ("c", 0), ("d", 0)]);
    let game_achievements = schema(&["a", "b", "c", "d"]);
    let trials = 8000;
    let mut counts = [0usize; 4];
    for _ in 0..trials {
        let drawn = get_random_achievement_for_game(
            &Some(PlayerAchievements {
                achievements: report_entries.clone(),
                game_name: "Some Game".to_string(),
            }),
            &game_achievements,
            &Vec::new(),
            &Vec::new(),
        )
        .expect("selection should succeed")
        .expect("four achievements are eligible");
        match drawn.name.as_str() {
            "a" => counts[0] += 1,
            "b" => counts[1] += 1,
            "c" => counts[2] += 1,
            "d" => counts[3] += 1,
            other => panic!("unexpected selection {other}"),
        }
    }
    // Expect about trials / 4 = 2000 each; a band of 2x either way keeps the
    // check far outside random noise while still catching a skewed draw.
    for count in counts {
        assert!(count > 1000 && count < 3000, "skewed selection counts: {counts:?}");
    }
}

#[test]
fn find_achievement_by_name_returns_first_match() {
    let mut s = schema(&["a", "b"]);
    s.push(GameAchievement {
        name: "b".to_string(),
        display_name: "Second b".to_string(),
        description: Some("later duplicate".to_string()),
    });
    let found = find_achievement_by_name(&s, &"b".to_string()).expect("b is listed");
    assert_eq!(found.display_name, "Display b");
    assert!(find_achievement_by_name(&s, &"zzz".to_string()).is_none());
}
