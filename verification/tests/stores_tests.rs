use steam_randomiser::db::achievement_store::AchievementStore;
use steam_randomiser::db::excluded_achievement_store::ExcludedAchievementStore;
use steam_randomiser::db::game_completion_cache::GameCompletionCache;
use steam_randomiser::game_fetch::Game;
use steam_randomiser::game_list::{GameListItem, get_goals};

fn sample_game(appid: i32) -> Game {
    Game {
        appid,
        name: format!("Game {appid}"),
        playtime_forever: 60,
        last_played: 1_700_000_000,
    }
}

#[test]
fn save_assigns_fresh_identifiers_and_get_filters_by_app() {
    let mut store = AchievementStore::new();
    store.save_achievement(
        &"a".to_string(),
        &"A".to_string(),
        &Some("first".to_string()),
        &10,
        &111,
    );
    store.save_achievement(&"b".to_string(), &"B".to_string(), &None, &20, &222);
    store.save_achievement(&"c".to_string(), &"C".to_string(), &None, &10, &333);

    let all = store.get_achievements();
    assert_eq!(all.len(), 3);
    assert_eq!(all[0].id, 1);
    assert_eq!(all[1].id, 2);
    assert_eq!(all[2].id, 3);

    let for_10 = store.get_achievements_for_app(&10);
    assert_eq!(for_10.len(), 2);
    assert_eq!(for_10[0].achievement_name, "a");
    assert_eq!(for_10[0].display_name, "A");
    assert_eq!(for_10[0].description.as_deref(), Some("first"));
    assert_eq!(for_10[0].last_played, 111);
    assert_eq!(for_10[1].achievement_name, "c");
}

#[test]
fn get_achievement_finds_by_id_and_misses_cleanly() {
    let mut store = AchievementStore::new();
    store.save_achievement(&"a".to_string(), &"A".to_string(), &None, &10, &0);
    let row = store.get_achievement(&1).expect("row 1 exists");
    assert_eq!(row.achievement_name, "a");
    assert!(store.get_achievement(&99).is_none());
}

#[test]
fn delete_removes_exactly_the_requested_row() {
    let mut store = AchievementStore::new();
    store.save_achievement(&"a".to_string(), &"A".to_string(), &None, &10, &0);
    store.save_achievement(&"b".to_string(), &"B".to_string(), &None, &10, &0);
    store.delete_achievement(&1);
    let all = store.get_achievements();
    assert_eq!(all.len(), 1);
    assert_eq!(all[0].achievement_name, "b");
    // Deleting a missing identifier leaves the store unchanged.
    store.delete_achievement(&99);
    assert_eq!(store.get_achievements().len(), 1);
}

#[test]
fn update_last_played_touches_only_the_requested_row() {
    let mut store = AchievementStore::new();
    store.save_achievement(&"a".to_string(), &"A".to_string(), &None, &10, &5);
    store.save_achievement(&"b".to_string(), &"B".to_string(), &None, &10, &5);
    store.update_last_played(&2, &77);
    let all = store.get_achievements();
    assert_eq!(all[0].last_played, 5);
    assert_eq!(all[1].last_played, 77);
    assert_eq!(all[1].achievement_name, "b");
}

#[test]
fn exclusions_append_and_filter_by_app() {
    let mut store = ExcludedAchievementStore::new();
    store.save_excluded_achievement(&"a".to_string(), &10);
    store.save_excluded_achievement(&"b".to_string(), &20);
    store.save_excluded_achievement(&"c".to_string(), &10);
    let for_10 = store.get_excluded_achievements_for_app(&10);
    assert_eq!(for_10.len(), 2);
    assert_eq!(for_10[0].achievement_name, "a");
    assert_eq!(for_10[0].id, 1);
    assert_eq!(for_10[1].achievement_name, "c");
    assert_eq!(for_10[1].id, 3);
}

#[test]
fn completion_cache_upserts_whole_entries() {
    let mut cache = GameCompletionCache::new();
    cache.save_game_completion(&10, 40, 100, true);
    cache.save_game_completion(&20, 100, 200, false);

    // A second write for the same game replaces every field at once.
    cache.save_game_completion(&10, 75, 150, true);

    let rows = cache.get_game_completion();
    assert_eq!(rows.len(), 2);
    assert_eq!(rows[0].app_id, 10);
    assert_eq!(rows[0].complete, 75);
    assert_eq!(rows[0].last_played, 150);
    assert!(rows[0].has_achievements);
    assert_eq!(rows[1].app_id, 20);

    let entry = cache.find_entry(&20).expect("entry for 20 exists");
    assert_eq!(entry.complete, 100);
    assert!(cache.find_entry(&30).is_none());

    cache.drop_table();
    assert!(cache.get_game_completion().is_empty());
}

#[test]
fn get_goals_orders_by_owning_game() {
    let mut store = AchievementStore::new();
    store.save_achievement(&"z".to_string(), &"Z".to_string(), &None, &30, &0);
    store.save_achievement(&"a".to_string(), &"A".to_string(), &None, &10, &0);
    store.save_achievement(&"m".to_string(), &"M".to_string(), &None, &20, &0);
    store.save_achievement(&"b".to_string(), &"B".to_string(), &None, &10, &0);
    let goals = get_goals(&store);
    let app_ids: Vec<i32> = goals.iter().map(|g| g.app_id).collect();
    assert_eq!(app_ids, vec![10, 10, 20, 30]);
    let mut names: Vec<String> = goals.iter().map(|g| g.achievement_name.clone()).collect();
    names.sort();
    assert_eq!(names, vec!["a", "b", "m", "z"]);
}

#[test]
fn game_list_item_select_toggles() {
    let mut item = GameListItem { game: sample_game(10), selected: false };
    item.select();
    assert!(item.selected);
    assert_eq!(item.game.appid, 10);
    item.select();
    assert!(!item.selected);
}
