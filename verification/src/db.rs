pub mod achievement_store;
pub mod excluded_achievement_store;
pub mod game_completion_cache;
pub mod request_store;
