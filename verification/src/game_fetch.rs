use vstd::prelude::*;

verus! {

/// One owned game as the upstream owned-games report lists it: its
/// identifier, its display name, the total play time in minutes and the
/// last-played timestamp in epoch seconds.
pub struct Game {
    pub appid: i32,
    pub name: String,
    pub playtime_forever: i32,
    pub last_played: i64,
}

impl Clone for Game {
    fn clone(&self) -> (res: Self)
        ensures
            res == *self,
    {
        Game {
            appid: self.appid,
            name: self.name.clone(),
            playtime_forever: self.playtime_forever,
            last_played: self.last_played,
        }
    }
}

/// Looks a game up in an owned-games list by its identifier: the first entry
/// with that identifier, or nothing when the list has none.
pub fn find_game_by_appid(games: &Vec<Game>, appid: i32) -> (r: Option<Game>)
    ensures
        r is Some <==> exists|i: int| 0 <= i < games@.len() && games@[i].appid == appid,
        (match r {
            Some(g) => g.appid == appid && exists|i: int|
                0 <= i < games@.len() && games@[i] == g && (forall|j: int|
                    0 <= j < i ==> games@[j].appid != appid),
            None => forall|i: int| 0 <= i < games@.len() ==> games@[i].appid != appid,
        }),
{
    let mut i: usize = 0;
    while i < games.len()
        invariant
            0 <= i <= games@.len(),
            forall|j: int| 0 <= j < i ==> games@[j].appid != appid,
        decreases games@.len() - i,
    {
        if games[i].appid == appid {
            let g = games[i].clone();
            return Some(g);
        }
        i += 1;
    }
    None
}

} // verus!
