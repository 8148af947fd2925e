use vstd::prelude::*;
use crate::EngineError;

verus! {

/// One achievement of a game as the upstream player-state report lists it:
/// its stable key and whether the player has earned it (nonzero = earned).
pub struct PlayerAchievement {
    pub apiname: String,
    pub achieved: i32,
}

/// The upstream player-state report for one game that does have stats:
/// the per-achievement completion state and the game's display name.
pub struct PlayerAchievements {
    pub achievements: Vec<PlayerAchievement>,
    pub game_name: String,
}

/// One achievement of a game as the upstream schema lists it: its stable
/// key, its display name and an optional description.
pub struct GameAchievement {
    pub name: String,
    pub display_name: String,
    pub description: Option<String>,
}

impl Clone for PlayerAchievement {
    fn clone(&self) -> (res: Self)
        ensures
            res == *self,
    {
        PlayerAchievement { apiname: self.apiname.clone(), achieved: self.achieved }
    }
}

impl Clone for GameAchievement {
    fn clone(&self) -> (res: Self)
        ensures
            res == *self,
    {
        GameAchievement {
            name: self.name.clone(),
            display_name: self.display_name.clone(),
            description: match &self.description {
                Some(d) => Some(d.clone()),
                None => None,
            },
        }
    }
}

/// The set of achievement keys that a schema lists.
pub open spec fn schema_names(schema: Seq<GameAchievement>) -> Set<Seq<char>> {
    Set::new(|n: Seq<char>| exists|i: int| 0 <= i < schema.len() && schema[i].name@ == n)
}

/// Resolves an achievement key against the schema: the first entry whose key
/// equals `name`, or nothing when the schema does not list the key.
pub fn find_achievement_by_name(schema: &Vec<GameAchievement>, name: &String) -> (r: Option<
    GameAchievement,
>)
    ensures
        r is Some <==> schema_names(schema@).contains(name@),
        (match r {
            Some(g) => g.name@ == name@ && exists|i: int|
                0 <= i < schema@.len() && schema@[i] == g && (forall|j: int|
                    0 <= j < i ==> schema@[j].name@ != name@),
            None => forall|i: int| 0 <= i < schema@.len() ==> schema@[i].name@ != name@,
        }),
{
    let mut i: usize = 0;
    while i < schema.len()
        invariant
            0 <= i <= schema@.len(),
            forall|j: int| 0 <= j < i ==> schema@[j].name@ != name@,
        decreases schema@.len() - i,
    {
        if schema[i].name == *name {
            let g = schema[i].clone();
            proof {
                assert(schema@[i as int].name@ == name@);
            }
            return Some(g);
        }
        i += 1;
    }
    None
}

/// Looks an achievement key up in a player-state report: the first entry
/// whose key equals `name`, or nothing when the report does not list it.
pub fn find_player_achievement(player: &Vec<PlayerAchievement>, name: &String) -> (r: Option<
    PlayerAchievement,
>)
    ensures
        r is Some <==> exists|i: int| 0 <= i < player@.len() && player@[i].apiname@ == name@,
        (match r {
            Some(a) => a.apiname@ == name@ && exists|i: int|
                0 <= i < player@.len() && player@[i] == a && (forall|j: int|
                    0 <= j < i ==> player@[j].apiname@ != name@),
            None => forall|i: int| 0 <= i < player@.len() ==> player@[i].apiname@ != name@,
        }),
{
    let mut i: usize = 0;
    while i < player.len()
        invariant
            0 <= i <= player@.len(),
            forall|j: int| 0 <= j < i ==> player@[j].apiname@ != name@,
        decreases player@.len() - i,
    {
        if player[i].apiname == *name {
            let a = player[i].clone();
            proof {
                assert(player@[i as int].apiname@ == name@);
            }
            return Some(a);
        }
        i += 1;
    }
    None
}

/// Interprets a decoded upstream player-state response, as its envelope
/// reports it: a success flag, an optional achievement list and an optional
/// game name. A report without stats (no success, or no achievement list) is
/// not an error: the game simply has nothing to track. A successful report
/// that lists achievements but omits the game name is malformed.
pub fn player_achievements_from_response(
    success: bool,
    achievements: Option<Vec<PlayerAchievement>>,
    game_name: Option<String>,
) -> (r: Result<Option<PlayerAchievements>, EngineError>)
    ensures
        (match r {
            Ok(Some(p)) => success && (achievements matches Some(a) && p.achievements == a) && (
            game_name matches Some(n) && p.game_name == n),
            Ok(None) => !success || achievements is None,
            Err(e) => e == EngineError::MalformedResponse && success && achievements is Some
                && game_name is None,
        }),
        r is Err <==> success && achievements is Some && game_name is None,
        (r matches Ok(p) ==> (p is Some <==> success && achievements is Some && game_name
            is Some)),
{
    if !success {
        return Ok(None);
    }
    match achievements {
        None => Ok(None),
        Some(a) => match game_name {
            None => Err(EngineError::MalformedResponse),
            Some(n) => Ok(Some(PlayerAchievements { achievements: a, game_name: n })),
        },
    }
}

} // verus!
