//! What the meter remembers of the local players between runs.
use crate::live::effect_maps::lists_entries;
use vstd::prelude::*;

verus! {

/// A local character and how often it was seen.
#[derive(Debug, Clone)]
pub struct LocalPlayer {
    pub name: String,
    pub count: i32,
}

/// The client id and the local characters by character id.
#[derive(Debug)]
pub struct LocalInfo {
    pub client_id: String,
    pub local_players: LocalPlayers,
}

/// The local players by character id, held in a hashbrown `HashMap` in a
/// field Verus does not see; each method makes one hashbrown call.
#[derive(Debug)]
#[verifier::external_body]
pub struct LocalPlayers {
    map: hashbrown::HashMap<u64, LocalPlayer>,
}

/// What a `LocalPlayers` holds.
pub uninterp spec fn local_players_contents(p: LocalPlayers) -> Map<u64, LocalPlayer>;

impl LocalPlayers {
    pub open spec fn contents(&self) -> Map<u64, LocalPlayer> {
        local_players_contents(*self)
    }

    /// No players (`hashbrown::HashMap::new`).
    #[verifier::external_body]
    pub fn new() -> (r: Self)
        ensures
            local_players_contents(r).dom().is_empty(),
    {
        LocalPlayers { map: hashbrown::HashMap::new() }
    }

    /// The player with character id `character_id` (`HashMap::get`).
    #[verifier::external_body]
    pub fn get(&self, character_id: &u64) -> (r: Option<&LocalPlayer>)
        ensures
            r is Some == local_players_contents(*self).contains_key(*character_id),
            r matches Some(p) ==> *p == local_players_contents(*self)[*character_id],
    {
        self.map.get(character_id)
    }

    /// Sets the player with character id `character_id` (`HashMap::insert`).
    #[verifier::external_body]
    pub fn insert(&mut self, character_id: u64, player: LocalPlayer)
        ensures
            local_players_contents(*final(self)) == local_players_contents(*old(self)).insert(character_id, player),
    {
        self.map.insert(character_id, player);
    }

    /// The number of players (`HashMap::len`).
    #[verifier::external_body]
    pub fn len(&self) -> (r: usize)
        ensures
            r == local_players_contents(*self).dom().len(),
    {
        self.map.len()
    }

    /// Clones of all players with their character ids, in the map's order
    /// (`HashMap::iter`).
    #[verifier::external_body]
    pub fn entries(&self) -> (r: Vec<(u64, LocalPlayer)>)
        ensures
            lists_entries(r@, local_players_contents(*self)),
    {
        self.map.iter().map(|(id, player)| (*id, player.clone())).collect()
    }
}

/// The file that holds the local info between runs.
pub struct LocalPlayerRepository(pub std::path::PathBuf);

/// Calls `uuid::Uuid::new_v4` and writes the id with `to_string`; the
/// contract states only the length of the hyphenated form, since the id is
/// random. `new_v4` panics when the operating system's random source fails.
#[verifier::external_body]
fn random_client_id() -> (r: String)
    ensures
        r@.len() == 36,
{
    uuid::Uuid::new_v4().to_string()
}

impl LocalPlayerRepository {
    /// Fresh local info: a new random client id and no local players.
    pub fn create() -> (r: LocalInfo)
        ensures
            r.client_id@.len() == 36,
            r.local_players.contents().dom().is_empty(),
    {
        LocalInfo { client_id: random_client_id(), local_players: LocalPlayers::new() }
    }
}

} // verus!
