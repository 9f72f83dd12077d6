use std::collections::HashSet;
use vstd::prelude::*;

use crate::authentication::{Urid, UserRecovery};
use crate::code::{render, GameCode};
use crate::player::{Player, PlayerView, User, UserView};
use crate::request_data::UserRegistration;

verus! {

broadcast use vstd::std_specs::hash::group_hash_axioms;

/// The states a game can be in.
#[derive(Clone, Copy, Debug, PartialEq, Eq, Structural)]
pub enum GameState {
    /// Players can still join.
    Lobby,
    /// The game is on; nobody new can join.
    Started,
}

/// What a game is, as the contracts see it.
pub struct GameView {
    pub players: Seq<PlayerView>,
    pub code: GameCode,
    pub state: GameState,
}

/// Some player is named `name`.
pub open spec fn has_name(ps: Seq<PlayerView>, name: Seq<char>) -> bool {
    exists|i: int| 0 <= i < ps.len() && (#[trigger] ps[i]).user.name == name
}

/// `i` is the first player named `name`.
pub open spec fn first_with_name(ps: Seq<PlayerView>, name: Seq<char>, i: int) -> bool {
    &&& 0 <= i < ps.len()
    &&& ps[i].user.name == name
    &&& forall|j: int| 0 <= j < i ==> (#[trigger] ps[j]).user.name != name
}

/// Some player has the id `uuid`.
pub open spec fn has_uuid(ps: Seq<PlayerView>, uuid: u128) -> bool {
    exists|i: int| 0 <= i < ps.len() && (#[trigger] ps[i]).user.uuid == uuid
}

/// `i` is the first player with the id `uuid`.
pub open spec fn first_with_uuid(ps: Seq<PlayerView>, uuid: u128, i: int) -> bool {
    &&& 0 <= i < ps.len()
    &&& ps[i].user.uuid == uuid
    &&& forall|j: int| 0 <= j < i ==> (#[trigger] ps[j]).user.uuid != uuid
}

/// At most one player is the game master.
pub open spec fn at_most_one_master(ps: Seq<PlayerView>) -> bool {
    forall|i: int, j: int|
        0 <= i < ps.len() && 0 <= j < ps.len() && (#[trigger] ps[i]).master && (#[trigger] ps[j]).master
            ==> i == j
}

/// No two players share an id.
pub open spec fn uuids_distinct(ps: Seq<PlayerView>) -> bool {
    forall|i: int, j: int|
        0 <= i < ps.len() && 0 <= j < ps.len() && i != j ==> (#[trigger] ps[i]).user.uuid
            != (#[trigger] ps[j]).user.uuid
}

/// No two players share a name.
pub open spec fn names_distinct(ps: Seq<PlayerView>) -> bool {
    forall|i: int, j: int|
        0 <= i < ps.len() && 0 <= j < ps.len() && i != j ==> (#[trigger] ps[i]).user.name
            != (#[trigger] ps[j]).user.name
}

/// A game is well formed: its players have distinct ids and distinct names
/// and belong to its code, and at most one of them is the game master.
pub open spec fn game_wf(g: GameView) -> bool {
    &&& at_most_one_master(g.players)
    &&& uuids_distinct(g.players)
    &&& names_distinct(g.players)
    &&& forall|i: int| 0 <= i < g.players.len() ==> (#[trigger] g.players[i]).user.code == g.code
}

/// The players with `uuid` made game master, all others not.
pub open spec fn with_master(ps: Seq<PlayerView>, uuid: u128) -> Seq<PlayerView> {
    ps.map_values(|p: PlayerView| PlayerView { master: p.user.uuid == uuid, ..p })
}

/// No player is connected.
pub open spec fn all_disconnected(ps: Seq<PlayerView>) -> bool {
    forall|i: int| 0 <= i < ps.len() ==> !(#[trigger] ps[i]).user.connected
}

/// The names of the players, in order; only of the connected ones where
/// `connected_only`.
pub open spec fn names_of(ps: Seq<PlayerView>, connected_only: bool) -> Seq<Seq<char>>
    decreases ps.len(),
{
    if ps.len() == 0 {
        Seq::empty()
    } else {
        let rest = names_of(ps.drop_last(), connected_only);
        if !connected_only || ps.last().user.connected {
            rest.push(ps.last().user.name)
        } else {
            rest
        }
    }
}

/// The players with the first one of id `uuid` marked connected or not.
pub open spec fn with_connected(ps: Seq<PlayerView>, i: int, connected: bool) -> Seq<PlayerView> {
    ps.update(i, PlayerView { user: UserView { connected, ..ps[i].user }, ..ps[i] })
}

/// One game: its players in the order they joined, its code and its state.
pub struct GameInstance {
    players: Vec<Player>,
    game_code: GameCode,
    game_state: GameState,
}

impl View for GameInstance {
    type V = GameView;

    closed spec fn view(&self) -> GameView {
        GameView {
            players: self.players@.map_values(|p: Player| p@),
            code: self.game_code,
            state: self.game_state,
        }
    }
}

impl GameInstance {
    /// See `game_wf`.
    pub open spec fn wf(&self) -> bool {
        game_wf(self@)
    }

    /// A game in the lobby, with no players.
    pub fn new(game_code: GameCode) -> (r: Self)
        ensures
            r@ == (GameView { players: Seq::empty(), code: game_code, state: GameState::Lobby }),
            r.wf(),
    {
        let r = GameInstance { players: Vec::new(), game_code, game_state: GameState::Lobby };
        assert(r@.players =~= Seq::<PlayerView>::empty());
        r
    }

    /// Adds a player for `user` if the game is still in the lobby; returns
    /// whether it did.
    pub fn add_user(&mut self, user: User) -> (r: bool)
        ensures
            r == (old(self)@.state == GameState::Lobby),
            final(self)@ == (if r {
                GameView {
                    players: old(self)@.players.push(PlayerView { user: user@, master: false }),
                    ..old(self)@
                }
            } else {
                old(self)@
            }),
            old(self).wf() && user@.code == old(self)@.code && !has_uuid(old(self)@.players, user@.uuid)
                && !has_name(old(self)@.players, user@.name) ==> final(self).wf(),
    {
        match self.game_state {
            GameState::Lobby => {
                let ghost u = user@;
                self.players.push(Player::new(user));
                assert(self@.players =~= old(self)@.players.push(PlayerView { user: u, master: false }));
                true
            },
            _ => false,
        }
    }

    /// Makes the player with id `uuid` the game master and every other player
    /// not; returns `false`, changing nothing, where no player has that id.
    pub fn set_game_master(&mut self, uuid: u128) -> (r: bool)
        ensures
            r == has_uuid(old(self)@.players, uuid),
            final(self)@ == (if r {
                GameView { players: with_master(old(self)@.players, uuid), ..old(self)@ }
            } else {
                old(self)@
            }),
            old(self).wf() ==> final(self).wf(),
    {
        if self.player_by_uuid(uuid).is_none() {
            return false;
        }
        let mut i: usize = 0;
        while i < self.players.len()
            invariant
                0 <= i <= self.players.len(),
                self.players.len() == old(self).players.len(),
                self.game_code == old(self).game_code,
                self.game_state == old(self).game_state,
                forall|j: int| 0 <= j < i ==> (#[trigger] self@.players[j]) == with_master(old(self)@.players, uuid)[j],
                forall|j: int| i <= j < self.players.len() ==> (#[trigger] self@.players[j]) == old(self)@.players[j],
            decreases self.players.len() - i,
        {
            let ghost pre = self@.players;
            assert(pre[i as int] == old(self)@.players[i as int]);
            if self.players[i].user_id() == uuid {
                self.players[i].make_game_master();
            } else {
                self.players[i].revoke_game_master();
            }
            assert(self@.players =~= pre.update(i as int, with_master(old(self)@.players, uuid)[i as int]));
            i += 1;
        }
        assert(self@.players =~= with_master(old(self)@.players, uuid));
        true
    }

    /// All players, in the order they joined.
    pub fn players(&self) -> (r: &Vec<Player>)
        ensures
            r@.map_values(|p: Player| p@) == self@.players,
    {
        &self.players
    }

    /// The game's code.
    pub fn game_code(&self) -> (r: &GameCode)
        ensures
            *r == self@.code,
    {
        &self.game_code
    }

    /// The first player with id `id`, if any.
    pub fn player_by_uuid(&self, id: u128) -> (r: Option<&Player>)
        ensures
            r is Some == has_uuid(self@.players, id),
            r matches Some(p) ==> exists|i: int| first_with_uuid(self@.players, id, i) && p@ == self@.players[i],
    {
        let mut i: usize = 0;
        while i < self.players.len()
            invariant
                0 <= i <= self.players.len(),
                forall|j: int| 0 <= j < i ==> (#[trigger] self@.players[j]).user.uuid != id,
            decreases self.players.len() - i,
        {
            if self.players[i].user_id() == id {
                assert(first_with_uuid(self@.players, id, i as int));
                return Some(&self.players[i]);
            }
            i += 1;
        }
        None
    }

    /// The first player with id `uuid`, if any, to change in place.
    pub fn player_by_uuid_mut(&mut self, uuid: u128) -> (r: Option<&mut Player>)
        ensures
            r is Some == has_uuid(old(self)@.players, uuid),
            r is None ==> final(self)@ == old(self)@,
            r matches Some(p) ==> exists|i: int| {
                &&& first_with_uuid(old(self)@.players, uuid, i)
                &&& p@ == old(self)@.players[i]
                &&& final(self)@ == (GameView { players: old(self)@.players.update(i, final(p)@), ..old(self)@ })
            },
    {
        let mut i: usize = 0;
        while i < self.players.len()
            invariant
                0 <= i <= self.players.len(),
                *self == *old(self),
                forall|j: int| 0 <= j < i ==> (#[trigger] self@.players[j]).user.uuid != uuid,
            decreases self.players.len() - i,
        {
            if self.players[i].user_id() == uuid {
                assert(first_with_uuid(old(self)@.players, uuid, i as int));
                assert forall|x: Player| (#[trigger] self.players@.update(i as int, x)).map_values(|p: Player| p@)
                    == old(self)@.players.update(i as int, x@) by {
                    assert(self.players@.update(i as int, x).map_values(|p: Player| p@)
                        =~= old(self)@.players.update(i as int, x@));
                }
                return Some(&mut self.players[i]);
            }
            i += 1;
        }
        None
    }

    /// Whether a player is named `name`.
    pub fn does_player_exist(&self, name: &String) -> (r: bool)
        ensures
            r == has_name(self@.players, name@),
    {
        self.first_with_name(name).is_some()
    }

    /// Whether the first player named `name` is connected; `false` where no
    /// player has that name.
    pub fn is_player_connected(&self, name: &String) -> (r: bool)
        ensures
            r == exists|i: int| first_with_name(self@.players, name@, i) && self@.players[i].user.connected,
    {
        match self.first_with_name(name) {
            Some(i) => self.players[i].user.connected(),
            None => false,
        }
    }

    /// Whether some player holds the recovery id that `ur` presents.
    pub fn validate_urid(&self, ur: UserRecovery) -> (r: bool)
        ensures
            r == exists|i: int| 0 <= i < self@.players.len() && (#[trigger] self@.players[i]).user.urid == ur.urid,
    {
        let mut i: usize = 0;
        while i < self.players.len()
            invariant
                0 <= i <= self.players.len(),
                forall|j: int| 0 <= j < i ==> (#[trigger] self@.players[j]).user.urid != ur.urid,
            decreases self.players.len() - i,
        {
            assert(self@.players[i as int] == self.players@[i as int]@);
            if self.players[i].user.urid() == ur.urid {
                return true;
            }
            i += 1;
        }
        false
    }

    /// Marks the first player with id `uuid` connected or not; returns
    /// `false`, changing nothing, where no player has that id.
    pub fn set_connected(&mut self, uuid: u128, connected: bool) -> (r: bool)
        ensures
            r == has_uuid(old(self)@.players, uuid),
            r ==> exists|i: int| first_with_uuid(old(self)@.players, uuid, i)
                && final(self)@ == (GameView { players: with_connected(old(self)@.players, i, connected), ..old(self)@ }),
            !r ==> final(self)@ == old(self)@,
            old(self).wf() ==> final(self).wf(),
    {
        let mut i: usize = 0;
        while i < self.players.len()
            invariant
                0 <= i <= self.players.len(),
                *self == *old(self),
                forall|j: int| 0 <= j < i ==> (#[trigger] self@.players[j]).user.uuid != uuid,
            decreases self.players.len() - i,
        {
            if self.players[i].user_id() == uuid {
                self.players[i].user.set_connected(connected);
                assert(first_with_uuid(old(self)@.players, uuid, i as int));
                assert(self@.players =~= with_connected(old(self)@.players, i as int, connected));
                return true;
            }
            i += 1;
        }
        false
    }

    /// Marks the user with id `uuid` connected; returns `false` where no
    /// player has that id.
    pub fn user_connected(&mut self, uuid: u128) -> (r: bool)
        ensures
            r == has_uuid(old(self)@.players, uuid),
            r ==> exists|i: int| first_with_uuid(old(self)@.players, uuid, i)
                && final(self)@ == (GameView { players: with_connected(old(self)@.players, i, true), ..old(self)@ }),
            !r ==> final(self)@ == old(self)@,
            old(self).wf() ==> final(self).wf(),
    {
        self.set_connected(uuid, true)
    }

    /// Whether no player is connected; a game without players is abandoned.
    pub fn abandoned(&self) -> (r: bool)
        ensures
            r == all_disconnected(self@.players),
    {
        let mut i: usize = 0;
        while i < self.players.len()
            invariant
                0 <= i <= self.players.len(),
                forall|j: int| 0 <= j < i ==> !(#[trigger] self@.players[j]).user.connected,
            decreases self.players.len() - i,
        {
            assert(self@.players[i as int] == self.players@[i as int]@);
            if self.players[i].user.connected() {
                return false;
            }
            i += 1;
        }
        true
    }

    /// The game's state.
    pub fn game_state(&self) -> (r: &GameState)
        ensures
            *r == self@.state,
    {
        &self.game_state
    }

    /// Starts the game: from now on nobody new can join.
    pub fn start(&mut self)
        ensures
            final(self)@ == (GameView { state: GameState::Started, ..old(self)@ }),
            old(self).wf() ==> final(self).wf(),
    {
        self.game_state = GameState::Started;
    }

    /// The ids of all players.
    pub fn player_uuids(&self) -> (r: HashSet<u128>)
        ensures
            r@ == Set::new(|u: u128| has_uuid(self@.players, u)),
    {
        let mut set: HashSet<u128> = HashSet::new();
        let mut i: usize = 0;
        while i < self.players.len()
            invariant
                0 <= i <= self.players.len(),
                set@ == Set::new(|u: u128| exists|j: int| 0 <= j < i && (#[trigger] self@.players[j]).user.uuid == u),
            decreases self.players.len() - i,
        {
            let u = self.players[i].user_id();
            assert(self@.players[i as int].user.uuid == u);
            set.insert(u);
            i += 1;
            assert(set@ =~= Set::new(|u: u128| exists|j: int| 0 <= j < i && (#[trigger] self@.players[j]).user.uuid == u));
        }
        assert(set@ =~= Set::new(|u: u128| has_uuid(self@.players, u)));
        set
    }

    /// The recovery ids of all players, in order.
    pub fn player_urids(&self) -> (r: Vec<Urid>)
        ensures
            r@ == self@.players.map_values(|p: PlayerView| p.user.urid),
    {
        let mut v: Vec<Urid> = Vec::new();
        let mut i: usize = 0;
        while i < self.players.len()
            invariant
                0 <= i <= self.players.len(),
                v@ == self@.players.subrange(0, i as int).map_values(|p: PlayerView| p.user.urid),
            decreases self.players.len() - i,
        {
            v.push(self.players[i].user.urid());
            i += 1;
            assert(v@ =~= self@.players.subrange(0, i as int).map_values(|p: PlayerView| p.user.urid));
        }
        assert(self@.players.subrange(0, i as int) =~= self@.players);
        v
    }

    /// The registration of the first player named `name`, if any.
    pub fn user_registration(&self, name: &String) -> (r: Option<UserRegistration>)
        ensures
            r is Some == has_name(self@.players, name@),
            r matches Some(reg) ==> exists|i: int|
                first_with_name(self@.players, name@, i) && {
                    let u = self@.players[i].user;
                    &&& reg.spec_uuid() == u.uuid
                    &&& reg.spec_urid() == u.urid
                    &&& reg.spec_game_code() == render(u.code@)
                },
    {
        match self.first_with_name(name) {
            Some(i) => Some(UserRegistration::from_user(&self.players[i].user)),
            None => None,
        }
    }

    /// The names of the players in the order they joined; only of the
    /// connected ones where `connected_only`.
    pub fn player_names(&self, connected_only: bool) -> (r: Vec<String>)
        ensures
            r@.map_values(|s: String| s@) == names_of(self@.players, connected_only),
    {
        let mut names: Vec<String> = Vec::new();
        let mut i: usize = 0;
        while i < self.players.len()
            invariant
                0 <= i <= self.players.len(),
                names@.map_values(|s: String| s@) == names_of(self@.players.subrange(0, i as int), connected_only),
            decreases self.players.len() - i,
        {
            let ghost before = names@;
            if !connected_only || self.players[i].user.connected() {
                names.push(self.players[i].username());
            }
            i += 1;
            assert(self@.players.subrange(0, i as int).drop_last() =~= self@.players.subrange(0, i - 1 as int));
            assert(names@.map_values(|s: String| s@) =~= names_of(self@.players.subrange(0, i as int), connected_only));
        }
        assert(self@.players.subrange(0, i as int) =~= self@.players);
        names
    }

    /// The index of the first player named `name`.
    fn first_with_name(&self, name: &String) -> (r: Option<usize>)
        ensures
            r is Some == has_name(self@.players, name@),
            r matches Some(i) ==> first_with_name(self@.players, name@, i as int),
    {
        let mut i: usize = 0;
        while i < self.players.len()
            invariant
                0 <= i <= self.players.len(),
                forall|j: int| 0 <= j < i ==> (#[trigger] self@.players[j]).user.name != name@,
            decreases self.players.len() - i,
        {
            assert(self@.players[i as int] == self.players@[i as int]@);
            if self.players[i].user.name() == *name {
                return Some(i);
            }
            i += 1;
        }
        None
    }
}

} // verus!
