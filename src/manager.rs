use std::collections::HashMap;
use vstd::prelude::*;

use crate::authentication::{registered, unregistered, UserAuth, UserRecovery, Urid, Urids, RANDOM_ATTEMPTS};
use crate::code::{
    game_code_charset_char, is_code_char, lemma_code_view_injective, lemma_ordinal_injective, lemma_ordinal_range, render, GameCode,
    GAME_CODE_CHARSET_LEN, GAME_CODE_SPACE,
};
use crate::fresh::lemma_small_value_free;
use crate::instance::{
    all_disconnected, first_with_name, first_with_uuid, game_wf, has_name, has_uuid, names_of, with_connected,
    GameInstance, GameState, GameView,
};
use crate::player::{PlayerView, User, UserView};
use crate::request_data::{EventData, UserRegistration};
use crate::rng::{random_below, random_uuid_value};

verus! {

broadcast use vstd::std_specs::hash::group_hash_axioms, lemma_code_view_injective;

/// How many random codes are drawn before the free codes are searched in
/// order.
pub const CODE_ATTEMPTS: u32 = 1000;

/// The key a game is stored under: the number of its code.
pub open spec fn key_of(c: GameCode) -> u128 {
    c.ordinal_spec() as u128
}

/// Some game has the code `c`.
pub open spec fn has_code(gs: Map<u128, GameView>, c: GameCode) -> bool {
    exists|k: u128| #[trigger] gs.contains_key(k) && gs[k].code == c
}

/// The registry is well formed: each game is well formed and stored under
/// the number of its valid code (so no two games share a code), and `uuids`
/// maps exactly the ids of the registered players to the codes of their
/// games.
pub open spec fn registry_wf(gs: Map<u128, GameView>, uuids: Map<u128, GameCode>) -> bool {
    &&& forall|k: u128| #[trigger] gs.contains_key(k)
        ==> game_wf(gs[k]) && gs[k].code.valid() && key_of(gs[k].code) == k
    &&& forall|k: u128, j: int| gs.contains_key(k) && 0 <= j < gs[k].players.len()
        ==> uuids.contains_key(#[trigger] gs[k].players[j].user.uuid) && uuids[gs[k].players[j].user.uuid] == gs[k].code
    &&& forall|u: u128| #[trigger] uuids.contains_key(u)
        ==> exists|k: u128| gs.contains_key(k) && #[trigger] has_uuid(gs[k].players, u)
}

/// In a well-formed registry the game with the code `c`, if any, is the one
/// stored under `key_of(c)`.
proof fn lemma_code_at_key(gs: Map<u128, GameView>, uuids: Map<u128, GameCode>, c: GameCode)
    requires
        registry_wf(gs, uuids),
    ensures
        has_code(gs, c) <==> (gs.contains_key(key_of(c)) && gs[key_of(c)].code == c),
{
    if has_code(gs, c) {
        let k = choose|k: u128| #[trigger] gs.contains_key(k) && gs[k].code == c;
        assert(key_of(gs[k].code) == k);
    }
    if gs.contains_key(key_of(c)) && gs[key_of(c)].code == c {
        assert(gs.contains_key(key_of(c)));
    }
}

/// The players with the first one of id `uuid`, if any, marked connected or
/// not.
pub open spec fn marked(ps: Seq<PlayerView>, uuid: u128, connected: bool) -> Seq<PlayerView> {
    if has_uuid(ps, uuid) {
        with_connected(ps, choose|i: int| first_with_uuid(ps, uuid, i), connected)
    } else {
        ps
    }
}

/// The games with the players of the one under `k` replaced by `ps`.
pub open spec fn with_players(gs: Map<u128, GameView>, k: u128, ps: Seq<PlayerView>) -> Map<u128, GameView> {
    gs.insert(k, GameView { players: ps, ..gs[k] })
}

/// Replacing a game by one with the same code and the same player ids keeps
/// the registry well formed, where the new game is well formed.
proof fn lemma_update_wf(gs: Map<u128, GameView>, uuids: Map<u128, GameCode>, k: u128, g2: GameView)
    requires
        registry_wf(gs, uuids),
        gs.contains_key(k),
        g2.code == gs[k].code,
        g2.players.len() == gs[k].players.len(),
        forall|j: int| 0 <= j < g2.players.len() ==> (#[trigger] g2.players[j]).user.uuid == gs[k].players[j].user.uuid,
        game_wf(g2),
    ensures
        registry_wf(gs.insert(k, g2), uuids),
{
    let gs2 = gs.insert(k, g2);
    assert forall|a: u128, j: int| gs2.contains_key(a) && 0 <= j < gs2[a].players.len() implies
        uuids.contains_key(#[trigger] gs2[a].players[j].user.uuid) && uuids[gs2[a].players[j].user.uuid] == gs2[a].code by {
        assert(uuids.contains_key(gs[a].players[j].user.uuid));
    }
    assert forall|u: u128| #[trigger] uuids.contains_key(u) implies
        exists|a: u128| gs2.contains_key(a) && #[trigger] has_uuid(gs2[a].players, u) by {
        let a = choose|a: u128| gs.contains_key(a) && #[trigger] has_uuid(gs[a].players, u);
        let j = choose|j: int| 0 <= j < gs[a].players.len() && (#[trigger] gs[a].players[j]).user.uuid == u;
        assert(gs2[a].players[j].user.uuid == u);
        assert(has_uuid(gs2[a].players, u));
    }
    assert forall|a: u128| #[trigger] gs2.contains_key(a) implies
        game_wf(gs2[a]) && gs2[a].code.valid() && key_of(gs2[a].code) == a by {
        assert(gs.contains_key(a));
    }
}

/// The ids of the players of `g`.
pub open spec fn uuids_of(g: GameView) -> Set<u128> {
    Set::new(|u: u128| has_uuid(g.players, u))
}

/// The recovery ids of the players of `g`, in order.
pub open spec fn urids_of(g: GameView) -> Seq<Urid> {
    g.players.map_values(|p: PlayerView| p.user.urid)
}

/// The registry `(gs2, uuids2, us2)` is `(gs, uuids, us)` without the game
/// under `k`: its code, the ids of its players and their recovery ids are
/// released.
pub open spec fn deletion(
    gs: Map<u128, GameView>,
    uuids: Map<u128, GameCode>,
    us: Urids,
    k: u128,
    gs2: Map<u128, GameView>,
    uuids2: Map<u128, GameCode>,
    us2: Urids,
) -> bool {
    &&& gs2 == gs.remove(k)
    &&& uuids2 == uuids.remove_keys(uuids_of(gs[k]))
    &&& unregistered(us, us2, urids_of(gs[k]))
}

/// Removing a game together with the ids of its players keeps the registry
/// well formed.
proof fn lemma_delete_wf(gs: Map<u128, GameView>, uuids: Map<u128, GameCode>, k: u128)
    requires
        registry_wf(gs, uuids),
        gs.contains_key(k),
    ensures
        registry_wf(gs.remove(k), uuids.remove_keys(uuids_of(gs[k]))),
{
    let gs2 = gs.remove(k);
    let m2 = uuids.remove_keys(uuids_of(gs[k]));
    assert forall|a: u128, j: int| gs2.contains_key(a) && 0 <= j < gs2[a].players.len() implies
        m2.contains_key(#[trigger] gs2[a].players[j].user.uuid) && m2[gs2[a].players[j].user.uuid] == gs2[a].code by {
        let u = gs[a].players[j].user.uuid;
        assert(uuids.contains_key(u) && uuids[u] == gs[a].code);
        if uuids_of(gs[k]).contains(u) {
            let jj = choose|jj: int| 0 <= jj < gs[k].players.len() && (#[trigger] gs[k].players[jj]).user.uuid == u;
            assert(uuids[gs[k].players[jj].user.uuid] == gs[k].code);
            assert(key_of(gs[a].code) == a && key_of(gs[k].code) == k);
        }
    }
    assert forall|u: u128| #[trigger] m2.contains_key(u) implies
        exists|a: u128| gs2.contains_key(a) && #[trigger] has_uuid(gs2[a].players, u) by {
        let a = choose|a: u128| gs.contains_key(a) && #[trigger] has_uuid(gs[a].players, u);
        assert(a != k);
        assert(gs2.contains_key(a) && gs2[a] == gs[a]);
    }
    assert forall|a: u128| #[trigger] gs2.contains_key(a) implies
        game_wf(gs2[a]) && gs2[a].code.valid() && key_of(gs2[a].code) == a by {
        assert(gs.contains_key(a));
    }
}

/// Adding a player with an id and a name not in use to a game keeps the
/// registry well formed.
proof fn lemma_join_wf(gs: Map<u128, GameView>, uuids: Map<u128, GameCode>, k: u128, p: PlayerView)
    requires
        registry_wf(gs, uuids),
        gs.contains_key(k),
        !uuids.contains_key(p.user.uuid),
        !has_name(gs[k].players, p.user.name),
        p.user.code == gs[k].code,
        !p.master,
    ensures
        !has_uuid(gs[k].players, p.user.uuid),
        registry_wf(
            gs.insert(k, GameView { players: gs[k].players.push(p), ..gs[k] }),
            uuids.insert(p.user.uuid, gs[k].code),
        ),
{
    let g = gs[k];
    let g2 = GameView { players: g.players.push(p), ..g };
    let gs2 = gs.insert(k, g2);
    let m2 = uuids.insert(p.user.uuid, g.code);
    if has_uuid(g.players, p.user.uuid) {
        let j = choose|j: int| 0 <= j < g.players.len() && (#[trigger] g.players[j]).user.uuid == p.user.uuid;
        assert(uuids.contains_key(gs[k].players[j].user.uuid));
    }
    assert forall|a: int, b: int| 0 <= a < g2.players.len() && 0 <= b < g2.players.len() && a != b
        implies (#[trigger] g2.players[a]).user.uuid != (#[trigger] g2.players[b]).user.uuid by {
        if a == g.players.len() {
            assert(uuids.contains_key(gs[k].players[b].user.uuid));
        } else if b == g.players.len() {
            assert(uuids.contains_key(gs[k].players[a].user.uuid));
        }
    }
    assert forall|a: int, b: int| 0 <= a < g2.players.len() && 0 <= b < g2.players.len() && a != b
        implies (#[trigger] g2.players[a]).user.name != (#[trigger] g2.players[b]).user.name by {
        if a == g.players.len() {
            assert(g.players[b] == g2.players[b]);
        } else if b == g.players.len() {
            assert(g.players[a] == g2.players[a]);
        }
    }
    assert forall|a: int, b: int| 0 <= a < g2.players.len() && 0 <= b < g2.players.len()
        && (#[trigger] g2.players[a]).master && (#[trigger] g2.players[b]).master implies a == b by {
        assert(a < g.players.len() && b < g.players.len());
    }
    assert(game_wf(g2));
    assert forall|a: u128, j: int| gs2.contains_key(a) && 0 <= j < gs2[a].players.len() implies
        m2.contains_key(#[trigger] gs2[a].players[j].user.uuid) && m2[gs2[a].players[j].user.uuid] == gs2[a].code by {
        if a == k {
            if j < g.players.len() {
                assert(gs2[a].players[j] == gs[k].players[j]);
                assert(uuids.contains_key(gs[k].players[j].user.uuid));
            }
        } else {
            assert(uuids.contains_key(gs[a].players[j].user.uuid));
        }
    }
    assert forall|u: u128| #[trigger] m2.contains_key(u) implies
        exists|a: u128| gs2.contains_key(a) && #[trigger] has_uuid(gs2[a].players, u) by {
        if u == p.user.uuid {
            assert(gs2[k].players[g.players.len() as int].user.uuid == u);
            assert(has_uuid(gs2[k].players, u));
        } else {
            let a = choose|a: u128| gs.contains_key(a) && #[trigger] has_uuid(gs[a].players, u);
            let j = choose|j: int| 0 <= j < gs[a].players.len() && (#[trigger] gs[a].players[j]).user.uuid == u;
            assert(gs2[a].players[j] == gs[a].players[j]);
            assert(has_uuid(gs2[a].players, u));
        }
    }
    assert forall|a: u128| #[trigger] gs2.contains_key(a) implies
        game_wf(gs2[a]) && gs2[a].code.valid() && key_of(gs2[a].code) == a by {
        assert(gs.contains_key(a));
    }
}

/// Two live games never share a code: a new code is one that no live game
/// has, and deleting a game releases its code.
pub proof fn lemma_live_codes_distinct(m: GameManager, a: u128, b: u128)
    requires
        m.wf(),
        m.games().contains_key(a),
        m.games().contains_key(b),
        a != b,
    ensures
        m.games()[a].code != m.games()[b].code,
{
    assert(key_of(m.games()[a].code) == a && key_of(m.games()[b].code) == b);
}

/// In every game at most one player is the game master.
pub proof fn lemma_single_game_master(m: GameManager, k: u128, a: int, b: int)
    requires
        m.wf(),
        m.games().contains_key(k),
        0 <= a < m.games()[k].players.len(),
        0 <= b < m.games()[k].players.len(),
        m.games()[k].players[a].master,
        m.games()[k].players[b].master,
    ensures
        a == b,
{
    assert(game_wf(m.games()[k]));
}

/// Deleting a game frees its code, the ids of its players and their
/// recovery ids: the code no longer names a game, so `does_game_exist` is
/// false for it and `create_game_with_code` accepts it again, and no id or
/// recovery id of the game is still in use.
pub proof fn lemma_deletion_frees(
    gs: Map<u128, GameView>,
    uuids: Map<u128, GameCode>,
    us: Urids,
    k: u128,
    gs2: Map<u128, GameView>,
    uuids2: Map<u128, GameCode>,
    us2: Urids,
)
    requires
        registry_wf(gs, uuids),
        gs.contains_key(k),
        deletion(gs, uuids, us, k, gs2, uuids2, us2),
    ensures
        !has_code(gs2, gs[k].code),
        forall|u: u128| #[trigger] uuids_of(gs[k]).contains(u) ==> !uuids2.contains_key(u),
        forall|j: int| 0 <= j < gs[k].players.len()
            ==> !us2.used().contains((#[trigger] gs[k].players[j]).user.urid.spec_value()),
{
    let g = gs[k];
    if has_code(gs2, g.code) {
        let a = choose|a: u128| #[trigger] gs2.contains_key(a) && gs2[a].code == g.code;
        assert(gs.contains_key(a));
        assert(key_of(gs[a].code) == a);
    }
    assert forall|j: int| 0 <= j < g.players.len() implies
        !us2.used().contains((#[trigger] g.players[j]).user.urid.spec_value()) by {
        assert(urids_of(g)[j].spec_value() == g.players[j].user.urid.spec_value());
    }
}

/// Names are unique within a game, so a player with a given name is the
/// first with it: what `add_player_to_game` states of the first player with
/// the name holds of every player. In particular a rejoin by the name of a
/// disconnected player hands back that player's registration and leaves
/// the registry as it was, so a second such join hands back the same.
pub proof fn lemma_named_player_is_first(m: GameManager, k: u128, j: int)
    requires
        m.wf(),
        m.games().contains_key(k),
        0 <= j < m.games()[k].players.len(),
    ensures
        first_with_name(m.games()[k].players, m.games()[k].players[j].user.name, j),
{
    assert(game_wf(m.games()[k]));
}
/// A name taken by a join stays taken: the player a join adds is connected
/// and is the only player with the name, so a second join under the name
/// meets the connected case of `add_player_to_game` and, without that
/// player's recovery id, is refused with `NameTaken`, changing nothing.
pub proof fn lemma_joined_player_holds_name(ps: Seq<PlayerView>, p: PlayerView)
    requires
        !has_name(ps, p.user.name),
        p.user.connected,
    ensures
        first_with_name(ps.push(p), p.user.name, ps.len() as int),
        ps.push(p)[ps.len() as int].user.connected,
{
    let qs = ps.push(p);
    assert forall|j: int| 0 <= j < ps.len() implies (#[trigger] qs[j]).user.name != p.user.name by {
        assert(qs[j] == ps[j]);
    }
}

/// `e` tells the players of the game `code` that `name` joined.
pub open spec fn is_add_player_event(e: EventData, code: GameCode, name: Seq<char>) -> bool {
    &&& e.spec_user_id() == Seq::<char>::empty()
    &&& e.spec_game_code() == render(code@)
    &&& e.spec_kind() == "AddPlayer"@
    &&& e.spec_payload() == Some(name)
}

/// `post` is `pre` with one event that tells the players of the game `code`
/// that `name` joined appended.
pub open spec fn add_player_event_pushed(pre: Seq<EventData>, post: Seq<EventData>, code: GameCode, name: Seq<char>) -> bool {
    &&& post.len() == pre.len() + 1
    &&& post.drop_last() == pre
    &&& is_add_player_event(post.last(), code, name)
}

/// `post` is `pre` with a new game under `code` in the lobby, whose only
/// player is `name`, its game master, with a new id and a recovery id from
/// `Urids::register`; `reg` is that player's registration.
pub open spec fn created(
    pre: GameManager,
    post: GameManager,
    code: GameCode,
    name: Seq<char>,
    ip_addr: Option<u128>,
    reg: UserRegistration,
) -> bool {
    exists|uuid: u128, urid: Urid| {
        &&& !pre.uuids().contains_key(uuid)
        &&& registered(pre.urid_store(), post.urid_store(), ip_addr, urid)
        &&& post.games() == pre.games().insert(key_of(code), GameView {
            players: seq![PlayerView {
                user: UserView { name, uuid, urid, code, connected: true },
                master: true,
            }],
            code,
            state: GameState::Lobby,
        })
        &&& post.uuids() == pre.uuids().insert(uuid, code)
        &&& reg.spec_uuid() == uuid
        &&& reg.spec_urid() == urid
        &&& reg.spec_game_code() == render(code@)
    }
}

/// `reg` is the registration of the player `p`.
pub open spec fn registration_of(reg: UserRegistration, p: PlayerView) -> bool {
    &&& reg.spec_uuid() == p.user.uuid
    &&& reg.spec_urid() == p.user.urid
    &&& reg.spec_game_code() == render(p.user.code@)
}

/// The ways a registration can fail.
pub enum UserRegistrationError {
    /// A connected player already has the name; the text is `name_taken`.
    NameTaken(String),
    /// No game has the code.
    GameDoesNotExist,
    /// The game has started; nobody new can join.
    GameAlreadyStarted,
}

/// What became of a game after a user disconnected.
#[derive(Clone, Copy, Debug, PartialEq, Eq, Structural)]
pub enum UserDisconnectedStatus {
    /// At least one player is still connected.
    GameAlive,
    /// No player was connected any more, and the game is gone.
    GameDeleted,
}

/// What the first phase of a disconnect leaves to do.
#[derive(Clone, Copy, Debug, PartialEq, Eq, Structural)]
pub enum DisconnectStep {
    /// Nothing: the outcome is known.
    Done(UserDisconnectedStatus),
    /// The game is abandoned: check again once the timeout has passed.
    RecheckLater,
}

/// All running games, each stored under the number of its code, the ids in
/// use with the code of their game, and the recovery ids in use.
pub struct GameManager {
    games: HashMap<u128, GameInstance>,
    used_uuids: HashMap<u128, GameCode>,
    urids: Urids,
}

impl GameManager {
    /// The games, each under the number of its code.
    pub closed spec fn games(&self) -> Map<u128, GameView> {
        self.games@.map_values(|g: GameInstance| g@)
    }

    /// The ids in use, each with the code of its game.
    pub closed spec fn uuids(&self) -> Map<u128, GameCode> {
        self.used_uuids@
    }

    /// The recovery ids in use.
    pub closed spec fn urid_store(&self) -> Urids {
        self.urids
    }

    /// See `registry_wf`.
    pub open spec fn wf(&self) -> bool {
        &&& registry_wf(self.games(), self.uuids())
        &&& self.urid_store().wf()
    }

    /// A registry without games.
    pub fn new() -> (r: Self)
        ensures
            r.wf(),
            r.games() == Map::<u128, GameView>::empty(),
            r.uuids() == Map::<u128, GameCode>::empty(),
            r.urid_store().used() == Set::<u128>::empty(),
            r.urid_store().by_ip() == Map::<u128, Urid>::empty(),
    {
        let r = GameManager { games: HashMap::new(), used_uuids: HashMap::new(), urids: Urids::new() };
        assert(r.games() =~= Map::<u128, GameView>::empty());
        r
    }

    /// Whether a game has the code `game_code`.
    pub fn does_game_exist(&self, game_code: &GameCode) -> (r: bool)
        requires
            self.wf(),
        ensures
            r == has_code(self.games(), *game_code),
    {
        self.key_of_live(game_code).is_some()
    }

    /// The game with the code `game_code`, if any.
    pub fn game_by_code(&self, game_code: GameCode) -> (r: Option<&GameInstance>)
        requires
            self.wf(),
        ensures
            r is Some == has_code(self.games(), game_code),
            r matches Some(g) ==> g@ == self.games()[key_of(game_code)] && g@.code == game_code,
    {
        match self.key_of_live(&game_code) {
            Some(k) => self.games.get(&k),
            None => None,
        }
    }

    /// The game of the user with id `uuid`, if any.
    pub fn game_by_uuid(&self, uuid: u128) -> (r: Option<&GameInstance>)
        requires
            self.wf(),
        ensures
            r is Some == self.uuids().contains_key(uuid),
            r matches Some(g) ==> g@.code == self.uuids()[uuid] && g@ == self.games()[key_of(g@.code)]
                && has_uuid(g@.players, uuid),
    {
        match self.used_uuids.get(&uuid) {
            Some(code) => {
                let r = self.game_by_code(*code);
                proof {
                    let k = choose|k: u128| self.games().contains_key(k) && #[trigger] has_uuid(self.games()[k].players, uuid);
                    let j = choose|j: int| 0 <= j < self.games()[k].players.len()
                        && (#[trigger] self.games()[k].players[j]).user.uuid == uuid;
                    assert(self.uuids()[self.games()[k].players[j].user.uuid] == self.games()[k].code);
                    assert(has_code(self.games(), self.games()[k].code));
                    lemma_code_at_key(self.games(), self.uuids(), self.games()[k].code);
                    assert(key_of(self.games()[k].code) == k);
                }
                r
            },
            None => None,
        }
    }

    /// The game of an authenticated user, if any.
    pub fn game_by_user_auth(&self, user_auth: UserAuth) -> (r: Option<&GameInstance>)
        requires
            self.wf(),
        ensures
            r is Some == has_code(self.games(), user_auth.game_code),
            r matches Some(g) ==> g@ == self.games()[key_of(user_auth.game_code)] && g@.code == user_auth.game_code,
    {
        self.game_by_code(user_auth.game_code)
    }

    /// The names of the connected players of the game `game_code`, in the
    /// order they joined; `None` where no game has that code.
    pub fn players_in_game(&self, game_code: GameCode) -> (r: Option<Vec<String>>)
        requires
            self.wf(),
        ensures
            r is Some == has_code(self.games(), game_code),
            r matches Some(names) ==> names@.map_values(|s: String| s@)
                == names_of(self.games()[key_of(game_code)].players, true),
    {
        match self.game_by_code(game_code) {
            Some(game) => Some(game.player_names(true)),
            None => None,
        }
    }

    /// Creates a game in the lobby with the user `username` as its only
    /// player and game master, under a code that no game has; returns the
    /// user's registration (see `create_game_with_code`). Fails, giving
    /// `None` and changing nothing, only where all `GAME_CODE_SPACE` codes
    /// may be taken.
    pub fn create_game(&mut self, username: String, ip_addr: Option<u128>) -> (r: Option<UserRegistration>)
        requires
            old(self).wf(),
        ensures
            final(self).wf(),
            old(self).games().len() < GAME_CODE_SPACE ==> r is Some,
            r is None ==> *final(self) == *old(self),
            r matches Some(reg) ==> exists|code: GameCode| {
                &&& code.valid()
                &&& !has_code(old(self).games(), code)
                &&& created(*old(self), *final(self), code, username@, ip_addr, reg)
            },
    {
        match self.generate_game_code() {
            Some(code) => self.create_game_with_code(code, username, ip_addr),
            None => None,
        }
    }

    /// Creates a game in the lobby under `code`, with the user `username` as
    /// its only player and game master, and returns the user's registration.
    /// Gives `None`, changing nothing, exactly where `code` is not valid or
    /// some game has it already.
    pub fn create_game_with_code(&mut self, code: GameCode, username: String, ip_addr: Option<u128>) -> (r: Option<
        UserRegistration,
    >)
        requires
            old(self).wf(),
        ensures
            final(self).wf(),
            r is Some == (code.valid() && !has_code(old(self).games(), code)),
            r is None ==> *final(self) == *old(self),
            r matches Some(reg) ==> created(*old(self), *final(self), code, username@, ip_addr, reg),
    {
        if !code.is_valid() || self.does_game_exist(&code) {
            return None;
        }
        let key = code.ordinal() as u128;
        proof {
            let gs = self.games();
            if gs.contains_key(key) {
                lemma_ordinal_range(gs[key].code);
                lemma_ordinal_range(code);
                lemma_ordinal_injective(gs[key].code, code);
                assert(has_code(gs, code));
            }
        }
        let uuid = self.generate_uuid();
        let urid = self.urids.register(ip_addr);
        let ghost name = username@;
        let mut game = GameInstance::new(code);
        let user = User::new(username, uuid, urid, code);
        game.add_user(user);
        game.set_game_master(uuid);
        let ghost g = game@;
        proof {
            let p = PlayerView { user: UserView { name, uuid, urid, code, connected: true }, master: true };
            assert(g.players =~= seq![p]);
        }
        let ghost gs0 = self.games();
        let ghost m0 = self.used_uuids@;
        self.used_uuids.insert(uuid, code);
        self.games.insert(key, game);
        proof {
            assert(self.games() =~= gs0.insert(key, g));
            let gs = self.games();
            let m = self.used_uuids@;
            assert(g.players[0].user.uuid == uuid);
            assert(has_uuid(g.players, uuid));
            assert forall|a: u128, j: int| gs.contains_key(a) && 0 <= j < gs[a].players.len() implies
                m.contains_key(#[trigger] gs[a].players[j].user.uuid) && m[gs[a].players[j].user.uuid] == gs[a].code by {
                if a != key {
                    assert(gs[a] == gs0[a]);
                    assert(m0.contains_key(gs0[a].players[j].user.uuid));
                }
            }
            assert forall|u: u128| #[trigger] m.contains_key(u) implies
                exists|a: u128| gs.contains_key(a) && #[trigger] has_uuid(gs[a].players, u) by {
                if u == uuid {
                    assert(has_uuid(gs[key].players, u));
                } else {
                    let a = choose|a: u128| gs0.contains_key(a) && #[trigger] has_uuid(gs0[a].players, u);
                    assert(gs[a] == gs0[a]);
                }
            }
            assert forall|a: u128| #[trigger] gs.contains_key(a) implies
                game_wf(gs[a]) && gs[a].code.valid() && key_of(gs[a].code) == a by {
                if a != key {
                    assert(gs0.contains_key(a));
                }
            }
        }
        Some(UserRegistration::new(uuid, urid, code))
    }

    /// A code that no game has: random draws first, then the code with the
    /// least number (see `GameCode::ordinal`) that no game has. `None` only
    /// where all `GAME_CODE_SPACE` codes may be taken.
    fn generate_game_code(&self) -> (r: Option<GameCode>)
        requires
            self.wf(),
        ensures
            r matches Some(c) ==> c.valid() && !has_code(self.games(), c),
            self.games().len() < GAME_CODE_SPACE ==> r is Some,
    {
        let mut attempts: u32 = 0;
        while attempts < CODE_ATTEMPTS
            invariant
                attempts <= CODE_ATTEMPTS,
                self.wf(),
            decreases CODE_ATTEMPTS - attempts,
        {
            let mut chars: [char; 8] = ['0', '0', '0', '0', '0', '0', '0', '0'];
            let mut k: usize = 0;
            while k < 8
                invariant
                    0 <= k <= 8,
                    forall|j: int| 0 <= j < 8 ==> is_code_char(#[trigger] chars@[j]),
                decreases 8 - k,
            {
                chars[k] = game_code_charset_char(random_below(GAME_CODE_CHARSET_LEN));
                k += 1;
            }
            match GameCode::new(chars) {
                Some(code) => {
                    if !self.does_game_exist(&code) {
                        return Some(code);
                    }
                },
                None => {},
            }
            attempts += 1;
        }
        let n = self.games.len();
        assert(self.games().dom() =~= self.games@.dom());
        proof {
            lemma_small_value_free(self.games@.dom(), n as u128);
        }
        let mut x: u128 = 0;
        while self.games.contains_key(&x)
            invariant
                x <= n,
                forall|y: u128| y < x ==> self.games@.contains_key(y),
                exists|z: u128| z <= n && !self.games@.contains_key(z),
            decreases n - x,
        {
            x += 1;
        }
        if x < GAME_CODE_SPACE as u128 {
            let code = GameCode::from_ordinal(x as u64);
            proof {
                lemma_ordinal_range(code);
                lemma_code_at_key(self.games(), self.uuids(), code);
            }
            Some(code)
        } else {
            None
        }
    }

    /// A user id that is not in use; it is not registered.
    fn generate_uuid(&self) -> (r: u128)
        ensures
            !self.uuids().contains_key(r),
    {
        let mut attempts: u32 = 0;
        while attempts < RANDOM_ATTEMPTS
            invariant
                attempts <= RANDOM_ATTEMPTS,
            decreases RANDOM_ATTEMPTS - attempts,
        {
            let uuid = random_uuid_value();
            if !self.used_uuids.contains_key(&uuid) {
                return uuid;
            }
            attempts += 1;
        }
        let n = self.used_uuids.len();
        proof {
            lemma_small_value_free(self.used_uuids@.dom(), n as u128);
        }
        let mut x: u128 = 0;
        while self.used_uuids.contains_key(&x)
            invariant
                x <= n,
                forall|y: u128| y < x ==> self.used_uuids@.contains_key(y),
                exists|z: u128| z <= n && !self.used_uuids@.contains_key(z),
            decreases n - x,
        {
            x += 1;
        }
        x
    }

    /// Adds the user `username` to the game `game_code`, or hands a returning
    /// user their registration back:
    /// - no game has the code: `GameDoesNotExist`;
    /// - no player has the name: `GameAlreadyStarted` where the game is not in
    ///   the lobby, else a new player, connected, with a new id and a new
    ///   recovery id (see `Urids::register`), and an `AddPlayer` event;
    /// - the player with the name is connected: their registration where `ur`
    ///   presents their recovery id, else `NameTaken`;
    /// - that player is disconnected: their registration, and an `AddPlayer`
    ///   event; nothing new is registered.
    ///
    /// Events for the players are appended to `events`.
    pub fn add_player_to_game(
        &mut self,
        events: &mut Vec<EventData>,
        game_code: GameCode,
        username: String,
        ur: Option<UserRecovery>,
        ip_addr: Option<u128>,
    ) -> (r: Result<UserRegistration, UserRegistrationError>)
        requires
            old(self).wf(),
        ensures
            final(self).wf(),
            !has_code(old(self).games(), game_code) ==> {
                &&& r matches Err(UserRegistrationError::GameDoesNotExist)
                &&& *final(self) == *old(self)
                &&& final(events)@ == old(events)@
            },
            has_code(old(self).games(), game_code) ==> {
                let k = key_of(game_code);
                let g = old(self).games()[k];
                if !has_name(g.players, username@) {
                    if g.state != GameState::Lobby {
                        &&& r matches Err(UserRegistrationError::GameAlreadyStarted)
                        &&& *final(self) == *old(self)
                        &&& final(events)@ == old(events)@
                    } else {
                        exists|uuid: u128, urid: Urid| {
                            &&& !old(self).uuids().contains_key(uuid)
                            &&& registered(old(self).urid_store(), final(self).urid_store(), ip_addr, urid)
                            &&& final(self).games() == old(self).games().insert(k, GameView {
                                players: g.players.push(PlayerView {
                                    user: UserView { name: username@, uuid, urid, code: game_code, connected: true },
                                    master: false,
                                }),
                                ..g
                            })
                            &&& final(self).uuids() == old(self).uuids().insert(uuid, game_code)
                            &&& r matches Ok(reg) && reg.spec_uuid() == uuid && reg.spec_urid() == urid
                                && reg.spec_game_code() == render(game_code@)
                            &&& add_player_event_pushed(old(events)@, final(events)@, game_code, username@)
                        }
                    }
                } else {
                    forall|j: int| #[trigger] first_with_name(g.players, username@, j) ==> {
                        let p = g.players[j];
                        &&& *final(self) == *old(self)
                        &&& if p.user.connected {
                            &&& final(events)@ == old(events)@
                            &&& if ur matches Some(rec) && rec.urid == p.user.urid {
                                r matches Ok(reg) && registration_of(reg, p)
                            } else {
                                r matches Err(UserRegistrationError::NameTaken(msg)) && msg@ == "name_taken"@
                            }
                        } else {
                            &&& r matches Ok(reg) && registration_of(reg, p)
                            &&& add_player_event_pushed(old(events)@, final(events)@, game_code, username@)
                        }
                    }
                }
            },
    {
        let k = match self.key_of_live(&game_code) {
            Some(k) => k,
            None => return Err(UserRegistrationError::GameDoesNotExist),
        };
        let ghost gs0 = self.games();
        let ghost g = gs0[k];
        let game = self.games.get(&k).unwrap();
        if !game.does_player_exist(&username) {
            match game.game_state() {
                GameState::Lobby => {},
                _ => return Err(UserRegistrationError::GameAlreadyStarted),
            }
            let uuid = self.generate_uuid();
            let urid = self.urids.register(ip_addr);
            let ghost p = PlayerView {
                user: UserView { name: username@, uuid, urid, code: game_code, connected: true },
                master: false,
            };
            proof {
                lemma_join_wf(gs0, old(self).uuids(), k, p);
            }
            let mut game = self.take_game(k);
            game.add_user(User::new(username.clone(), uuid, urid, game_code));
            self.put_game(k, game);
            assert(self.games() =~= gs0.insert(k, GameView { players: g.players.push(p), ..g }));
            self.used_uuids.insert(uuid, game_code);
            let ghost es0 = events@;
            events.push(EventData::new(None, game_code, (String::from_str("AddPlayer"), Some(username))));
            assert(events@.drop_last() =~= es0);
            return Ok(UserRegistration::new(uuid, urid, game_code));
        }
        let reg = game.user_registration(&username).unwrap();
        proof {
            assert(game_wf(gs0[k]));
            assert forall|j: int| #[trigger] first_with_name(g.players, username@, j) implies
                registration_of(reg, g.players[j]) by {
                let j2 = choose|j2: int| first_with_name(g.players, username@, j2) && {
                    let u = g.players[j2].user;
                    &&& reg.spec_uuid() == u.uuid
                    &&& reg.spec_urid() == u.urid
                    &&& reg.spec_game_code() == render(u.code@)
                };
                assert(j == j2);
            }
        }
        if game.is_player_connected(&username) {
            let matching = match &ur {
                Some(rec) => rec.urid == reg.urid(),
                None => false,
            };
            if matching {
                Ok(reg)
            } else {
                Err(UserRegistrationError::NameTaken(String::from_str("name_taken")))
            }
        } else {
            let ghost es0 = events@;
            events.push(EventData::new(None, game_code, (String::from_str("AddPlayer"), Some(username))));
            assert(events@.drop_last() =~= es0);
            Ok(reg)
        }
    }

    /// Marks the user with id `uuid` connected, as when their event stream
    /// opens; returns `false`, changing nothing, where the id is not in use.
    pub fn user_connected(&mut self, uuid: u128) -> (r: bool)
        requires
            old(self).wf(),
        ensures
            final(self).wf(),
            r == old(self).uuids().contains_key(uuid),
            !r ==> *final(self) == *old(self),
            r ==> {
                let k = key_of(old(self).uuids()[uuid]);
                &&& final(self).games() == with_players(old(self).games(), k, marked(old(self).games()[k].players, uuid, true))
                &&& final(self).uuids() == old(self).uuids()
                &&& final(self).urid_store() == old(self).urid_store()
            },
    {
        let code = match self.used_uuids.get(&uuid) {
            Some(code) => *code,
            None => return false,
        };
        proof {
            let a = choose|a: u128| self.games().contains_key(a) && #[trigger] has_uuid(self.games()[a].players, uuid);
            let j = choose|j: int| 0 <= j < self.games()[a].players.len()
                && (#[trigger] self.games()[a].players[j]).user.uuid == uuid;
            assert(self.uuids()[self.games()[a].players[j].user.uuid] == self.games()[a].code);
            assert(key_of(self.games()[a].code) == a);
        }
        let k = code.ordinal() as u128;
        self.mark_at(k, uuid, true);
        true
    }

    /// Starts the game `game_code`: nobody new can join it. Returns `false`,
    /// changing nothing, where no game has that code.
    pub fn start_game(&mut self, game_code: GameCode) -> (r: bool)
        requires
            old(self).wf(),
        ensures
            final(self).wf(),
            r == has_code(old(self).games(), game_code),
            !r ==> *final(self) == *old(self),
            r ==> {
                let k = key_of(game_code);
                &&& final(self).games() == old(self).games().insert(k, GameView { state: GameState::Started, ..old(self).games()[k] })
                &&& final(self).uuids() == old(self).uuids()
                &&& final(self).urid_store() == old(self).urid_store()
            },
    {
        match self.key_of_live(&game_code) {
            Some(k) => {
                let ghost gs0 = self.games();
                let mut game = self.take_game(k);
                game.start();
                self.put_game(k, game);
                let ghost g2 = GameView { state: GameState::Started, ..gs0[k] };
                assert(self.games() =~= gs0.insert(k, g2));
                proof {
                    lemma_update_wf(gs0, self.uuids(), k, g2);
                }
                true
            },
            None => false,
        }
    }

    /// First phase of a disconnect: marks the user of `user_auth`
    /// disconnected. Where some player is still connected the game lives on.
    /// Otherwise, with `no_sleep` (the user left on purpose) the game is
    /// deleted at once; without it, `RecheckLater` asks for a
    /// `disconnect_recheck` once the timeout has passed. A game that is gone
    /// already counts as deleted.
    pub fn disconnect_begin(&mut self, user_auth: UserAuth, no_sleep: bool) -> (r: DisconnectStep)
        requires
            old(self).wf(),
        ensures
            final(self).wf(),
            !has_code(old(self).games(), user_auth.game_code) ==> {
                &&& r == DisconnectStep::Done(UserDisconnectedStatus::GameDeleted)
                &&& *final(self) == *old(self)
            },
            has_code(old(self).games(), user_auth.game_code) ==> {
                let k = key_of(user_auth.game_code);
                let ps = marked(old(self).games()[k].players, user_auth.uuid, false);
                let gs1 = with_players(old(self).games(), k, ps);
                if !all_disconnected(ps) {
                    &&& r == DisconnectStep::Done(UserDisconnectedStatus::GameAlive)
                    &&& final(self).games() == gs1
                    &&& final(self).uuids() == old(self).uuids()
                    &&& final(self).urid_store() == old(self).urid_store()
                } else if no_sleep {
                    &&& r == DisconnectStep::Done(UserDisconnectedStatus::GameDeleted)
                    &&& deletion(
                        gs1, old(self).uuids(), old(self).urid_store(), k,
                        final(self).games(), final(self).uuids(), final(self).urid_store(),
                    )
                } else {
                    &&& r == DisconnectStep::RecheckLater
                    &&& final(self).games() == gs1
                    &&& final(self).uuids() == old(self).uuids()
                    &&& final(self).urid_store() == old(self).urid_store()
                }
            },
    {
        let k = match self.key_of_live(&user_auth.game_code) {
            Some(k) => k,
            None => return DisconnectStep::Done(UserDisconnectedStatus::GameDeleted),
        };
        self.mark_at(k, user_auth.uuid, false);
        assert(self.games().contains_key(k));
        assert(self.games@.contains_key(k));
        let abandoned = self.games.get(&k).unwrap().abandoned();
        if !abandoned {
            return DisconnectStep::Done(UserDisconnectedStatus::GameAlive);
        }
        if no_sleep {
            let ghost gs1 = self.games();
            self.delete_at(k);
            assert(uuids_of(gs1[k]) =~= uuids_of(old(self).games()[k]));
            DisconnectStep::Done(UserDisconnectedStatus::GameDeleted)
        } else {
            DisconnectStep::RecheckLater
        }
    }

    /// Second phase of a disconnect, once the timeout has passed: deletes the
    /// game `game_code` if still no player is connected. A game that is gone
    /// already counts as deleted.
    pub fn disconnect_recheck(&mut self, game_code: GameCode) -> (r: UserDisconnectedStatus)
        requires
            old(self).wf(),
        ensures
            final(self).wf(),
            !has_code(old(self).games(), game_code) ==> {
                &&& r == UserDisconnectedStatus::GameDeleted
                &&& *final(self) == *old(self)
            },
            has_code(old(self).games(), game_code) ==> {
                let k = key_of(game_code);
                if !all_disconnected(old(self).games()[k].players) {
                    &&& r == UserDisconnectedStatus::GameAlive
                    &&& *final(self) == *old(self)
                } else {
                    &&& r == UserDisconnectedStatus::GameDeleted
                    &&& deletion(
                        old(self).games(), old(self).uuids(), old(self).urid_store(), k,
                        final(self).games(), final(self).uuids(), final(self).urid_store(),
                    )
                }
            },
    {
        let k = match self.key_of_live(&game_code) {
            Some(k) => k,
            None => return UserDisconnectedStatus::GameDeleted,
        };
        if !self.games.get(&k).unwrap().abandoned() {
            return UserDisconnectedStatus::GameAlive;
        }
        self.delete_at(k);
        UserDisconnectedStatus::GameDeleted
    }

    /// Deletes the game with the code `game_code` and releases its code, the
    /// ids of its players and their recovery ids. Returns `false`, changing
    /// nothing, where no game has that code.
    pub fn delete_game(&mut self, game_code: &GameCode) -> (r: bool)
        requires
            old(self).wf(),
        ensures
            final(self).wf(),
            r == has_code(old(self).games(), *game_code),
            !r ==> *final(self) == *old(self),
            r ==> {
                let k = key_of(*game_code);
                &&& deletion(
                    old(self).games(), old(self).uuids(), old(self).urid_store(), k,
                    final(self).games(), final(self).uuids(), final(self).urid_store(),
                )
                &&& forall|u: u128| #[trigger] uuids_of(old(self).games()[k]).contains(u)
                    ==> !final(self).uuids().contains_key(u)
                &&& forall|j: int| 0 <= j < old(self).games()[k].players.len()
                    ==> !final(self).urid_store().used().contains(
                        (#[trigger] old(self).games()[k].players[j]).user.urid.spec_value())
            },
            !has_code(final(self).games(), *game_code),
    {
        match self.key_of_live(game_code) {
            Some(k) => {
                self.delete_at(k);
                proof {
                    lemma_deletion_frees(
                        old(self).games(), old(self).uuids(), old(self).urid_store(), k,
                        self.games(), self.uuids(), self.urid_store(),
                    );
                }
                true
            },
            None => false,
        }
    }

    /// Marks the first player with id `uuid` of the game under `k` connected
    /// or not.
    fn mark_at(&mut self, k: u128, uuid: u128, connected: bool)
        requires
            old(self).wf(),
            old(self).games().contains_key(k),
        ensures
            final(self).wf(),
            final(self).games() == with_players(old(self).games(), k, marked(old(self).games()[k].players, uuid, connected)),
            final(self).uuids() == old(self).uuids(),
            final(self).urid_store() == old(self).urid_store(),
    {
        let ghost gs0 = self.games();
        let ghost g = gs0[k];
        let mut game = self.take_game(k);
        let found = game.set_connected(uuid, connected);
        let ghost ps = marked(g.players, uuid, connected);
        proof {
            if found {
                let i = choose|i: int| first_with_uuid(g.players, uuid, i)
                    && game@ == (GameView { players: with_connected(g.players, i, connected), ..g });
                let c = choose|c: int| first_with_uuid(g.players, uuid, c);
                assert(i == c) by {
                    if i < c {
                        assert(g.players[i].user.uuid != uuid);
                    } else if c < i {
                        assert(g.players[c].user.uuid != uuid);
                    }
                }
            }
        }
        self.put_game(k, game);
        let ghost g2 = GameView { players: ps, ..g };
        assert(self.games() =~= gs0.insert(k, g2));
        proof {
            lemma_update_wf(gs0, self.uuids(), k, g2);
        }
    }

    /// Deletes the game under `k`, with the ids and recovery ids of its
    /// players.
    fn delete_at(&mut self, k: u128)
        requires
            old(self).wf(),
            old(self).games().contains_key(k),
        ensures
            final(self).wf(),
            deletion(
                old(self).games(), old(self).uuids(), old(self).urid_store(), k,
                final(self).games(), final(self).uuids(), final(self).urid_store(),
            ),
    {
        let ghost gs0 = self.games();
        let ghost g = gs0[k];
        let game = self.take_game(k);
        assert(self.games() =~= gs0.remove(k));
        let urids = game.player_urids();
        self.urids.unregister_all(&urids);
        let ghost us = self.urids;
        let ghost m0 = self.used_uuids@;
        let players = game.players();
        let mut j: usize = 0;
        while j < players.len()
            invariant
                0 <= j <= players.len(),
                players@.map_values(|p: crate::player::Player| p@) == g.players,
                self.games() == gs0.remove(k),
                self.urids == us,
                self.used_uuids@ == m0.remove_keys(
                    Set::new(|u: u128| exists|x: int| 0 <= x < j && (#[trigger] g.players[x]).user.uuid == u),
                ),
            decreases players.len() - j,
        {
            let u = players[j].user_id();
            assert(g.players[j as int].user.uuid == u);
            self.used_uuids.remove(&u);
            j += 1;
            assert(self.used_uuids@ =~= m0.remove_keys(
                Set::new(|u: u128| exists|x: int| 0 <= x < j && (#[trigger] g.players[x]).user.uuid == u),
            ));
        }
        assert(self.used_uuids@ =~= m0.remove_keys(uuids_of(g)));
        proof {
            lemma_delete_wf(gs0, m0, k);
        }
    }

    /// Takes the game under `k` out of the map.
    fn take_game(&mut self, k: u128) -> (g: GameInstance)
        requires
            old(self).games().contains_key(k),
        ensures
            g@ == old(self).games()[k],
            final(self).games() == old(self).games().remove(k),
            final(self).uuids() == old(self).uuids(),
            final(self).urid_store() == old(self).urid_store(),
    {
        let g = self.games.remove(&k).unwrap();
        assert(self.games() =~= old(self).games().remove(k));
        g
    }

    /// Puts `g` into the map under `k`.
    fn put_game(&mut self, k: u128, g: GameInstance)
        ensures
            final(self).games() == old(self).games().insert(k, g@),
            final(self).uuids() == old(self).uuids(),
            final(self).urid_store() == old(self).urid_store(),
    {
        self.games.insert(k, g);
        assert(self.games() =~= old(self).games().insert(k, g@));
    }

    /// The key of the game with the code `game_code`, if any.
    fn key_of_live(&self, game_code: &GameCode) -> (r: Option<u128>)
        requires
            self.wf(),
        ensures
            r is Some == has_code(self.games(), *game_code),
            r matches Some(k) ==> k == key_of(*game_code) && self.games().contains_key(k)
                && self.games()[k].code == *game_code,
    {
        proof {
            lemma_code_at_key(self.games(), self.uuids(), *game_code);
        }
        if !game_code.is_valid() {
            proof {
                if has_code(self.games(), *game_code) {
                    assert(self.games()[key_of(*game_code)].code.valid());
                }
            }
            return None;
        }
        let k = game_code.ordinal() as u128;
        match self.games.get(&k) {
            Some(g) => {
                if *g.game_code() == *game_code {
                    Some(k)
                } else {
                    None
                }
            },
            None => None,
        }
    }
}

} // verus!
