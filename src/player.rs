use vstd::prelude::*;

use crate::authentication::Urid;
use crate::code::GameCode;

verus! {

/// What a user is, as the contracts see it.
pub struct UserView {
    pub name: Seq<char>,
    pub uuid: u128,
    pub urid: Urid,
    pub code: GameCode,
    pub connected: bool,
}

/// What a player is, as the contracts see it.
pub struct PlayerView {
    pub user: UserView,
    pub master: bool,
}

/// A user registered in a game: used to authenticate the user's requests.
pub struct User {
    username: String,
    uuid: u128,
    urid: Urid,
    game_code: GameCode,
    connected: bool,
}

impl View for User {
    type V = UserView;

    closed spec fn view(&self) -> UserView {
        UserView {
            name: self.username@,
            uuid: self.uuid,
            urid: self.urid,
            code: self.game_code,
            connected: self.connected,
        }
    }
}

impl User {
    /// A new user, connected: they hold their name in the game until they
    /// disconnect.
    pub fn new(username: String, uuid: u128, urid: Urid, game_code: GameCode) -> (r: Self)
        ensures
            r@ == (UserView { name: username@, uuid, urid, code: game_code, connected: true }),
    {
        User { username, uuid, urid, game_code, connected: true }
    }

    /// The user's name.
    pub fn name(&self) -> (r: String)
        ensures
            r@ == self@.name,
    {
        self.username.clone()
    }

    /// The id that identifies the user.
    pub fn uuid(&self) -> (r: u128)
        ensures
            r == self@.uuid,
    {
        self.uuid
    }

    /// The user's recovery id.
    pub fn urid(&self) -> (r: Urid)
        ensures
            r == self@.urid,
    {
        self.urid
    }

    /// The code of the game the user belongs to.
    pub fn game_code(&self) -> (r: GameCode)
        ensures
            r == self@.code,
    {
        self.game_code
    }

    /// Whether the user is connected.
    pub fn connected(&self) -> (r: bool)
        ensures
            r == self@.connected,
    {
        self.connected
    }

    /// Updates the connection status.
    pub fn set_connected(&mut self, connected: bool)
        ensures
            final(self)@ == (UserView { connected, ..old(self)@ }),
    {
        self.connected = connected;
    }
}

/// A user taking part in a game, possibly as its game master.
pub struct Player {
    pub user: User,
    pub game_master: bool,
}

impl View for Player {
    type V = PlayerView;

    open spec fn view(&self) -> PlayerView {
        PlayerView { user: self.user@, master: self.game_master }
    }
}

impl Player {
    /// A player for `user`, not the game master.
    pub fn new(user: User) -> (r: Self)
        ensures
            r@ == (PlayerView { user: user@, master: false }),
    {
        Player { user, game_master: false }
    }

    /// The player's name.
    pub fn username(&self) -> (r: String)
        ensures
            r@ == self@.user.name,
    {
        self.user.name()
    }

    /// The id of the player's user.
    pub fn user_id(&self) -> (r: u128)
        ensures
            r == self@.user.uuid,
    {
        self.user.uuid()
    }

    /// Makes this player the game master.
    pub fn make_game_master(&mut self)
        ensures
            final(self)@ == (PlayerView { master: true, ..old(self)@ }),
    {
        self.game_master = true;
    }

    /// Takes the game master role from this player.
    pub fn revoke_game_master(&mut self)
        ensures
            final(self)@ == (PlayerView { master: false, ..old(self)@ }),
    {
        self.game_master = false;
    }

    /// Whether this player is the game master.
    pub fn is_game_master(&self) -> (r: bool)
        ensures
            r == self@.master,
    {
        self.game_master
    }
}

} // verus!
