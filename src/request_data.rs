use vstd::prelude::*;

use crate::authentication::Urid;
use crate::code::{render, GameCode};
use crate::player::User;

verus! {

/// The lower-case hexadecimal digit for `d < 16`.
pub open spec fn hex_digit(d: u128) -> char {
    if d < 10 {
        (48 + d) as char
    } else {
        (87 + d) as char
    }
}

/// The `k`-th hexadecimal digit of `v`, counted from the most significant.
pub open spec fn uuid_nibble(v: u128, k: int) -> u128 {
    (v >> ((124 - 4 * k) as u128)) & 15
}

/// How many separators stand before index `i` of the hyphenated form.
pub open spec fn separators_before(i: int) -> int {
    if i < 8 {
        0
    } else if i < 13 {
        1
    } else if i < 18 {
        2
    } else if i < 23 {
        3
    } else {
        4
    }
}

/// The hyphenated form of a UUID value, such as
/// `67e55044-10b1-426f-9247-bb680e5fe0c8`: 32 lower-case hexadecimal digits,
/// most significant first, in groups of 8, 4, 4, 4 and 12.
pub open spec fn uuid_text(v: u128) -> Seq<char> {
    Seq::new(
        36,
        |i: int|
            if i == 8 || i == 13 || i == 18 || i == 23 {
                '-'
            } else {
                hex_digit(uuid_nibble(v, i - separators_before(i)))
            },
    )
}

/// Relies on `uuid::Uuid::from_u128` (the value is read big-endian) and on
/// the `Display` of `Uuid`, which writes the hyphenated lower-case form.
#[verifier::external_body]
fn uuid_string(v: u128) -> (r: String)
    ensures
        r@ == uuid_text(v),
{
    uuid::Uuid::from_u128(v).to_string()
}

/// What is sent back to a user who created or joined a game.
pub struct UserRegistration {
    uuid: u128,
    pub urid: Urid,
    game_code: String,
}

impl UserRegistration {
    /// The user's id.
    pub closed spec fn spec_uuid(&self) -> u128 {
        self.uuid
    }

    /// The user's recovery id.
    pub closed spec fn spec_urid(&self) -> Urid {
        self.urid
    }

    /// The text form of the game's code.
    pub closed spec fn spec_game_code(&self) -> Seq<char> {
        self.game_code@
    }

    /// A registration for the user `uuid` in the game `game_code`.
    pub fn new(uuid: u128, urid: Urid, game_code: GameCode) -> (r: Self)
        ensures
            r.spec_uuid() == uuid,
            r.spec_urid() == urid,
            r.spec_game_code() == render(game_code@),
    {
        UserRegistration { uuid, urid, game_code: game_code.to_string() }
    }

    /// The registration of an existing user.
    pub fn from_user(user: &User) -> (r: Self)
        ensures
            r.spec_uuid() == user@.uuid,
            r.spec_urid() == user@.urid,
            r.spec_game_code() == render(user@.code@),
    {
        UserRegistration { uuid: user.uuid(), urid: user.urid(), game_code: user.game_code().to_string() }
    }

    /// The user's id.
    pub fn uuid(&self) -> (r: u128)
        ensures
            r == self.spec_uuid(),
    {
        self.uuid
    }

    /// The user's recovery id.
    pub fn urid(&self) -> (r: Urid)
        ensures
            r == self.spec_urid(),
    {
        self.urid
    }

    /// The text form of the game's code.
    pub fn game_code(&self) -> (r: String)
        ensures
            r@ == self.spec_game_code(),
    {
        self.game_code.clone()
    }
}

/// A notification for the players of one game, or for one player of it.
pub struct EventData {
    user_id: String,
    game_code: String,
    data: (String, Option<String>),
}

impl EventData {
    /// The addressed user's id in text form; empty when every player is meant.
    pub closed spec fn spec_user_id(&self) -> Seq<char> {
        self.user_id@
    }

    /// The text form of the game's code.
    pub closed spec fn spec_game_code(&self) -> Seq<char> {
        self.game_code@
    }

    /// The kind of event.
    pub closed spec fn spec_kind(&self) -> Seq<char> {
        self.data.0@
    }

    /// The event's payload, if any.
    pub closed spec fn spec_payload(&self) -> Option<Seq<char>> {
        match self.data.1 {
            Some(p) => Some(p@),
            None => None,
        }
    }

    /// An event for the game `game_code`, addressed to the user `uuid`, or to
    /// every player where `uuid` is `None`.
    pub fn new(uuid: Option<u128>, game_code: GameCode, data: (String, Option<String>)) -> (r: Self)
        ensures
            r.spec_user_id() == (match uuid {
                Some(v) => uuid_text(v),
                None => Seq::<char>::empty(),
            }),
            r.spec_game_code() == render(game_code@),
            r.spec_kind() == data.0@,
            r.spec_payload() == (match data.1 {
                Some(p) => Some(p@),
                None => None::<Seq<char>>,
            }),
    {
        let user_id = match uuid {
            None => String::new(),
            Some(v) => uuid_string(v),
        };
        EventData { user_id, game_code: game_code.to_string(), data }
    }

    /// The text form of the code of the game the event belongs to.
    pub fn game_code(&self) -> (r: String)
        ensures
            r@ == self.spec_game_code(),
    {
        self.game_code.clone()
    }

    /// The id of the user the event is meant for; empty for every player.
    pub fn user_id(&self) -> (r: String)
        ensures
            r@ == self.spec_user_id(),
    {
        self.user_id.clone()
    }

    /// The kind of event and its payload.
    pub fn data(&self) -> (r: (String, Option<String>))
        ensures
            r.0@ == self.spec_kind(),
            (match r.1 {
                Some(p) => Some(p@),
                None => None::<Seq<char>>,
            }) == self.spec_payload(),
    {
        let payload = match &self.data.1 {
            Some(p) => Some(p.clone()),
            None => None,
        };
        (self.data.0.clone(), payload)
    }
}

/// A user name, as a request body carries it.
pub struct Username<'a> {
    pub username: &'a str,
}

} // verus!
