//! The plain data the session layer works on: identifiers, board cells and
//! coordinates, room summaries, the game handle, and the error taxonomy.

use vstd::prelude::*;
use vstd::string::StringExecFns;

verus! {

/// Identifier of a user, opaque to the session layer.
pub type UserId = String;

/// A position on the hexagonal board, in axial coordinates.
#[derive(Clone, Copy, Debug, PartialEq, Eq, Structural)]
pub struct AxialCord {
    pub x: i64,
    pub y: i64,
}

/// What one board cell holds.
#[derive(Clone, Copy, Debug, PartialEq, Eq, Structural)]
pub enum Stone {
    Blank,
    Black,
    White,
}

/// One of the two playing sides.
#[derive(Clone, Copy, Debug, PartialEq, Eq, Structural)]
pub enum Color {
    Black,
    White,
}

impl Color {
    /// The stone this side plays with.
    pub open spec fn spec_stone(self) -> Stone {
        match self {
            Color::Black => Stone::Black,
            Color::White => Stone::White,
        }
    }

    /// The wire name of the side.
    pub open spec fn spec_name(self) -> Seq<char> {
        match self {
            Color::Black => "black"@,
            Color::White => "white"@,
        }
    }

    /// The stone this side plays with.
    pub fn stone(&self) -> (r: Stone)
        ensures
            r == self.spec_stone(),
    {
        match self {
            Color::Black => Stone::Black,
            Color::White => Stone::White,
        }
    }

    /// The wire name of the side.
    pub fn name(&self) -> (r: String)
        ensures
            r@ == self.spec_name(),
    {
        match self {
            Color::Black => String::from_str("black"),
            Color::White => String::from_str("white"),
        }
    }
}

/// Configuration of a room, chosen by its owner.
#[derive(Clone, Debug, PartialEq)]
pub struct RoomConf {
    pub name: String,
    pub max_users: u32,
    pub observable: bool,
}

/// Model of a `RoomConf`.
pub struct RoomConfV {
    pub name: Seq<char>,
    pub max_users: u32,
    pub observable: bool,
}

impl View for RoomConf {
    type V = RoomConfV;

    open spec fn view(&self) -> RoomConfV {
        RoomConfV { name: self.name@, max_users: self.max_users, observable: self.observable }
    }
}

/// The external summary of a room, as discovery and the `Connected` event
/// show it to clients.
#[derive(Clone, Debug, PartialEq)]
pub struct Room {
    pub id: String,
    pub name: String,
    pub owner: UserId,
    pub users: Vec<UserId>,
    pub conf: RoomConf,
}

/// Model of a `Room`.
pub struct RoomV {
    pub id: Seq<char>,
    pub name: Seq<char>,
    pub owner: Seq<char>,
    pub users: Seq<Seq<char>>,
    pub conf: RoomConfV,
}

/// The views of a sequence of strings, element by element.
pub open spec fn strings_v(users: Seq<String>) -> Seq<Seq<char>> {
    Seq::new(users.len(), |i: int| users[i]@)
}

impl View for Room {
    type V = RoomV;

    open spec fn view(&self) -> RoomV {
        RoomV {
            id: self.id@,
            name: self.name@,
            owner: self.owner@,
            users: strings_v(self.users@),
            conf: self.conf@,
        }
    }
}

/// The state the game engine exposes to the session layer: the raw row-major
/// grid of cells, the two assigned players, and whose move it is.
#[derive(Clone, Debug, PartialEq)]
pub struct Game {
    pub board: Vec<Vec<Stone>>,
    pub black: UserId,
    pub white: UserId,
    pub turn: Color,
}

/// The rows of a board, as sequences of cells.
pub open spec fn board_v(board: Seq<Vec<Stone>>) -> Seq<Seq<Stone>> {
    Seq::new(board.len(), |i: int| board[i]@)
}

/// Model of a `Game`.
pub struct GameV {
    pub board: Seq<Seq<Stone>>,
    pub black: Seq<char>,
    pub white: Seq<char>,
    pub turn: Color,
}

impl View for Game {
    type V = GameV;

    open spec fn view(&self) -> GameV {
        GameV {
            board: board_v(self.board@),
            black: self.black@,
            white: self.white@,
            turn: self.turn,
        }
    }
}

/// A command was malformed or carried an unknown discriminant; the one
/// message is rejected and nothing else changes.
#[derive(Clone, Copy, Debug, PartialEq, Eq, Structural)]
pub struct ParseError;

/// An invite key was unknown, already consumed, or bound to another room.
#[derive(Clone, Copy, Debug, PartialEq, Eq, Structural)]
pub struct InvalidInvite;

/// An `EndedCause` string outside the fixed wire set.
#[derive(Clone, Copy, Debug, PartialEq, Eq, Structural)]
pub struct InvalidCause;

/// A well-formed command that its sender is not allowed to issue.
#[derive(Clone, Copy, Debug, PartialEq, Eq, Structural)]
pub struct Unauthorized;

/// A copy of a list of identifiers, element by element.
pub fn clone_strings(v: &Vec<String>) -> (r: Vec<String>)
    ensures
        strings_v(r@) == strings_v(v@),
        r@.len() == v@.len(),
{
    let mut out: Vec<String> = Vec::new();
    let n = v.len();
    let mut i: usize = 0;
    while i < n
        invariant
            n == v@.len(),
            0 <= i <= n,
            out@.len() == i,
            forall|k: int| 0 <= k < i ==> #[trigger] out@[k]@ == v@[k]@,
        decreases n - i,
    {
        out.push(v[i].clone());
        i = i + 1;
    }
    proof {
        assert(strings_v(out@) =~= strings_v(v@));
    }
    out
}

/// A copy of a room summary, equal to it in the model.
pub fn clone_room(room: &Room) -> (r: Room)
    ensures
        r@ == room@,
{
    let r = Room {
        id: room.id.clone(),
        name: room.name.clone(),
        owner: room.owner.clone(),
        users: clone_strings(&room.users),
        conf: RoomConf {
            name: room.conf.name.clone(),
            max_users: room.conf.max_users,
            observable: room.conf.observable,
        },
    };
    r
}

} // verus!
