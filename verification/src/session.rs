//! The room-session decisions around admission, authorization, and the end
//! of a game by loss of all stones.
//!
//! These are the pure decision points of the dispatch layer: what a valid
//! `Connect` yields, which commands only the room owner may send, and when a
//! board has ended a game. The surrounding transport and the game engine
//! stay outside; they hand plain values in and take events back.

use vstd::prelude::*;
use crate::codec::{Command, CommandV, Event, EventV};
use crate::cause::EndedCause;
use crate::invite::InviteRegistry;
use crate::json::str_eq;
use crate::types::{Room, Game, Color, Stone, InvalidInvite, Unauthorized, board_v, clone_room};

verus! {

/// Admits one `Connect` bearing `key` into `room`. Success is owed exactly
/// to a key whose pending binding names this room; the binding is consumed
/// here, whether or not the room matched, so one connect per issued key can
/// ever succeed. On success the joiner gets `Connected` with the room
/// summary and the room is told `Entered` with the admitted user.
pub fn handle_connect(reg: &mut InviteRegistry, key: &str, room: &Room) -> (r: Result<
    (Event, Event),
    InvalidInvite,
>)
    requires
        old(reg).wf(),
    ensures
        final(reg).wf(),
        r is Ok <==> exists|i: int|
            0 <= i < old(reg).pending_view().len()
                && (#[trigger] old(reg).pending_view()[i]).key == key@
                && old(reg).pending_view()[i].room_id == room@.id,
        r is Ok ==> exists|i: int|
            0 <= i < old(reg).pending_view().len()
                && (#[trigger] old(reg).pending_view()[i]).key == key@
                && old(reg).pending_view()[i].room_id == room@.id
                && r->Ok_0.0@ == (EventV::Connected { room: room@ })
                && r->Ok_0.1@ == (EventV::Entered { user: old(reg).pending_view()[i].user_id })
                && final(reg).pending_view() == old(reg).pending_view().remove(i),
        old(reg).has_pending(key@) ==> exists|i: int|
            0 <= i < old(reg).pending_view().len()
                && (#[trigger] old(reg).pending_view()[i]).key == key@
                && final(reg).pending_view() == old(reg).pending_view().remove(i),
        !old(reg).has_pending(key@) ==> r is Err && *final(reg) == *old(reg),
        r is Ok ==> !final(reg).has_pending(key@),
{
    match reg.consume(key) {
        Ok((user, room_id)) => {
            if str_eq(room_id.as_str(), room.id.as_str()) {
                Ok(
                    (
                        Event::Connected { room: clone_room(room) },
                        Event::Entered { user },
                    ),
                )
            } else {
                proof {
                    lemma_no_other_binding(*old(reg), key@, room@.id);
                }
                Err(InvalidInvite)
            }
        },
        Err(e) => {
            proof {
                if exists|i: int|
                    0 <= i < old(reg).pending_view().len()
                        && (#[trigger] old(reg).pending_view()[i]).key == key@
                        && old(reg).pending_view()[i].room_id == room@.id {
                    let i = choose|i: int|
                        0 <= i < old(reg).pending_view().len()
                            && (#[trigger] old(reg).pending_view()[i]).key == key@
                            && old(reg).pending_view()[i].room_id == room@.id;
                    assert(old(reg).has_pending(key@)) by {
                        crate::invite::lemma_pending_index(*old(reg), i);
                    }
                }
            }
            Err(e)
        },
    }
}

/// In a well-formed registry, when the one binding under `key` names some
/// other room, no binding under `key` names `room_id`.
proof fn lemma_no_other_binding(reg: InviteRegistry, key: Seq<char>, room_id: Seq<char>)
    requires
        reg.wf(),
        exists|i: int|
            0 <= i < reg.pending_view().len() && (#[trigger] reg.pending_view()[i]).key == key
                && reg.pending_view()[i].room_id != room_id,
    ensures
        !(exists|i: int|
            0 <= i < reg.pending_view().len() && (#[trigger] reg.pending_view()[i]).key == key
                && reg.pending_view()[i].room_id == room_id),
{
    let i = choose|i: int|
        0 <= i < reg.pending_view().len() && (#[trigger] reg.pending_view()[i]).key == key
            && reg.pending_view()[i].room_id != room_id;
    if exists|j: int|
        0 <= j < reg.pending_view().len() && (#[trigger] reg.pending_view()[j]).key == key
            && reg.pending_view()[j].room_id == room_id {
        let j = choose|j: int|
            0 <= j < reg.pending_view().len() && (#[trigger] reg.pending_view()[j]).key == key
                && reg.pending_view()[j].room_id == room_id;
        if i != j {
            crate::invite::lemma_pending_keys_unique(reg, i, j);
        }
    }
}

/// Whether this command is reserved to the room owner.
pub open spec fn owner_only(c: CommandV) -> bool {
    match c {
        CommandV::Conf { .. } => true,
        CommandV::Start {  } => true,
        CommandV::Ban { .. } => true,
        _ => false,
    }
}

/// Allows a command exactly when it is open to everyone or its sender owns
/// the room; a non-owner sending `Conf`, `Start` or `Ban` is `Unauthorized`.
pub fn authorize(cmd: &Command, sender: &str, owner: &str) -> (r: Result<(), Unauthorized>)
    ensures
        r is Ok <==> (!owner_only(cmd@) || sender@ == owner@),
{
    let reserved = match cmd {
        Command::Conf { .. } => true,
        Command::Start {  } => true,
        Command::Ban { .. } => true,
        _ => false,
    };
    if !reserved || str_eq(sender, owner) {
        Ok(())
    } else {
        Err(Unauthorized)
    }
}

/// Whether some cell of this row holds `s`.
pub open spec fn row_has_stone(row: Seq<Stone>, s: Stone) -> bool {
    exists|j: int| 0 <= j < row.len() && row[j] == s
}

/// Whether some cell of this board holds `s`.
pub open spec fn board_has_stone(board: Seq<Seq<Stone>>, s: Stone) -> bool {
    exists|i: int| 0 <= i < board.len() && row_has_stone(board[i], s)
}

/// The side that has lost every stone, if one has: black is checked first,
/// as the engine reports a finished game one loser at a time.
pub open spec fn loser_by_stones_spec(board: Seq<Seq<Stone>>) -> Option<Color> {
    if !board_has_stone(board, Stone::Black) {
        Some(Color::Black)
    } else if !board_has_stone(board, Stone::White) {
        Some(Color::White)
    } else {
        None
    }
}

/// Whether any cell of the board holds this side's stone.
pub fn side_has_stones(board: &Vec<Vec<Stone>>, color: Color) -> (r: bool)
    ensures
        r == board_has_stone(board_v(board@), color.spec_stone()),
{
    let s = color.stone();
    let n = board.len();
    let mut i: usize = 0;
    while i < n
        invariant
            n == board@.len(),
            0 <= i <= n,
            s == color.spec_stone(),
            forall|a: int| 0 <= a < i ==> !row_has_stone(board_v(board@)[a], s),
        decreases n - i,
    {
        let row = &board[i];
        let m = row.len();
        let mut j: usize = 0;
        while j < m
            invariant
                0 <= i < board@.len(),
                s == color.spec_stone(),
                row == board@[i as int],
                m == row@.len(),
                0 <= j <= m,
                forall|b: int| 0 <= b < j ==> row@[b] != s,
            decreases m - j,
        {
            if row[j] == s {
                proof {
                    assert(board_v(board@)[i as int][j as int] == s);
                    assert(row_has_stone(board_v(board@)[i as int], s));
                }
                return true;
            }
            j = j + 1;
        }
        proof {
            assert(!row_has_stone(board_v(board@)[i as int], s)) by {
                if exists|b: int| 0 <= b < board_v(board@)[i as int].len() && board_v(
                    board@,
                )[i as int][b] == s {
                    let b = choose|b: int|
                        0 <= b < board_v(board@)[i as int].len() && board_v(
                            board@,
                        )[i as int][b] == s;
                    assert(row@[b] == s);
                }
            }
        }
        i = i + 1;
    }
    false
}

/// The `Ended` event a finished game calls for: when one side holds no
/// stones, that side's player is the loser and the cause is the loss of all
/// stones; while both sides hold stones there is no event.
pub fn ended_by_stones(game: &Game) -> (r: Option<Event>)
    ensures
        match loser_by_stones_spec(game@.board) {
            Some(c) => r matches Some(e) && e@ == (EventV::Ended {
                loser: if c == Color::Black {
                    game@.black
                } else {
                    game@.white
                },
                color: c.spec_name(),
                cause: EndedCause::LostStones,
            }),
            None => r is None,
        },
{
    if !side_has_stones(&game.board, Color::Black) {
        Some(
            Event::Ended {
                loser: game.black.clone(),
                color: Color::Black.name(),
                cause: EndedCause::LostStones,
            },
        )
    } else if !side_has_stones(&game.board, Color::White) {
        Some(
            Event::Ended {
                loser: game.white.clone(),
                color: Color::White.name(),
                cause: EndedCause::LostStones,
            },
        )
    } else {
        None
    }
}

} // verus!
