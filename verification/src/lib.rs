//! Session layer of a real-time multiplayer board-game server: invite-based
//! admission, the tagged command/event message contracts, game-end cause
//! classification, and the server-discovery snapshot.

pub mod cause;
pub mod codec;
pub mod invite;
pub mod json;
pub mod session;
pub mod snapshot;
pub mod types;

pub use cause::EndedCause;
pub use codec::{Command, Event, parse_command, encode_command, encode_event, decode_event};
pub use invite::{Invite, InviteRegistry};
pub use snapshot::{GameServer, Server};
pub use types::{AxialCord, Color, Game, InvalidCause, InvalidInvite, ParseError, Room, RoomConf,
    Stone, Unauthorized, UserId};
