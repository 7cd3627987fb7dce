//! The server-discovery snapshot: a point-in-time record of a running
//! server and its rooms.
//!
//! Building a snapshot is a pure read: the server state is walked, each room
//! goes in as its summary, and the snapshot is stamped with the wall-clock
//! time. Two snapshots taken in sequence are independent; nothing is cached
//! and nothing is mutated.

use vstd::prelude::*;
use crate::codec::{room_jv, room_of_jv, room_to_json, room_from_json, lemma_room_distinct_keys,
    lemma_room_depth, lemma_room_round_trip, field_str, fields_of, items_of, get_str_field};
use crate::json::{Json, JsonV, jv, arr_v, obj_v, jget, distinct_keys, depth_at_most, json_of,
    json_from_text, json_to_text, obj_get};
use crate::types::{Room, RoomV, ParseError, clone_room};

verus! {

/// The live server state the snapshot is built from: its name, the address
/// it answers on, and the rooms now running.
pub struct Server {
    pub name: String,
    pub real_addr: String,
    pub rooms: Vec<Room>,
}

/// Model of a `Server`.
pub struct ServerV {
    pub name: Seq<char>,
    pub real_addr: Seq<char>,
    pub rooms: Seq<RoomV>,
}

/// The views of a list of rooms, element by element.
pub open spec fn rooms_v(rooms: Seq<Room>) -> Seq<RoomV> {
    Seq::new(rooms.len(), |i: int| rooms[i]@)
}

impl View for Server {
    type V = ServerV;

    open spec fn view(&self) -> ServerV {
        ServerV { name: self.name@, real_addr: self.real_addr@, rooms: rooms_v(self.rooms@) }
    }
}

/// A discovery record of a running server: name, address, the summary of
/// every room, and the moment it was taken, as RFC 3339 UTC text.
#[derive(Clone, Debug, PartialEq)]
pub struct GameServer {
    pub name: String,
    pub addr: String,
    pub rooms: Vec<Room>,
    pub last_ping: String,
}

/// Model of a `GameServer`.
pub struct GameServerV {
    pub name: Seq<char>,
    pub addr: Seq<char>,
    pub rooms: Seq<RoomV>,
    pub last_ping: Seq<char>,
}

impl View for GameServer {
    type V = GameServerV;

    open spec fn view(&self) -> GameServerV {
        GameServerV {
            name: self.name@,
            addr: self.addr@,
            rooms: rooms_v(self.rooms@),
            last_ping: self.last_ping@,
        }
    }
}

/// The shape every stamp of this crate's clock has: RFC 3339 UTC text, a
/// calendar date and a time of day joined by `T`, closed by the written-out
/// zero UTC offset.
pub open spec fn rfc3339_utc_text(s: Seq<char>) -> bool {
    &&& s.len() > 6
    &&& s.subrange(s.len() - 6, s.len() as int) == "+00:00"@
    &&& exists|i: int| 0 <= i < s.len() && s[i] == 'T'
}

/// Relies on `chrono::Utc::now` and `DateTime::to_rfc3339`: the current
/// wall-clock moment as RFC 3339 UTC text. The clock decides the value; what
/// holds of every reading is its shape: date and time joined by `T` and the
/// trailing `+00:00` of the zero UTC offset. Panics only if the system clock
/// reads before the Unix epoch, a state of the machine, not an input.
#[verifier::external_body]
fn now_rfc3339() -> (r: String)
    ensures
        rfc3339_utc_text(r@),
{
    chrono::Utc::now().to_rfc3339()
}

impl GameServer {
    /// Builds a fresh snapshot: the server's name and address, every room
    /// as its summary in order, and the moment of the call as `last_ping`,
    /// stamped as RFC 3339 UTC text. The server state is only read; nothing
    /// about it changes.
    pub fn from_server(server: &Server) -> (r: GameServer)
        ensures
            r@.name == server@.name,
            r@.addr == server@.real_addr,
            r@.rooms == server@.rooms,
            rfc3339_utc_text(r@.last_ping),
    {
        let mut rooms: Vec<Room> = Vec::new();
        let n = server.rooms.len();
        let mut i: usize = 0;
        while i < n
            invariant
                n == server.rooms@.len(),
                0 <= i <= n,
                rooms@.len() == i,
                forall|k: int| 0 <= k < i ==> #[trigger] rooms@[k]@ == server.rooms@[k]@,
            decreases n - i,
        {
            rooms.push(clone_room(&server.rooms[i]));
            i = i + 1;
        }
        let r = GameServer {
            name: server.name.clone(),
            addr: server.real_addr.clone(),
            rooms,
            last_ping: now_rfc3339(),
        };
        proof {
            assert(r@.rooms =~= server@.rooms);
        }
        r
    }
}

/// A list of room summaries as a JSON array.
pub open spec fn rooms_jv(rooms: Seq<RoomV>) -> JsonV {
    JsonV::Arr(
        Seq::new(rooms.len(), |i: int| if 0 <= i < rooms.len() {
            room_jv(rooms[i])
        } else {
            JsonV::Null
        }),
    )
}

/// The document a snapshot prints as: name, address, the rooms in order,
/// and the RFC 3339 stamp.
pub open spec fn gameserver_jv(g: GameServerV) -> JsonV {
    JsonV::Obj(
        seq![
            ("name"@, JsonV::Str(g.name)),
            ("addr"@, JsonV::Str(g.addr)),
            ("rooms"@, rooms_jv(g.rooms)),
            ("last_ping"@, JsonV::Str(g.last_ping)),
        ],
    )
}

/// A printed snapshot names each object field once, in every room too.
#[verifier::rlimit(50)]
proof fn lemma_gameserver_distinct_keys(g: GameServerV)
    ensures
        distinct_keys(gameserver_jv(g)),
{
    reveal_strlit("name");
    reveal_strlit("addr");
    reveal_strlit("rooms");
    reveal_strlit("last_ping");
    assert("name"@.len() == 4 && "name"@[0] == 'n');
    assert("addr"@.len() == 4 && "addr"@[0] == 'a');
    assert("rooms"@.len() == 5);
    assert("last_ping"@.len() == 9);
    let items = rooms_jv(g.rooms)->Arr_0;
    assert forall|i: int| 0 <= i < items.len() implies distinct_keys(#[trigger] items[i]) by {
        lemma_room_distinct_keys(g.rooms[i]);
    }
    reveal_with_fuel(distinct_keys, 2);
    assert(distinct_keys(rooms_jv(g.rooms)));
}

/// The document this snapshot prints as.
pub fn gameserver_to_json(g: &GameServer) -> (r: Json)
    ensures
        r@ == gameserver_jv(g@),
{
    let mut items: Vec<Json> = Vec::new();
    let n = g.rooms.len();
    let mut i: usize = 0;
    while i < n
        invariant
            n == g.rooms@.len(),
            0 <= i <= n,
            items@.len() == i,
            forall|k: int| 0 <= k < i ==> jv(#[trigger] items@[k]) == room_jv(g.rooms@[k]@),
        decreases n - i,
    {
        items.push(room_to_json(&g.rooms[i]));
        i = i + 1;
    }
    let rooms = Json::Arr(items);
    proof {
        reveal_with_fuel(jv, 2);
        assert(arr_v(rooms->Arr_0@) =~= rooms_jv(g@.rooms)->Arr_0);
    }
    let mut fields: Vec<(String, Json)> = Vec::new();
    fields.push((String::from_str("name"), Json::Str(g.name.clone())));
    fields.push((String::from_str("addr"), Json::Str(g.addr.clone())));
    fields.push((String::from_str("rooms"), rooms));
    fields.push((String::from_str("last_ping"), Json::Str(g.last_ping.clone())));
    let r = Json::Obj(fields);
    proof {
        reveal_with_fuel(jv, 2);
        let target = gameserver_jv(g@);
        assert(obj_v(fields@) =~= target->Obj_0);
        assert(r@ == target);
    }
    r
}

/// A printed snapshot stays far below the depth the JSON parser accepts.
proof fn lemma_gameserver_depth(g: GameServerV)
    ensures
        depth_at_most(gameserver_jv(g), 127),
{
    reveal_with_fuel(depth_at_most, 3);
    let items = rooms_jv(g.rooms)->Arr_0;
    assert forall|i: int| 0 <= i < items.len() implies depth_at_most(
        #[trigger] items[i],
        125,
    ) by {
        lemma_room_depth(g.rooms[i], 125);
    }
    assert(depth_at_most(rooms_jv(g.rooms), 126));
}

/// The lengths and leading characters of the snapshot's field names.
proof fn lemma_snapshot_literals()
    ensures
        "name"@.len() == 4 && "name"@[0] == 'n',
        "addr"@.len() == 4 && "addr"@[0] == 'a',
        "rooms"@.len() == 5,
        "last_ping"@.len() == 9,
{
    reveal_strlit("name");
    reveal_strlit("addr");
    reveal_strlit("rooms");
    reveal_strlit("last_ping");
}

/// The list of room summaries a JSON value reads as.
pub open spec fn rooms_of_jv(j: JsonV) -> Option<Seq<RoomV>> {
    match items_of(j) {
        Some(items) => if forall|i: int| 0 <= i < items.len() ==> room_of_jv(
            #[trigger] items[i],
        ) is Some {
            Some(Seq::new(items.len(), |i: int| room_of_jv(items[i]).unwrap()))
        } else {
            None
        },
        None => None,
    }
}

/// The snapshot a document reads as: its four fields by name, the rooms as
/// an array of room summaries.
pub open spec fn gameserver_of_jv(j: JsonV) -> Option<GameServerV> {
    match fields_of(j) {
        Some(fs) => {
            let rooms = match jget(fs, "rooms"@) {
                Some(v) => rooms_of_jv(v),
                None => None,
            };
            match (field_str(fs, "name"@), field_str(fs, "addr"@), rooms, field_str(
                fs,
                "last_ping"@,
            )) {
                (Some(name), Some(addr), Some(rooms), Some(last_ping)) => Some(
                    GameServerV { name, addr, rooms, last_ping },
                ),
                _ => None,
            }
        },
        None => None,
    }
}

/// The snapshot a piece of wire text carries, if it is JSON and reads as one.
pub open spec fn gameserver_of_text(text: Seq<char>) -> Option<GameServerV> {
    match json_of(text) {
        Some(j) => gameserver_of_jv(j),
        None => None,
    }
}

/// Law: decoding an encoded snapshot recovers an equal snapshot, for every
/// snapshot.
#[verifier::rlimit(50)]
pub proof fn lemma_gameserver_round_trip(g: GameServerV)
    ensures
        gameserver_of_jv(gameserver_jv(g)) == Some(g),
{
    lemma_snapshot_literals();
    reveal_with_fuel(jget, 6);
    let items = rooms_jv(g.rooms)->Arr_0;
    assert forall|i: int| 0 <= i < items.len() implies room_of_jv(#[trigger] items[i]) is Some by {
        lemma_room_round_trip(g.rooms[i]);
    }
    assert forall|i: int| 0 <= i < g.rooms.len() implies room_of_jv(#[trigger] items[i]) == Some(
        g.rooms[i],
    ) by {
        lemma_room_round_trip(g.rooms[i]);
    }
    assert(rooms_of_jv(rooms_jv(g.rooms))->Some_0 =~= g.rooms);
}

/// Prints one snapshot as the discovery record's wire text. The text decodes
/// back to this snapshot: encoding round-trips.
pub fn encode_gameserver(g: &GameServer) -> (r: String)
    ensures
        json_of(r@) == Some(gameserver_jv(g@)),
        gameserver_of_text(r@) == Some(g@),
{
    let j = gameserver_to_json(g);
    proof {
        lemma_gameserver_distinct_keys(g@);
        lemma_gameserver_depth(g@);
        lemma_gameserver_round_trip(g@);
    }
    json_to_text(&j)
}

/// The list of room summaries this JSON value reads as.
pub fn rooms_from_json(j: &Json) -> (r: Option<Vec<Room>>)
    ensures
        match r {
            Some(u) => rooms_of_jv(j@) == Some(rooms_v(u@)),
            None => rooms_of_jv(j@) is None,
        },
{
    match j {
        Json::Arr(items) => {
            let mut out: Vec<Room> = Vec::new();
            let n = items.len();
            let mut i: usize = 0;
            while i < n
                invariant
                    *j == Json::Arr(*items),
                    n == items@.len(),
                    0 <= i <= n,
                    out@.len() == i,
                    forall|k: int| 0 <= k < i ==> room_of_jv(#[trigger] arr_v(items@)[k]) == Some(
                        out@[k]@,
                    ),
                decreases n - i,
            {
                match room_from_json(&items[i]) {
                    Some(room) => {
                        out.push(room);
                    },
                    None => {
                        proof {
                            reveal_with_fuel(jv, 2);
                            assert(room_of_jv(arr_v(items@)[i as int]) is None);
                            assert(!(forall|k: int|
                                0 <= k < arr_v(items@).len() ==> room_of_jv(
                                    #[trigger] arr_v(items@)[k],
                                ) is Some)) by {
                                assert(0 <= (i as int) < arr_v(items@).len() && room_of_jv(
                                    arr_v(items@)[i as int],
                                ) is None);
                            }
                            assert(rooms_of_jv(j@) is None);
                        }
                        return None;
                    },
                }
                i = i + 1;
            }
            proof {
                reveal_with_fuel(jv, 2);
                assert(forall|k: int| 0 <= k < items@.len() ==> room_of_jv(
                    #[trigger] arr_v(items@)[k],
                ) is Some);
                assert(rooms_of_jv(jv(Json::Arr(*items))) matches Some(u) && u =~= rooms_v(out@));
            }
            Some(out)
        },
        _ => None,
    }
}

/// The snapshot this document reads as; anything else is a `ParseError`.
pub fn gameserver_from_json(j: &Json) -> (r: Result<GameServer, ParseError>)
    ensures
        match r {
            Ok(g) => gameserver_of_jv(j@) == Some(g@),
            Err(_) => gameserver_of_jv(j@) is None,
        },
{
    let fields = match j {
        Json::Obj(fields) => fields,
        _ => {
            return Err(ParseError);
        },
    };
    let name = get_str_field(fields, "name");
    let addr = get_str_field(fields, "addr");
    let rooms = match obj_get(fields, "rooms") {
        Some(v) => rooms_from_json(v),
        None => None,
    };
    let last_ping = get_str_field(fields, "last_ping");
    match (name, addr, rooms, last_ping) {
        (Some(name), Some(addr), Some(rooms), Some(last_ping)) => Ok(
            GameServer { name, addr, rooms, last_ping },
        ),
        _ => Err(ParseError),
    }
}

/// Decodes one encoded discovery record with the same schema it was encoded
/// under.
pub fn decode_gameserver(msg: &str) -> (r: Result<GameServer, ParseError>)
    ensures
        match r {
            Ok(g) => gameserver_of_text(msg@) == Some(g@),
            Err(_) => gameserver_of_text(msg@) is None,
        },
{
    match json_from_text(msg) {
        Some(j) => gameserver_from_json(&j),
        None => Err(ParseError),
    }
}

} // verus!
