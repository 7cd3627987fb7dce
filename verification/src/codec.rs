//! The tagged message contracts: what a `Command` or an `Event` looks like as
//! a JSON document, in both directions.
//!
//! Every message is an object with an explicit `type` discriminant and that
//! variant's fields flattened beside it. Encoding is deterministic; decoding
//! is tag-driven, ignores unknown extra fields, and fails with `ParseError`
//! on an unknown discriminant or a missing or mismatched field — it never
//! default-constructs a partial message.

use vstd::prelude::*;
use vstd::string::StringExecFns;
use crate::json::{Json, JsonV, jv, arr_v, obj_v, jget, distinct_keys, depth_at_most, json_of,
    json_from_text, json_to_text, str_eq, obj_get};
use crate::types::{UserId, AxialCord, Stone, RoomConf, RoomConfV, Room, RoomV, ParseError,
    strings_v};
use crate::cause::{EndedCause, cause_str, cause_of_str};

verus! {

/// A client-to-server message.
#[derive(Clone, Debug, PartialEq)]
pub enum Command {
    Connect { invite: String },
    Move { start: AxialCord, end: AxialCord, dir: AxialCord },
    Chat { content: String },
    Conf { conf: RoomConf },
    Start {},
    Ban { user: UserId },
    Gg {},
}

/// Model of a `Command`.
pub enum CommandV {
    Connect { invite: Seq<char> },
    Move { start: AxialCord, end: AxialCord, dir: AxialCord },
    Chat { content: Seq<char> },
    Conf { conf: RoomConfV },
    Start {},
    Ban { user: Seq<char> },
    Gg {},
}

impl View for Command {
    type V = CommandV;

    open spec fn view(&self) -> CommandV {
        match self {
            Command::Connect { invite } => CommandV::Connect { invite: invite@ },
            Command::Move { start, end, dir } => CommandV::Move {
                start: *start,
                end: *end,
                dir: *dir,
            },
            Command::Chat { content } => CommandV::Chat { content: content@ },
            Command::Conf { conf } => CommandV::Conf { conf: conf@ },
            Command::Start {  } => CommandV::Start {  },
            Command::Ban { user } => CommandV::Ban { user: user@ },
            Command::Gg {  } => CommandV::Gg {  },
        }
    }
}

// ---------------------------------------------------------------------------
// What each value shape reads as.

/// The characters of a JSON string value.
pub open spec fn str_of(j: JsonV) -> Option<Seq<char>> {
    match j {
        JsonV::Str(s) => Some(s),
        _ => None,
    }
}

/// The value of a JSON boolean.
pub open spec fn bool_of(j: JsonV) -> Option<bool> {
    match j {
        JsonV::Bool(b) => Some(b),
        _ => None,
    }
}

/// The fields of a JSON object value.
pub open spec fn fields_of(j: JsonV) -> Option<Seq<(Seq<char>, JsonV)>> {
    match j {
        JsonV::Obj(fs) => Some(fs),
        _ => None,
    }
}

/// The items of a JSON array value.
pub open spec fn items_of(j: JsonV) -> Option<Seq<JsonV>> {
    match j {
        JsonV::Arr(items) => Some(items),
        _ => None,
    }
}

/// The string under `key`, if the field is there and is a string.
pub open spec fn field_str(fs: Seq<(Seq<char>, JsonV)>, key: Seq<char>) -> Option<Seq<char>> {
    match jget(fs, key) {
        Some(v) => str_of(v),
        None => None,
    }
}

/// The `i64` under `key`, if the field is there and is an integer in range.
pub open spec fn field_i64(fs: Seq<(Seq<char>, JsonV)>, key: Seq<char>) -> Option<i64> {
    match jget(fs, key) {
        Some(JsonV::Int(i)) => if i64::MIN <= i <= i64::MAX {
            Some(i as i64)
        } else {
            None
        },
        _ => None,
    }
}

/// The `u32` under `key`, if the field is there and is an integer in range.
pub open spec fn field_u32(fs: Seq<(Seq<char>, JsonV)>, key: Seq<char>) -> Option<u32> {
    match jget(fs, key) {
        Some(JsonV::Int(i)) => if 0 <= i <= u32::MAX {
            Some(i as u32)
        } else {
            None
        },
        _ => None,
    }
}

/// The boolean under `key`, if the field is there and is a boolean.
pub open spec fn field_bool(fs: Seq<(Seq<char>, JsonV)>, key: Seq<char>) -> Option<bool> {
    match jget(fs, key) {
        Some(v) => bool_of(v),
        None => None,
    }
}

// ---------------------------------------------------------------------------
// The document each message value prints as.

/// A coordinate as a JSON object.
pub open spec fn axial_jv(a: AxialCord) -> JsonV {
    JsonV::Obj(seq![("x"@, JsonV::Int(a.x as int)), ("y"@, JsonV::Int(a.y as int))])
}

/// A room configuration as a JSON object.
pub open spec fn conf_jv(c: RoomConfV) -> JsonV {
    JsonV::Obj(
        seq![
            ("name"@, JsonV::Str(c.name)),
            ("max_users"@, JsonV::Int(c.max_users as int)),
            ("observable"@, JsonV::Bool(c.observable)),
        ],
    )
}

/// A list of strings as a JSON array.
pub open spec fn strings_jv(users: Seq<Seq<char>>) -> JsonV {
    JsonV::Arr(
        Seq::new(users.len(), |i: int| JsonV::Str(if 0 <= i < users.len() {
            users[i]
        } else {
            Seq::empty()
        })),
    )
}

/// A room summary as a JSON object.
pub open spec fn room_jv(r: RoomV) -> JsonV {
    JsonV::Obj(
        seq![
            ("id"@, JsonV::Str(r.id)),
            ("name"@, JsonV::Str(r.name)),
            ("owner"@, JsonV::Str(r.owner)),
            ("users"@, strings_jv(r.users)),
            ("conf"@, conf_jv(r.conf)),
        ],
    )
}

/// The wire name of one board cell.
pub open spec fn stone_str(s: Stone) -> Seq<char> {
    match s {
        Stone::Blank => "blank"@,
        Stone::Black => "black"@,
        Stone::White => "white"@,
    }
}

/// One board row as a JSON array of cell names.
pub open spec fn row_jv(row: Seq<Stone>) -> JsonV {
    JsonV::Arr(
        Seq::new(row.len(), |i: int| JsonV::Str(if 0 <= i < row.len() {
            stone_str(row[i])
        } else {
            Seq::empty()
        })),
    )
}

/// The raw row-major board grid as a JSON array of rows.
pub open spec fn board_jv(board: Seq<Seq<Stone>>) -> JsonV {
    JsonV::Arr(
        Seq::new(board.len(), |i: int| if 0 <= i < board.len() {
            row_jv(board[i])
        } else {
            JsonV::Null
        }),
    )
}

/// The document a command prints as: its lowercase discriminant under
/// `type`, then the variant's fields.
pub open spec fn cmd_jv(c: CommandV) -> JsonV {
    match c {
        CommandV::Connect { invite } => JsonV::Obj(
            seq![("type"@, JsonV::Str("connect"@)), ("invite"@, JsonV::Str(invite))],
        ),
        CommandV::Move { start, end, dir } => JsonV::Obj(
            seq![
                ("type"@, JsonV::Str("move"@)),
                ("start"@, axial_jv(start)),
                ("end"@, axial_jv(end)),
                ("dir"@, axial_jv(dir)),
            ],
        ),
        CommandV::Chat { content } => JsonV::Obj(
            seq![("type"@, JsonV::Str("chat"@)), ("content"@, JsonV::Str(content))],
        ),
        CommandV::Conf { conf } => JsonV::Obj(
            seq![("type"@, JsonV::Str("conf"@)), ("conf"@, conf_jv(conf))],
        ),
        CommandV::Start {  } => JsonV::Obj(seq![("type"@, JsonV::Str("start"@))]),
        CommandV::Ban { user } => JsonV::Obj(
            seq![("type"@, JsonV::Str("ban"@)), ("user"@, JsonV::Str(user))],
        ),
        CommandV::Gg {  } => JsonV::Obj(seq![("type"@, JsonV::Str("gg"@))]),
    }
}

// ---------------------------------------------------------------------------
// What a document reads back as.

/// The coordinate a JSON value reads as.
pub open spec fn axial_of_jv(j: JsonV) -> Option<AxialCord> {
    match fields_of(j) {
        Some(fs) => match (field_i64(fs, "x"@), field_i64(fs, "y"@)) {
            (Some(x), Some(y)) => Some(AxialCord { x, y }),
            _ => None,
        },
        None => None,
    }
}

/// The room configuration a JSON value reads as.
pub open spec fn conf_of_jv(j: JsonV) -> Option<RoomConfV> {
    match fields_of(j) {
        Some(fs) => match (field_str(fs, "name"@), field_u32(fs, "max_users"@), field_bool(
            fs,
            "observable"@,
        )) {
            (Some(name), Some(max_users), Some(observable)) => Some(
                RoomConfV { name, max_users, observable },
            ),
            _ => None,
        },
        None => None,
    }
}

/// The list of strings a JSON value reads as.
pub open spec fn strings_of_jv(j: JsonV) -> Option<Seq<Seq<char>>> {
    match items_of(j) {
        Some(items) => if forall|i: int| 0 <= i < items.len() ==> str_of(
            #[trigger] items[i],
        ) is Some {
            Some(Seq::new(items.len(), |i: int| str_of(items[i]).unwrap()))
        } else {
            None
        },
        None => None,
    }
}

/// The room summary a JSON value reads as.
pub open spec fn room_of_jv(j: JsonV) -> Option<RoomV> {
    match fields_of(j) {
        Some(fs) => {
            let users = match jget(fs, "users"@) {
                Some(u) => strings_of_jv(u),
                None => None,
            };
            let conf = match jget(fs, "conf"@) {
                Some(c) => conf_of_jv(c),
                None => None,
            };
            match (field_str(fs, "id"@), field_str(fs, "name"@), field_str(fs, "owner"@)) {
                (Some(id), Some(name), Some(owner)) => match (users, conf) {
                    (Some(users), Some(conf)) => Some(RoomV { id, name, owner, users, conf }),
                    _ => None,
                },
                _ => None,
            }
        },
        None => None,
    }
}

/// The board cell a JSON value reads as.
pub open spec fn cell_of_jv(j: JsonV) -> Option<Stone> {
    match str_of(j) {
        Some(s) => if s == "blank"@ {
            Some(Stone::Blank)
        } else if s == "black"@ {
            Some(Stone::Black)
        } else if s == "white"@ {
            Some(Stone::White)
        } else {
            None
        },
        None => None,
    }
}

/// The board row a JSON value reads as.
pub open spec fn row_of_jv(j: JsonV) -> Option<Seq<Stone>> {
    match items_of(j) {
        Some(items) => if forall|i: int| 0 <= i < items.len() ==> cell_of_jv(
            #[trigger] items[i],
        ) is Some {
            Some(Seq::new(items.len(), |i: int| cell_of_jv(items[i]).unwrap()))
        } else {
            None
        },
        None => None,
    }
}

/// The board grid a JSON value reads as.
pub open spec fn board_of_jv(j: JsonV) -> Option<Seq<Seq<Stone>>> {
    match items_of(j) {
        Some(rows) => if forall|i: int| 0 <= i < rows.len() ==> row_of_jv(
            #[trigger] rows[i],
        ) is Some {
            Some(Seq::new(rows.len(), |i: int| row_of_jv(rows[i]).unwrap()))
        } else {
            None
        },
        None => None,
    }
}

/// The command a document reads as: `None` is a parse failure. An unknown
/// `type`, a missing `type`, or a missing or mismatched field reads as
/// nothing; extra fields are ignored.
pub open spec fn cmd_of_jv(j: JsonV) -> Option<CommandV> {
    match fields_of(j) {
        Some(fs) => match field_str(fs, "type"@) {
            Some(t) => if t == "connect"@ {
                match field_str(fs, "invite"@) {
                    Some(invite) => Some(CommandV::Connect { invite }),
                    None => None,
                }
            } else if t == "move"@ {
                let start = match jget(fs, "start"@) {
                    Some(v) => axial_of_jv(v),
                    None => None,
                };
                let end = match jget(fs, "end"@) {
                    Some(v) => axial_of_jv(v),
                    None => None,
                };
                let dir = match jget(fs, "dir"@) {
                    Some(v) => axial_of_jv(v),
                    None => None,
                };
                match (start, end, dir) {
                    (Some(start), Some(end), Some(dir)) => Some(
                        CommandV::Move { start, end, dir },
                    ),
                    _ => None,
                }
            } else if t == "chat"@ {
                match field_str(fs, "content"@) {
                    Some(content) => Some(CommandV::Chat { content }),
                    None => None,
                }
            } else if t == "conf"@ {
                match jget(fs, "conf"@) {
                    Some(v) => match conf_of_jv(v) {
                        Some(conf) => Some(CommandV::Conf { conf }),
                        None => None,
                    },
                    None => None,
                }
            } else if t == "start"@ {
                Some(CommandV::Start {  })
            } else if t == "ban"@ {
                match field_str(fs, "user"@) {
                    Some(user) => Some(CommandV::Ban { user }),
                    None => None,
                }
            } else if t == "gg"@ {
                Some(CommandV::Gg {  })
            } else {
                None
            },
            None => None,
        },
        None => None,
    }
}

/// The command a piece of wire text carries, if it is JSON and reads as one.
pub open spec fn cmd_of_text(text: Seq<char>) -> Option<CommandV> {
    match json_of(text) {
        Some(j) => cmd_of_jv(j),
        None => None,
    }
}

// ---------------------------------------------------------------------------
// Building documents.

/// A JSON string holding this text.
pub fn jstr(s: &str) -> (r: Json)
    ensures
        r@ == JsonV::Str(s@),
{
    Json::Str(String::from_str(s))
}

/// A JSON string holding a copy of this text.
pub fn jstr_of(s: &String) -> (r: Json)
    ensures
        r@ == JsonV::Str(s@),
{
    Json::Str(s.clone())
}

/// A coordinate as a JSON object.
pub fn axial_to_json(a: &AxialCord) -> (r: Json)
    ensures
        r@ == axial_jv(*a),
{
    let mut fields: Vec<(String, Json)> = Vec::new();
    fields.push((String::from_str("x"), Json::Int(a.x)));
    fields.push((String::from_str("y"), Json::Int(a.y)));
    let r = Json::Obj(fields);
    proof {
        reveal_with_fuel(jv, 2);
        let target = axial_jv(*a);
        assert(obj_v(fields@) =~= target->Obj_0);
        assert(r@ == target);
    }
    r
}

/// A room configuration as a JSON object.
pub fn conf_to_json(c: &RoomConf) -> (r: Json)
    ensures
        r@ == conf_jv(c@),
{
    let mut fields: Vec<(String, Json)> = Vec::new();
    fields.push((String::from_str("name"), jstr_of(&c.name)));
    fields.push((String::from_str("max_users"), Json::Int(c.max_users as i64)));
    fields.push((String::from_str("observable"), Json::Bool(c.observable)));
    let r = Json::Obj(fields);
    proof {
        reveal_with_fuel(jv, 2);
        let target = conf_jv(c@);
        assert(obj_v(fields@) =~= target->Obj_0);
        assert(r@ == target);
    }
    r
}

/// A list of strings as a JSON array.
pub fn strings_to_json(users: &Vec<String>) -> (r: Json)
    ensures
        r@ == strings_jv(strings_v(users@)),
{
    let mut items: Vec<Json> = Vec::new();
    let n = users.len();
    let mut i: usize = 0;
    while i < n
        invariant
            n == users@.len(),
            0 <= i <= n,
            items@.len() == i,
            forall|k: int| 0 <= k < i ==> jv(#[trigger] items@[k]) == JsonV::Str(users@[k]@),
        decreases n - i,
    {
        items.push(jstr_of(&users[i]));
        i = i + 1;
    }
    let r = Json::Arr(items);
    proof {
        reveal_with_fuel(jv, 2);
        let target = strings_jv(strings_v(users@));
        assert(arr_v(items@) =~= target->Arr_0);
        assert(r@ == target);
    }
    r
}

/// A room summary as a JSON object.
pub fn room_to_json(room: &Room) -> (r: Json)
    ensures
        r@ == room_jv(room@),
{
    let mut fields: Vec<(String, Json)> = Vec::new();
    fields.push((String::from_str("id"), jstr_of(&room.id)));
    fields.push((String::from_str("name"), jstr_of(&room.name)));
    fields.push((String::from_str("owner"), jstr_of(&room.owner)));
    fields.push((String::from_str("users"), strings_to_json(&room.users)));
    fields.push((String::from_str("conf"), conf_to_json(&room.conf)));
    let r = Json::Obj(fields);
    proof {
        reveal_with_fuel(jv, 2);
        let target = room_jv(room@);
        assert(obj_v(fields@) =~= target->Obj_0);
        assert(r@ == target);
    }
    r
}

/// One board cell as its JSON name.
pub fn stone_to_json(s: Stone) -> (r: Json)
    ensures
        r@ == JsonV::Str(stone_str(s)),
{
    match s {
        Stone::Blank => jstr("blank"),
        Stone::Black => jstr("black"),
        Stone::White => jstr("white"),
    }
}

/// One board row as a JSON array of cell names.
pub fn row_to_json(row: &Vec<Stone>) -> (r: Json)
    ensures
        r@ == row_jv(row@),
{
    let mut items: Vec<Json> = Vec::new();
    let n = row.len();
    let mut i: usize = 0;
    while i < n
        invariant
            n == row@.len(),
            0 <= i <= n,
            items@.len() == i,
            forall|k: int| 0 <= k < i ==> jv(#[trigger] items@[k]) == JsonV::Str(stone_str(row@[k])),
        decreases n - i,
    {
        items.push(stone_to_json(row[i]));
        i = i + 1;
    }
    let r = Json::Arr(items);
    proof {
        reveal_with_fuel(jv, 2);
        let target = row_jv(row@);
        assert(arr_v(items@) =~= target->Arr_0);
        assert(r@ == target);
    }
    r
}

/// The raw board grid as a JSON array of rows.
pub fn board_to_json(board: &Vec<Vec<Stone>>) -> (r: Json)
    ensures
        r@ == board_jv(crate::types::board_v(board@)),
{
    let mut items: Vec<Json> = Vec::new();
    let n = board.len();
    let mut i: usize = 0;
    while i < n
        invariant
            n == board@.len(),
            0 <= i <= n,
            items@.len() == i,
            forall|k: int| 0 <= k < i ==> jv(#[trigger] items@[k]) == row_jv(board@[k]@),
        decreases n - i,
    {
        items.push(row_to_json(&board[i]));
        i = i + 1;
    }
    let r = Json::Arr(items);
    proof {
        reveal_with_fuel(jv, 2);
        let target = board_jv(crate::types::board_v(board@));
        assert(arr_v(items@) =~= target->Arr_0);
        assert(r@ == target);
    }
    r
}

/// The document this command prints as.
pub fn command_to_json(c: &Command) -> (r: Json)
    ensures
        r@ == cmd_jv(c@),
{
    let r = match c {
        Command::Connect { invite } => {
            let mut fields: Vec<(String, Json)> = Vec::new();
            fields.push((String::from_str("type"), jstr("connect")));
            fields.push((String::from_str("invite"), jstr_of(invite)));
            let j = Json::Obj(fields);
            proof {
                reveal_with_fuel(jv, 2);
                let target = cmd_jv(c@);
                assert(obj_v(fields@) =~= target->Obj_0);
                assert(j@ == target);
            }
            j
        },
        Command::Move { start, end, dir } => {
            let mut fields: Vec<(String, Json)> = Vec::new();
            fields.push((String::from_str("type"), jstr("move")));
            fields.push((String::from_str("start"), axial_to_json(start)));
            fields.push((String::from_str("end"), axial_to_json(end)));
            fields.push((String::from_str("dir"), axial_to_json(dir)));
            let j = Json::Obj(fields);
            proof {
                reveal_with_fuel(jv, 2);
                let target = cmd_jv(c@);
                assert(obj_v(fields@) =~= target->Obj_0);
                assert(j@ == target);
            }
            j
        },
        Command::Chat { content } => {
            let mut fields: Vec<(String, Json)> = Vec::new();
            fields.push((String::from_str("type"), jstr("chat")));
            fields.push((String::from_str("content"), jstr_of(content)));
            let j = Json::Obj(fields);
            proof {
                reveal_with_fuel(jv, 2);
                let target = cmd_jv(c@);
                assert(obj_v(fields@) =~= target->Obj_0);
                assert(j@ == target);
            }
            j
        },
        Command::Conf { conf } => {
            let mut fields: Vec<(String, Json)> = Vec::new();
            fields.push((String::from_str("type"), jstr("conf")));
            fields.push((String::from_str("conf"), conf_to_json(conf)));
            let j = Json::Obj(fields);
            proof {
                reveal_with_fuel(jv, 2);
                let target = cmd_jv(c@);
                assert(obj_v(fields@) =~= target->Obj_0);
                assert(j@ == target);
            }
            j
        },
        Command::Start {  } => {
            let mut fields: Vec<(String, Json)> = Vec::new();
            fields.push((String::from_str("type"), jstr("start")));
            let j = Json::Obj(fields);
            proof {
                reveal_with_fuel(jv, 2);
                let target = cmd_jv(c@);
                assert(obj_v(fields@) =~= target->Obj_0);
                assert(j@ == target);
            }
            j
        },
        Command::Ban { user } => {
            let mut fields: Vec<(String, Json)> = Vec::new();
            fields.push((String::from_str("type"), jstr("ban")));
            fields.push((String::from_str("user"), jstr_of(user)));
            let j = Json::Obj(fields);
            proof {
                reveal_with_fuel(jv, 2);
                let target = cmd_jv(c@);
                assert(obj_v(fields@) =~= target->Obj_0);
                assert(j@ == target);
            }
            j
        },
        Command::Gg {  } => {
            let mut fields: Vec<(String, Json)> = Vec::new();
            fields.push((String::from_str("type"), jstr("gg")));
            let j = Json::Obj(fields);
            proof {
                reveal_with_fuel(jv, 2);
                let target = cmd_jv(c@);
                assert(obj_v(fields@) =~= target->Obj_0);
                assert(j@ == target);
            }
            j
        },
    };
    r
}

// ---------------------------------------------------------------------------
// Reading documents.

/// The string under `key` of these fields, copied out.
pub fn get_str_field(fields: &Vec<(String, Json)>, key: &str) -> (r: Option<String>)
    ensures
        match r {
            Some(s) => field_str(obj_v(fields@), key@) == Some(s@),
            None => field_str(obj_v(fields@), key@) is None,
        },
{
    match obj_get(fields, key) {
        Some(v) => match v {
            Json::Str(s) => Some(s.clone()),
            _ => None,
        },
        None => None,
    }
}

/// The integer under `key` of these fields.
pub fn get_i64_field(fields: &Vec<(String, Json)>, key: &str) -> (r: Option<i64>)
    ensures
        match r {
            Some(i) => field_i64(obj_v(fields@), key@) == Some(i),
            None => field_i64(obj_v(fields@), key@) is None,
        },
{
    match obj_get(fields, key) {
        Some(v) => match v {
            Json::Int(i) => Some(*i),
            _ => None,
        },
        None => None,
    }
}

/// The small non-negative integer under `key` of these fields.
pub fn get_u32_field(fields: &Vec<(String, Json)>, key: &str) -> (r: Option<u32>)
    ensures
        match r {
            Some(i) => field_u32(obj_v(fields@), key@) == Some(i),
            None => field_u32(obj_v(fields@), key@) is None,
        },
{
    match obj_get(fields, key) {
        Some(v) => match v {
            Json::Int(i) => if *i >= 0 && *i <= u32::MAX as i64 {
                Some(*i as u32)
            } else {
                None
            },
            _ => None,
        },
        None => None,
    }
}

/// The boolean under `key` of these fields.
pub fn get_bool_field(fields: &Vec<(String, Json)>, key: &str) -> (r: Option<bool>)
    ensures
        match r {
            Some(b) => field_bool(obj_v(fields@), key@) == Some(b),
            None => field_bool(obj_v(fields@), key@) is None,
        },
{
    match obj_get(fields, key) {
        Some(v) => match v {
            Json::Bool(b) => Some(*b),
            _ => None,
        },
        None => None,
    }
}

/// The coordinate this JSON value reads as.
pub fn axial_from_json(j: &Json) -> (r: Option<AxialCord>)
    ensures
        match r {
            Some(a) => axial_of_jv(j@) == Some(a),
            None => axial_of_jv(j@) is None,
        },
{
    match j {
        Json::Obj(fields) => match (get_i64_field(fields, "x"), get_i64_field(fields, "y")) {
            (Some(x), Some(y)) => Some(AxialCord { x, y }),
            _ => None,
        },
        _ => None,
    }
}

/// The room configuration this JSON value reads as.
pub fn conf_from_json(j: &Json) -> (r: Option<RoomConf>)
    ensures
        match r {
            Some(c) => conf_of_jv(j@) == Some(c@),
            None => conf_of_jv(j@) is None,
        },
{
    match j {
        Json::Obj(fields) => {
            let name = get_str_field(fields, "name");
            let max_users = get_u32_field(fields, "max_users");
            let observable = get_bool_field(fields, "observable");
            match (name, max_users, observable) {
                (Some(name), Some(max_users), Some(observable)) => Some(
                    RoomConf { name, max_users, observable },
                ),
                _ => None,
            }
        },
        _ => None,
    }
}

/// The list of strings this JSON value reads as.
pub fn strings_from_json(j: &Json) -> (r: Option<Vec<String>>)
    ensures
        match r {
            Some(u) => strings_of_jv(j@) == Some(strings_v(u@)),
            None => strings_of_jv(j@) is None,
        },
{
    match j {
        Json::Arr(items) => {
            let mut out: Vec<String> = Vec::new();
            let n = items.len();
            let mut i: usize = 0;
            while i < n
                invariant
                    *j == Json::Arr(*items),
                    n == items@.len(),
                    0 <= i <= n,
                    out@.len() == i,
                    forall|k: int| 0 <= k < i ==> str_of(#[trigger] arr_v(items@)[k]) == Some(
                        out@[k]@,
                    ),
                decreases n - i,
            {
                match &items[i] {
                    Json::Str(s) => {
                        out.push(s.clone());
                    },
                    _ => {
                        proof {
                            reveal_with_fuel(jv, 2);
                            assert(str_of(arr_v(items@)[i as int]) is None);
                            assert(!(forall|k: int|
                                0 <= k < arr_v(items@).len() ==> str_of(
                                    #[trigger] arr_v(items@)[k],
                                ) is Some)) by {
                                assert(0 <= (i as int) < arr_v(items@).len() && str_of(
                                    arr_v(items@)[i as int],
                                ) is None);
                            }
                            assert(strings_of_jv(j@) is None);
                        }
                        return None;
                    },
                }
                i = i + 1;
            }
            proof {
                reveal_with_fuel(jv, 2);
                assert(forall|k: int| 0 <= k < items@.len() ==> str_of(
                    #[trigger] arr_v(items@)[k],
                ) is Some);
                assert(strings_of_jv(jv(Json::Arr(*items))) matches Some(u) && u =~= strings_v(
                    out@,
                ));
            }
            Some(out)
        },
        _ => None,
    }
}

/// The board cell this JSON value reads as.
pub fn stone_from_json(j: &Json) -> (r: Option<Stone>)
    ensures
        match r {
            Some(s) => cell_of_jv(j@) == Some(s),
            None => cell_of_jv(j@) is None,
        },
{
    match j {
        Json::Str(s) => if str_eq(s.as_str(), "blank") {
            Some(Stone::Blank)
        } else if str_eq(s.as_str(), "black") {
            Some(Stone::Black)
        } else if str_eq(s.as_str(), "white") {
            Some(Stone::White)
        } else {
            None
        },
        _ => None,
    }
}

/// The board row this JSON value reads as.
pub fn row_from_json(j: &Json) -> (r: Option<Vec<Stone>>)
    ensures
        match r {
            Some(row) => row_of_jv(j@) == Some(row@),
            None => row_of_jv(j@) is None,
        },
{
    match j {
        Json::Arr(items) => {
            let mut out: Vec<Stone> = Vec::new();
            let n = items.len();
            let mut i: usize = 0;
            while i < n
                invariant
                    *j == Json::Arr(*items),
                    n == items@.len(),
                    0 <= i <= n,
                    out@.len() == i,
                    forall|k: int| 0 <= k < i ==> cell_of_jv(#[trigger] arr_v(items@)[k]) == Some(
                        out@[k],
                    ),
                decreases n - i,
            {
                match stone_from_json(&items[i]) {
                    Some(s) => {
                        out.push(s);
                    },
                    None => {
                        proof {
                            reveal_with_fuel(jv, 2);
                            assert(cell_of_jv(arr_v(items@)[i as int]) is None);
                            assert(!(forall|k: int|
                                0 <= k < arr_v(items@).len() ==> cell_of_jv(
                                    #[trigger] arr_v(items@)[k],
                                ) is Some)) by {
                                assert(0 <= (i as int) < arr_v(items@).len() && cell_of_jv(
                                    arr_v(items@)[i as int],
                                ) is None);
                            }
                            assert(row_of_jv(j@) is None);
                        }
                        return None;
                    },
                }
                i = i + 1;
            }
            proof {
                reveal_with_fuel(jv, 2);
                assert(forall|k: int| 0 <= k < items@.len() ==> cell_of_jv(
                    #[trigger] arr_v(items@)[k],
                ) is Some);
                assert(row_of_jv(jv(Json::Arr(*items))) matches Some(row) && row =~= out@);
            }
            Some(out)
        },
        _ => None,
    }
}

/// The board grid this JSON value reads as.
pub fn board_from_json(j: &Json) -> (r: Option<Vec<Vec<Stone>>>)
    ensures
        match r {
            Some(b) => board_of_jv(j@) == Some(crate::types::board_v(b@)),
            None => board_of_jv(j@) is None,
        },
{
    match j {
        Json::Arr(items) => {
            let mut out: Vec<Vec<Stone>> = Vec::new();
            let n = items.len();
            let mut i: usize = 0;
            while i < n
                invariant
                    *j == Json::Arr(*items),
                    n == items@.len(),
                    0 <= i <= n,
                    out@.len() == i,
                    forall|k: int| 0 <= k < i ==> row_of_jv(#[trigger] arr_v(items@)[k]) == Some(
                        out@[k]@,
                    ),
                decreases n - i,
            {
                match row_from_json(&items[i]) {
                    Some(row) => {
                        out.push(row);
                    },
                    None => {
                        proof {
                            reveal_with_fuel(jv, 2);
                            assert(row_of_jv(arr_v(items@)[i as int]) is None);
                            assert(!(forall|k: int|
                                0 <= k < arr_v(items@).len() ==> row_of_jv(
                                    #[trigger] arr_v(items@)[k],
                                ) is Some)) by {
                                assert(0 <= (i as int) < arr_v(items@).len() && row_of_jv(
                                    arr_v(items@)[i as int],
                                ) is None);
                            }
                            assert(board_of_jv(j@) is None);
                        }
                        return None;
                    },
                }
                i = i + 1;
            }
            proof {
                reveal_with_fuel(jv, 2);
                assert(forall|k: int| 0 <= k < items@.len() ==> row_of_jv(
                    #[trigger] arr_v(items@)[k],
                ) is Some);
                assert(board_of_jv(jv(Json::Arr(*items))) matches Some(b) && b =~= crate::types::board_v(out@));
            }
            Some(out)
        },
        _ => None,
    }
}

/// The room summary this JSON value reads as.
pub fn room_from_json(j: &Json) -> (r: Option<Room>)
    ensures
        match r {
            Some(room) => room_of_jv(j@) == Some(room@),
            None => room_of_jv(j@) is None,
        },
{
    match j {
        Json::Obj(fields) => {
            let id = get_str_field(fields, "id");
            let name = get_str_field(fields, "name");
            let owner = get_str_field(fields, "owner");
            let users = match obj_get(fields, "users") {
                Some(v) => strings_from_json(v),
                None => None,
            };
            let conf = match obj_get(fields, "conf") {
                Some(v) => conf_from_json(v),
                None => None,
            };
            match (id, name, owner, users, conf) {
                (Some(id), Some(name), Some(owner), Some(users), Some(conf)) => Some(
                    Room { id, name, owner, users, conf },
                ),
                _ => None,
            }
        },
        _ => None,
    }
}

/// The command this document reads as; anything else is a `ParseError`.
pub fn command_from_json(j: &Json) -> (r: Result<Command, ParseError>)
    ensures
        match r {
            Ok(c) => cmd_of_jv(j@) == Some(c@),
            Err(_) => cmd_of_jv(j@) is None,
        },
{
    let fields = match j {
        Json::Obj(fields) => fields,
        _ => {
            return Err(ParseError);
        },
    };
    let t = match get_str_field(fields, "type") {
        Some(t) => t,
        None => {
            return Err(ParseError);
        },
    };
    if str_eq(t.as_str(), "connect") {
        match get_str_field(fields, "invite") {
            Some(invite) => Ok(Command::Connect { invite }),
            None => Err(ParseError),
        }
    } else if str_eq(t.as_str(), "move") {
        let start = match obj_get(fields, "start") {
            Some(v) => axial_from_json(v),
            None => None,
        };
        let end = match obj_get(fields, "end") {
            Some(v) => axial_from_json(v),
            None => None,
        };
        let dir = match obj_get(fields, "dir") {
            Some(v) => axial_from_json(v),
            None => None,
        };
        match (start, end, dir) {
            (Some(start), Some(end), Some(dir)) => Ok(Command::Move { start, end, dir }),
            _ => Err(ParseError),
        }
    } else if str_eq(t.as_str(), "chat") {
        match get_str_field(fields, "content") {
            Some(content) => Ok(Command::Chat { content }),
            None => Err(ParseError),
        }
    } else if str_eq(t.as_str(), "conf") {
        let conf = match obj_get(fields, "conf") {
            Some(v) => conf_from_json(v),
            None => None,
        };
        match conf {
            Some(conf) => Ok(Command::Conf { conf }),
            None => Err(ParseError),
        }
    } else if str_eq(t.as_str(), "start") {
        Ok(Command::Start {  })
    } else if str_eq(t.as_str(), "ban") {
        match get_str_field(fields, "user") {
            Some(user) => Ok(Command::Ban { user }),
            None => Err(ParseError),
        }
    } else if str_eq(t.as_str(), "gg") {
        Ok(Command::Gg {  })
    } else {
        Err(ParseError)
    }
}

/// Parses one raw client message. Exactly the texts that are JSON and read
/// as a command succeed; everything else is a `ParseError` and the single
/// message is rejected.
pub fn parse_command(msg: &str) -> (r: Result<Command, ParseError>)
    ensures
        match r {
            Ok(c) => cmd_of_text(msg@) == Some(c@),
            Err(_) => cmd_of_text(msg@) is None,
        },
{
    match json_from_text(msg) {
        Some(j) => command_from_json(&j),
        None => Err(ParseError),
    }
}

// ---------------------------------------------------------------------------
// Events.

/// A server-to-client broadcast message.
#[derive(Clone, Debug, PartialEq)]
pub enum Event {
    Connected { room: Room },
    Started { board: Vec<Vec<Stone>>, black: UserId, white: UserId, turn: String },
    Entered { user: UserId },
    Error { message: String },
    Moved { player: String, start: AxialCord, end: AxialCord, dir: AxialCord },
    Chated { user: UserId, content: String },
    Confed { conf: RoomConf },
    Left { user: UserId },
    Ended { loser: UserId, color: String, cause: EndedCause },
    Banned { user: UserId },
}

/// Model of an `Event`.
pub enum EventV {
    Connected { room: RoomV },
    Started { board: Seq<Seq<Stone>>, black: Seq<char>, white: Seq<char>, turn: Seq<char> },
    Entered { user: Seq<char> },
    Error { message: Seq<char> },
    Moved { player: Seq<char>, start: AxialCord, end: AxialCord, dir: AxialCord },
    Chated { user: Seq<char>, content: Seq<char> },
    Confed { conf: RoomConfV },
    Left { user: Seq<char> },
    Ended { loser: Seq<char>, color: Seq<char>, cause: EndedCause },
    Banned { user: Seq<char> },
}

impl View for Event {
    type V = EventV;

    open spec fn view(&self) -> EventV {
        match self {
            Event::Connected { room } => EventV::Connected { room: room@ },
            Event::Started { board, black, white, turn } => EventV::Started {
                board: crate::types::board_v(board@),
                black: black@,
                white: white@,
                turn: turn@,
            },
            Event::Entered { user } => EventV::Entered { user: user@ },
            Event::Error { message } => EventV::Error { message: message@ },
            Event::Moved { player, start, end, dir } => EventV::Moved {
                player: player@,
                start: *start,
                end: *end,
                dir: *dir,
            },
            Event::Chated { user, content } => EventV::Chated { user: user@, content: content@ },
            Event::Confed { conf } => EventV::Confed { conf: conf@ },
            Event::Left { user } => EventV::Left { user: user@ },
            Event::Ended { loser, color, cause } => EventV::Ended {
                loser: loser@,
                color: color@,
                cause: *cause,
            },
            Event::Banned { user } => EventV::Banned { user: user@ },
        }
    }
}

/// The document an event prints as: its lowercase discriminant under
/// `type`, then the variant's fields.
pub open spec fn evt_jv(e: EventV) -> JsonV {
    match e {
        EventV::Connected { room } => JsonV::Obj(
            seq![("type"@, JsonV::Str("connected"@)), ("room"@, room_jv(room))],
        ),
        EventV::Started { board, black, white, turn } => JsonV::Obj(
            seq![
                ("type"@, JsonV::Str("started"@)),
                ("board"@, board_jv(board)),
                ("black"@, JsonV::Str(black)),
                ("white"@, JsonV::Str(white)),
                ("turn"@, JsonV::Str(turn)),
            ],
        ),
        EventV::Entered { user } => JsonV::Obj(
            seq![("type"@, JsonV::Str("entered"@)), ("user"@, JsonV::Str(user))],
        ),
        EventV::Error { message } => JsonV::Obj(
            seq![("type"@, JsonV::Str("error"@)), ("message"@, JsonV::Str(message))],
        ),
        EventV::Moved { player, start, end, dir } => JsonV::Obj(
            seq![
                ("type"@, JsonV::Str("moved"@)),
                ("player"@, JsonV::Str(player)),
                ("start"@, axial_jv(start)),
                ("end"@, axial_jv(end)),
                ("dir"@, axial_jv(dir)),
            ],
        ),
        EventV::Chated { user, content } => JsonV::Obj(
            seq![
                ("type"@, JsonV::Str("chated"@)),
                ("user"@, JsonV::Str(user)),
                ("content"@, JsonV::Str(content)),
            ],
        ),
        EventV::Confed { conf } => JsonV::Obj(
            seq![("type"@, JsonV::Str("confed"@)), ("conf"@, conf_jv(conf))],
        ),
        EventV::Left { user } => JsonV::Obj(
            seq![("type"@, JsonV::Str("left"@)), ("user"@, JsonV::Str(user))],
        ),
        EventV::Ended { loser, color, cause } => JsonV::Obj(
            seq![
                ("type"@, JsonV::Str("ended"@)),
                ("loser"@, JsonV::Str(loser)),
                ("color"@, JsonV::Str(color)),
                ("cause"@, JsonV::Str(cause_str(cause))),
            ],
        ),
        EventV::Banned { user } => JsonV::Obj(
            seq![("type"@, JsonV::Str("banned"@)), ("user"@, JsonV::Str(user))],
        ),
    }
}

/// The event a document reads as, tag-driven like commands.
pub open spec fn evt_of_jv(j: JsonV) -> Option<EventV> {
    match fields_of(j) {
        Some(fs) => match field_str(fs, "type"@) {
            Some(t) => if t == "connected"@ {
                match jget(fs, "room"@) {
                    Some(v) => match room_of_jv(v) {
                        Some(room) => Some(EventV::Connected { room }),
                        None => None,
                    },
                    None => None,
                }
            } else if t == "started"@ {
                let board = match jget(fs, "board"@) {
                    Some(v) => board_of_jv(v),
                    None => None,
                };
                match (board, field_str(fs, "black"@), field_str(fs, "white"@), field_str(
                    fs,
                    "turn"@,
                )) {
                    (Some(board), Some(black), Some(white), Some(turn)) => Some(
                        EventV::Started { board, black, white, turn },
                    ),
                    _ => None,
                }
            } else if t == "entered"@ {
                match field_str(fs, "user"@) {
                    Some(user) => Some(EventV::Entered { user }),
                    None => None,
                }
            } else if t == "error"@ {
                match field_str(fs, "message"@) {
                    Some(message) => Some(EventV::Error { message }),
                    None => None,
                }
            } else if t == "moved"@ {
                let start = match jget(fs, "start"@) {
                    Some(v) => axial_of_jv(v),
                    None => None,
                };
                let end = match jget(fs, "end"@) {
                    Some(v) => axial_of_jv(v),
                    None => None,
                };
                let dir = match jget(fs, "dir"@) {
                    Some(v) => axial_of_jv(v),
                    None => None,
                };
                match (field_str(fs, "player"@), start, end, dir) {
                    (Some(player), Some(start), Some(end), Some(dir)) => Some(
                        EventV::Moved { player, start, end, dir },
                    ),
                    _ => None,
                }
            } else if t == "chated"@ {
                match (field_str(fs, "user"@), field_str(fs, "content"@)) {
                    (Some(user), Some(content)) => Some(EventV::Chated { user, content }),
                    _ => None,
                }
            } else if t == "confed"@ {
                match jget(fs, "conf"@) {
                    Some(v) => match conf_of_jv(v) {
                        Some(conf) => Some(EventV::Confed { conf }),
                        None => None,
                    },
                    None => None,
                }
            } else if t == "left"@ {
                match field_str(fs, "user"@) {
                    Some(user) => Some(EventV::Left { user }),
                    None => None,
                }
            } else if t == "ended"@ {
                let cause = match field_str(fs, "cause"@) {
                    Some(s) => cause_of_str(s),
                    None => None,
                };
                match (field_str(fs, "loser"@), field_str(fs, "color"@), cause) {
                    (Some(loser), Some(color), Some(cause)) => Some(
                        EventV::Ended { loser, color, cause },
                    ),
                    _ => None,
                }
            } else if t == "banned"@ {
                match field_str(fs, "user"@) {
                    Some(user) => Some(EventV::Banned { user }),
                    None => None,
                }
            } else {
                None
            },
            None => None,
        },
        None => None,
    }
}

/// The event a piece of wire text carries, if it is JSON and reads as one.
pub open spec fn evt_of_text(text: Seq<char>) -> Option<EventV> {
    match json_of(text) {
        Some(j) => evt_of_jv(j),
        None => None,
    }
}

/// The document this event prints as.
pub fn event_to_json(e: &Event) -> (r: Json)
    ensures
        r@ == evt_jv(e@),
{
    match e {
        Event::Connected { room } => {
            let mut fields: Vec<(String, Json)> = Vec::new();
            fields.push((String::from_str("type"), jstr("connected")));
            fields.push((String::from_str("room"), room_to_json(room)));
            let j = Json::Obj(fields);
            proof {
                reveal_with_fuel(jv, 2);
                let target = evt_jv(e@);
                assert(obj_v(fields@) =~= target->Obj_0);
                assert(j@ == target);
            }
            j
        },
        Event::Started { board, black, white, turn } => {
            let mut fields: Vec<(String, Json)> = Vec::new();
            fields.push((String::from_str("type"), jstr("started")));
            fields.push((String::from_str("board"), board_to_json(board)));
            fields.push((String::from_str("black"), jstr_of(black)));
            fields.push((String::from_str("white"), jstr_of(white)));
            fields.push((String::from_str("turn"), jstr_of(turn)));
            let j = Json::Obj(fields);
            proof {
                reveal_with_fuel(jv, 2);
                let target = evt_jv(e@);
                assert(obj_v(fields@) =~= target->Obj_0);
                assert(j@ == target);
            }
            j
        },
        Event::Entered { user } => {
            let mut fields: Vec<(String, Json)> = Vec::new();
            fields.push((String::from_str("type"), jstr("entered")));
            fields.push((String::from_str("user"), jstr_of(user)));
            let j = Json::Obj(fields);
            proof {
                reveal_with_fuel(jv, 2);
                let target = evt_jv(e@);
                assert(obj_v(fields@) =~= target->Obj_0);
                assert(j@ == target);
            }
            j
        },
        Event::Error { message } => {
            let mut fields: Vec<(String, Json)> = Vec::new();
            fields.push((String::from_str("type"), jstr("error")));
            fields.push((String::from_str("message"), jstr_of(message)));
            let j = Json::Obj(fields);
            proof {
                reveal_with_fuel(jv, 2);
                let target = evt_jv(e@);
                assert(obj_v(fields@) =~= target->Obj_0);
                assert(j@ == target);
            }
            j
        },
        Event::Moved { player, start, end, dir } => {
            let mut fields: Vec<(String, Json)> = Vec::new();
            fields.push((String::from_str("type"), jstr("moved")));
            fields.push((String::from_str("player"), jstr_of(player)));
            fields.push((String::from_str("start"), axial_to_json(start)));
            fields.push((String::from_str("end"), axial_to_json(end)));
            fields.push((String::from_str("dir"), axial_to_json(dir)));
            let j = Json::Obj(fields);
            proof {
                reveal_with_fuel(jv, 2);
                let target = evt_jv(e@);
                assert(obj_v(fields@) =~= target->Obj_0);
                assert(j@ == target);
            }
            j
        },
        Event::Chated { user, content } => {
            let mut fields: Vec<(String, Json)> = Vec::new();
            fields.push((String::from_str("type"), jstr("chated")));
            fields.push((String::from_str("user"), jstr_of(user)));
            fields.push((String::from_str("content"), jstr_of(content)));
            let j = Json::Obj(fields);
            proof {
                reveal_with_fuel(jv, 2);
                let target = evt_jv(e@);
                assert(obj_v(fields@) =~= target->Obj_0);
                assert(j@ == target);
            }
            j
        },
        Event::Confed { conf } => {
            let mut fields: Vec<(String, Json)> = Vec::new();
            fields.push((String::from_str("type"), jstr("confed")));
            fields.push((String::from_str("conf"), conf_to_json(conf)));
            let j = Json::Obj(fields);
            proof {
                reveal_with_fuel(jv, 2);
                let target = evt_jv(e@);
                assert(obj_v(fields@) =~= target->Obj_0);
                assert(j@ == target);
            }
            j
        },
        Event::Left { user } => {
            let mut fields: Vec<(String, Json)> = Vec::new();
            fields.push((String::from_str("type"), jstr("left")));
            fields.push((String::from_str("user"), jstr_of(user)));
            let j = Json::Obj(fields);
            proof {
                reveal_with_fuel(jv, 2);
                let target = evt_jv(e@);
                assert(obj_v(fields@) =~= target->Obj_0);
                assert(j@ == target);
            }
            j
        },
        Event::Ended { loser, color, cause } => {
            let mut fields: Vec<(String, Json)> = Vec::new();
            fields.push((String::from_str("type"), jstr("ended")));
            fields.push((String::from_str("loser"), jstr_of(loser)));
            fields.push((String::from_str("color"), jstr_of(color)));
            fields.push((String::from_str("cause"), Json::Str(cause.encode())));
            let j = Json::Obj(fields);
            proof {
                reveal_with_fuel(jv, 2);
                let target = evt_jv(e@);
                assert(obj_v(fields@) =~= target->Obj_0);
                assert(j@ == target);
            }
            j
        },
        Event::Banned { user } => {
            let mut fields: Vec<(String, Json)> = Vec::new();
            fields.push((String::from_str("type"), jstr("banned")));
            fields.push((String::from_str("user"), jstr_of(user)));
            let j = Json::Obj(fields);
            proof {
                reveal_with_fuel(jv, 2);
                let target = evt_jv(e@);
                assert(obj_v(fields@) =~= target->Obj_0);
                assert(j@ == target);
            }
            j
        },
    }
}

/// The event this document reads as; anything else is a `ParseError`.
pub fn event_from_json(j: &Json) -> (r: Result<Event, ParseError>)
    ensures
        match r {
            Ok(e) => evt_of_jv(j@) == Some(e@),
            Err(_) => evt_of_jv(j@) is None,
        },
{
    let fields = match j {
        Json::Obj(fields) => fields,
        _ => {
            return Err(ParseError);
        },
    };
    let t = match get_str_field(fields, "type") {
        Some(t) => t,
        None => {
            return Err(ParseError);
        },
    };
    if str_eq(t.as_str(), "connected") {
        let room = match obj_get(fields, "room") {
            Some(v) => room_from_json(v),
            None => None,
        };
        match room {
            Some(room) => Ok(Event::Connected { room }),
            None => Err(ParseError),
        }
    } else if str_eq(t.as_str(), "started") {
        let board = match obj_get(fields, "board") {
            Some(v) => board_from_json(v),
            None => None,
        };
        let black = get_str_field(fields, "black");
        let white = get_str_field(fields, "white");
        let turn = get_str_field(fields, "turn");
        match (board, black, white, turn) {
            (Some(board), Some(black), Some(white), Some(turn)) => Ok(
                Event::Started { board, black, white, turn },
            ),
            _ => Err(ParseError),
        }
    } else if str_eq(t.as_str(), "entered") {
        match get_str_field(fields, "user") {
            Some(user) => Ok(Event::Entered { user }),
            None => Err(ParseError),
        }
    } else if str_eq(t.as_str(), "error") {
        match get_str_field(fields, "message") {
            Some(message) => Ok(Event::Error { message }),
            None => Err(ParseError),
        }
    } else if str_eq(t.as_str(), "moved") {
        let player = get_str_field(fields, "player");
        let start = match obj_get(fields, "start") {
            Some(v) => axial_from_json(v),
            None => None,
        };
        let end = match obj_get(fields, "end") {
            Some(v) => axial_from_json(v),
            None => None,
        };
        let dir = match obj_get(fields, "dir") {
            Some(v) => axial_from_json(v),
            None => None,
        };
        match (player, start, end, dir) {
            (Some(player), Some(start), Some(end), Some(dir)) => Ok(
                Event::Moved { player, start, end, dir },
            ),
            _ => Err(ParseError),
        }
    } else if str_eq(t.as_str(), "chated") {
        match (get_str_field(fields, "user"), get_str_field(fields, "content")) {
            (Some(user), Some(content)) => Ok(Event::Chated { user, content }),
            _ => Err(ParseError),
        }
    } else if str_eq(t.as_str(), "confed") {
        let conf = match obj_get(fields, "conf") {
            Some(v) => conf_from_json(v),
            None => None,
        };
        match conf {
            Some(conf) => Ok(Event::Confed { conf }),
            None => Err(ParseError),
        }
    } else if str_eq(t.as_str(), "left") {
        match get_str_field(fields, "user") {
            Some(user) => Ok(Event::Left { user }),
            None => Err(ParseError),
        }
    } else if str_eq(t.as_str(), "ended") {
        let cause = match get_str_field(fields, "cause") {
            Some(s) => match EndedCause::decode(s.as_str()) {
                Ok(c) => Some(c),
                Err(_) => None,
            },
            None => None,
        };
        match (get_str_field(fields, "loser"), get_str_field(fields, "color"), cause) {
            (Some(loser), Some(color), Some(cause)) => Ok(Event::Ended { loser, color, cause }),
            _ => Err(ParseError),
        }
    } else if str_eq(t.as_str(), "banned") {
        match get_str_field(fields, "user") {
            Some(user) => Ok(Event::Banned { user }),
            None => Err(ParseError),
        }
    } else {
        Err(ParseError)
    }
}

/// Decodes one encoded event with the same schema it was encoded under.
pub fn decode_event(msg: &str) -> (r: Result<Event, ParseError>)
    ensures
        match r {
            Ok(e) => evt_of_text(msg@) == Some(e@),
            Err(_) => evt_of_text(msg@) is None,
        },
{
    match json_from_text(msg) {
        Some(j) => event_from_json(&j),
        None => Err(ParseError),
    }
}

/// A copy of one board row.
fn clone_row(row: &Vec<Stone>) -> (r: Vec<Stone>)
    ensures
        r@ == row@,
{
    let mut out: Vec<Stone> = Vec::new();
    let n = row.len();
    let mut i: usize = 0;
    while i < n
        invariant
            n == row@.len(),
            0 <= i <= n,
            out@ =~= row@.take(i as int),
        decreases n - i,
    {
        out.push(row[i]);
        i = i + 1;
    }
    proof {
        assert(out@ =~= row@);
    }
    out
}

/// A copy of the whole board grid.
fn clone_board(board: &Vec<Vec<Stone>>) -> (r: Vec<Vec<Stone>>)
    ensures
        crate::types::board_v(r@) == crate::types::board_v(board@),
{
    let mut out: Vec<Vec<Stone>> = Vec::new();
    let n = board.len();
    let mut i: usize = 0;
    while i < n
        invariant
            n == board@.len(),
            0 <= i <= n,
            out@.len() == i,
            forall|k: int| 0 <= k < i ==> #[trigger] out@[k]@ == board@[k]@,
        decreases n - i,
    {
        out.push(clone_row(&board[i]));
        i = i + 1;
    }
    proof {
        assert(crate::types::board_v(out@) =~= crate::types::board_v(board@));
    }
    out
}

impl Event {
    /// The `Started` event for a running game: the engine's raw row-major
    /// grid, the two assigned players, and the side that holds the move as
    /// its wire name.
    pub fn game_to_started(game: &crate::types::Game) -> (r: Event)
        ensures
            r@ == (EventV::Started {
                board: game@.board,
                black: game@.black,
                white: game@.white,
                turn: game.turn.spec_name(),
            }),
    {
        Event::Started {
            board: clone_board(&game.board),
            black: game.black.clone(),
            white: game.white.clone(),
            turn: game.turn.name(),
        }
    }
}

// ---------------------------------------------------------------------------
// Round trips.

/// The lengths and leading characters of every wire literal, so that
/// distinct discriminants, keys and cell names can be told apart.
#[verifier::rlimit(50)]
pub proof fn lemma_wire_literals()
    ensures
        "type"@.len() == 4 && "type"@[0] == 't' && "type"@[1] == 'y',
        "invite"@.len() == 6 && "invite"@[0] == 'i' && "invite"@[1] == 'n',
        "start"@.len() == 5 && "start"@[0] == 's' && "start"@[1] == 't',
        "end"@.len() == 3 && "end"@[0] == 'e' && "end"@[1] == 'n',
        "dir"@.len() == 3 && "dir"@[0] == 'd' && "dir"@[1] == 'i',
        "content"@.len() == 7 && "content"@[0] == 'c' && "content"@[1] == 'o',
        "conf"@.len() == 4 && "conf"@[0] == 'c' && "conf"@[1] == 'o',
        "user"@.len() == 4 && "user"@[0] == 'u' && "user"@[1] == 's',
        "room"@.len() == 4 && "room"@[0] == 'r' && "room"@[1] == 'o',
        "board"@.len() == 5 && "board"@[0] == 'b' && "board"@[1] == 'o',
        "black"@.len() == 5 && "black"@[0] == 'b' && "black"@[1] == 'l',
        "white"@.len() == 5 && "white"@[0] == 'w' && "white"@[1] == 'h',
        "turn"@.len() == 4 && "turn"@[0] == 't' && "turn"@[1] == 'u',
        "message"@.len() == 7 && "message"@[0] == 'm' && "message"@[1] == 'e',
        "player"@.len() == 6 && "player"@[0] == 'p' && "player"@[1] == 'l',
        "loser"@.len() == 5 && "loser"@[0] == 'l' && "loser"@[1] == 'o',
        "color"@.len() == 5 && "color"@[0] == 'c' && "color"@[1] == 'o',
        "cause"@.len() == 5 && "cause"@[0] == 'c' && "cause"@[1] == 'a',
        "x"@.len() == 1 && "x"@[0] == 'x',
        "y"@.len() == 1 && "y"@[0] == 'y',
        "id"@.len() == 2 && "id"@[0] == 'i' && "id"@[1] == 'd',
        "name"@.len() == 4 && "name"@[0] == 'n' && "name"@[1] == 'a',
        "owner"@.len() == 5 && "owner"@[0] == 'o' && "owner"@[1] == 'w',
        "users"@.len() == 5 && "users"@[0] == 'u' && "users"@[1] == 's',
        "max_users"@.len() == 9 && "max_users"@[0] == 'm' && "max_users"@[1] == 'a',
        "observable"@.len() == 10 && "observable"@[0] == 'o' && "observable"@[1] == 'b',
        "connect"@.len() == 7 && "connect"@[0] == 'c' && "connect"@[1] == 'o',
        "move"@.len() == 4 && "move"@[0] == 'm' && "move"@[1] == 'o',
        "chat"@.len() == 4 && "chat"@[0] == 'c' && "chat"@[1] == 'h',
        "ban"@.len() == 3 && "ban"@[0] == 'b' && "ban"@[1] == 'a',
        "gg"@.len() == 2 && "gg"@[0] == 'g' && "gg"@[1] == 'g',
        "connected"@.len() == 9 && "connected"@[0] == 'c' && "connected"@[1] == 'o',
        "started"@.len() == 7 && "started"@[0] == 's' && "started"@[1] == 't',
        "entered"@.len() == 7 && "entered"@[0] == 'e' && "entered"@[1] == 'n',
        "error"@.len() == 5 && "error"@[0] == 'e' && "error"@[1] == 'r',
        "moved"@.len() == 5 && "moved"@[0] == 'm' && "moved"@[1] == 'o',
        "chated"@.len() == 6 && "chated"@[0] == 'c' && "chated"@[1] == 'h',
        "confed"@.len() == 6 && "confed"@[0] == 'c' && "confed"@[1] == 'o',
        "left"@.len() == 4 && "left"@[0] == 'l' && "left"@[1] == 'e',
        "ended"@.len() == 5 && "ended"@[0] == 'e' && "ended"@[1] == 'n',
        "banned"@.len() == 6 && "banned"@[0] == 'b' && "banned"@[1] == 'a',
        "blank"@.len() == 5 && "blank"@[0] == 'b' && "blank"@[1] == 'l',
        "blank"@[3] == 'n' && "black"@[3] == 'c',
{
    reveal_strlit("type");
    reveal_strlit("invite");
    reveal_strlit("start");
    reveal_strlit("end");
    reveal_strlit("dir");
    reveal_strlit("content");
    reveal_strlit("conf");
    reveal_strlit("user");
    reveal_strlit("room");
    reveal_strlit("board");
    reveal_strlit("black");
    reveal_strlit("white");
    reveal_strlit("turn");
    reveal_strlit("message");
    reveal_strlit("player");
    reveal_strlit("loser");
    reveal_strlit("color");
    reveal_strlit("cause");
    reveal_strlit("x");
    reveal_strlit("y");
    reveal_strlit("id");
    reveal_strlit("name");
    reveal_strlit("owner");
    reveal_strlit("users");
    reveal_strlit("max_users");
    reveal_strlit("observable");
    reveal_strlit("connect");
    reveal_strlit("move");
    reveal_strlit("chat");
    reveal_strlit("ban");
    reveal_strlit("gg");
    reveal_strlit("connected");
    reveal_strlit("started");
    reveal_strlit("entered");
    reveal_strlit("error");
    reveal_strlit("moved");
    reveal_strlit("chated");
    reveal_strlit("confed");
    reveal_strlit("left");
    reveal_strlit("ended");
    reveal_strlit("banned");
    reveal_strlit("blank");
}

/// Every document a command prints as names each object field once.
#[verifier::rlimit(50)]
pub proof fn lemma_cmd_distinct_keys(c: CommandV)
    ensures
        distinct_keys(cmd_jv(c)),
{
    lemma_wire_literals();
    reveal_with_fuel(distinct_keys, 4);
}

/// A printed room summary names each object field once.
#[verifier::rlimit(50)]
pub proof fn lemma_room_distinct_keys(r: RoomV)
    ensures
        distinct_keys(room_jv(r)),
{
    lemma_wire_literals();
    reveal_with_fuel(distinct_keys, 4);
}

/// Every document an event prints as names each object field once.
#[verifier::rlimit(100)]
pub proof fn lemma_evt_distinct_keys(e: EventV)
    ensures
        distinct_keys(evt_jv(e)),
{
    lemma_wire_literals();
    reveal_with_fuel(distinct_keys, 5);
}

/// Reading back a printed coordinate gives the coordinate.
pub proof fn lemma_axial_round_trip(a: AxialCord)
    ensures
        axial_of_jv(axial_jv(a)) == Some(a),
{
    lemma_wire_literals();
    reveal_with_fuel(jget, 4);
}

/// Reading back a printed room configuration gives the configuration.
pub proof fn lemma_conf_round_trip(c: RoomConfV)
    ensures
        conf_of_jv(conf_jv(c)) == Some(c),
{
    lemma_wire_literals();
    reveal_with_fuel(jget, 5);
}

/// Reading back a printed list of strings gives the list.
pub proof fn lemma_strings_round_trip(users: Seq<Seq<char>>)
    ensures
        strings_of_jv(strings_jv(users)) == Some(users),
{
    let items = strings_jv(users)->Arr_0;
    assert(forall|i: int| 0 <= i < items.len() ==> str_of(#[trigger] items[i]) is Some);
    assert(strings_of_jv(strings_jv(users))->Some_0 =~= users);
}

/// Reading back a printed room summary gives the room.
#[verifier::rlimit(50)]
pub proof fn lemma_room_round_trip(r: RoomV)
    ensures
        room_of_jv(room_jv(r)) == Some(r),
{
    lemma_wire_literals();
    reveal_with_fuel(jget, 7);
    lemma_strings_round_trip(r.users);
    lemma_conf_round_trip(r.conf);
}

/// Reading back a printed cell name gives the cell.
pub proof fn lemma_cell_round_trip(s: Stone)
    ensures
        cell_of_jv(JsonV::Str(stone_str(s))) == Some(s),
{
    lemma_wire_literals();
}

/// Reading back a printed board row gives the row.
pub proof fn lemma_row_round_trip(row: Seq<Stone>)
    ensures
        row_of_jv(row_jv(row)) == Some(row),
{
    let items = row_jv(row)->Arr_0;
    assert forall|i: int| 0 <= i < items.len() implies cell_of_jv(#[trigger] items[i]) is Some by {
        lemma_cell_round_trip(row[i]);
    }
    assert forall|i: int| 0 <= i < row.len() implies cell_of_jv(#[trigger] items[i]) == Some(
        row[i],
    ) by {
        lemma_cell_round_trip(row[i]);
    }
    assert(row_of_jv(row_jv(row))->Some_0 =~= row);
}

/// Reading back a printed board grid gives the grid.
pub proof fn lemma_board_round_trip(board: Seq<Seq<Stone>>)
    ensures
        board_of_jv(board_jv(board)) == Some(board),
{
    let rows = board_jv(board)->Arr_0;
    assert forall|i: int| 0 <= i < rows.len() implies row_of_jv(#[trigger] rows[i]) is Some by {
        lemma_row_round_trip(board[i]);
    }
    assert forall|i: int| 0 <= i < board.len() implies row_of_jv(#[trigger] rows[i]) == Some(
        board[i],
    ) by {
        lemma_row_round_trip(board[i]);
    }
    assert(board_of_jv(board_jv(board))->Some_0 =~= board);
}

/// Law: decoding an encoded command recovers an equal command, for every
/// command.
#[verifier::rlimit(100)]
pub proof fn lemma_cmd_round_trip(c: CommandV)
    ensures
        cmd_of_jv(cmd_jv(c)) == Some(c),
{
    lemma_wire_literals();
    reveal_with_fuel(jget, 8);
    match c {
        CommandV::Move { start, end, dir } => {
            lemma_axial_round_trip(start);
            lemma_axial_round_trip(end);
            lemma_axial_round_trip(dir);
        },
        CommandV::Conf { conf } => {
            lemma_conf_round_trip(conf);
        },
        _ => {
        },
    }
}

/// Law: decoding an encoded event recovers an equal event, for every event.
#[verifier::rlimit(100)]
pub proof fn lemma_evt_round_trip(e: EventV)
    ensures
        evt_of_jv(evt_jv(e)) == Some(e),
{
    lemma_wire_literals();
    reveal_with_fuel(jget, 8);
    match e {
        EventV::Connected { room } => {
            lemma_room_round_trip(room);
        },
        EventV::Started { board, .. } => {
            lemma_board_round_trip(board);
        },
        EventV::Moved { start, end, dir, .. } => {
            lemma_axial_round_trip(start);
            lemma_axial_round_trip(end);
            lemma_axial_round_trip(dir);
        },
        EventV::Confed { conf } => {
            lemma_conf_round_trip(conf);
        },
        EventV::Ended { cause, .. } => {
            crate::cause::lemma_cause_round_trip(cause);
        },
        _ => {
        },
    }
}

/// A printed room summary nests its containers at most `d` levels deep,
/// for any budget of three or more.
pub proof fn lemma_room_depth(r: RoomV, d: int)
    requires
        d >= 3,
    ensures
        depth_at_most(room_jv(r), d),
{
    reveal_with_fuel(depth_at_most, 5);
}

/// Every document a command prints as stays far below the depth the JSON
/// parser accepts.
pub proof fn lemma_cmd_depth(c: CommandV)
    ensures
        depth_at_most(cmd_jv(c), 127),
{
    reveal_with_fuel(depth_at_most, 5);
}

/// Every document an event prints as stays far below the depth the JSON
/// parser accepts.
pub proof fn lemma_evt_depth(e: EventV)
    ensures
        depth_at_most(evt_jv(e), 127),
{
    reveal_with_fuel(depth_at_most, 5);
    match e {
        EventV::Connected { room } => {
            lemma_room_depth(room, 126);
        },
        _ => {
        },
    }
}

/// Prints one command as wire text. The text parses back to this command:
/// encoding round-trips.
pub fn encode_command(c: &Command) -> (r: String)
    ensures
        json_of(r@) == Some(cmd_jv(c@)),
        cmd_of_text(r@) == Some(c@),
{
    let j = command_to_json(c);
    proof {
        lemma_cmd_distinct_keys(c@);
        lemma_cmd_depth(c@);
        lemma_cmd_round_trip(c@);
    }
    json_to_text(&j)
}

/// Prints one event as wire text. The text decodes back to this event:
/// encoding round-trips.
pub fn encode_event(e: &Event) -> (r: String)
    ensures
        json_of(r@) == Some(evt_jv(e@)),
        evt_of_text(r@) == Some(e@),
{
    let j = event_to_json(e);
    proof {
        lemma_evt_distinct_keys(e@);
        lemma_evt_depth(e@);
        lemma_evt_round_trip(e@);
    }
    json_to_text(&j)
}

} // verus!
