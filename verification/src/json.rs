//! JSON documents as the agent configs and reel cue files hold them, and the
//! edits and lookups cloche makes on them.
//!
//! Text is parsed by serde_json behind one wrapper (`parse_json`); printing
//! stays with serde in the application. The rest of this module works on the
//! parsed tree. An object keeps its members in a list, in the order the
//! parser handed them over; setting a member replaces the first entry with
//! that key, or adds one at the end.

use vstd::prelude::*;

use crate::strings::str_eq;
use crate::strings::views;

verus! {

/// A JSON number as the parser keeps it: a non-negative integer, a negative
/// integer, or any other number in its written form.
#[derive(Debug, Clone)]
pub enum JsonNumber {
    PosInt(u64),
    NegInt(i64),
    Float(String),
}

/// A parsed JSON document.
#[derive(Debug)]
pub enum JsonValue {
    Null,
    Bool(bool),
    Number(JsonNumber),
    Str(String),
    Array(Vec<JsonValue>),
    Object(Vec<(String, JsonValue)>),
}

/// The mathematical form of a JSON document, strings taken as text.
pub enum Json {
    Null,
    Bool(bool),
    PosInt(u64),
    NegInt(i64),
    Float(Seq<char>),
    Str(Seq<char>),
    Array(Seq<Json>),
    Object(Seq<(Seq<char>, Json)>),
}

/// The view of a document.
pub open spec fn jview(v: JsonValue) -> Json
    decreases v,
{
    match v {
        JsonValue::Null => Json::Null,
        JsonValue::Bool(b) => Json::Bool(b),
        JsonValue::Number(JsonNumber::PosInt(n)) => Json::PosInt(n),
        JsonValue::Number(JsonNumber::NegInt(n)) => Json::NegInt(n),
        JsonValue::Number(JsonNumber::Float(t)) => Json::Float(t@),
        JsonValue::Str(s) => Json::Str(s@),
        JsonValue::Array(items) => Json::Array(items_view(items@)),
        JsonValue::Object(fields) => Json::Object(fields_view(fields@)),
    }
}

/// The views of array items.
pub open spec fn items_view(s: Seq<JsonValue>) -> Seq<Json>
    decreases s,
{
    if s.len() == 0 {
        Seq::empty()
    } else {
        seq![jview(s[0])] + items_view(s.subrange(1, s.len() as int))
    }
}

/// The views of object members.
pub open spec fn fields_view(s: Seq<(String, JsonValue)>) -> Seq<(Seq<char>, Json)>
    decreases s,
{
    if s.len() == 0 {
        Seq::empty()
    } else {
        seq![(s[0].0@, jview(s[0].1))] + fields_view(s.subrange(1, s.len() as int))
    }
}

/// `items_view` keeps length and order.
pub proof fn lemma_items_view(s: Seq<JsonValue>)
    ensures
        items_view(s).len() == s.len(),
        forall|i: int| 0 <= i < s.len() ==> #[trigger] items_view(s)[i] == jview(s[i]),
    decreases s.len(),
{
    if s.len() > 0 {
        let rest = s.subrange(1, s.len() as int);
        lemma_items_view(rest);
        assert forall|i: int| 0 <= i < s.len() implies #[trigger] items_view(s)[i] == jview(s[i]) by {
            if i > 0 {
                assert(rest[i - 1] == s[i]);
            }
        }
    }
}

/// `fields_view` keeps length and order.
pub proof fn lemma_fields_view(s: Seq<(String, JsonValue)>)
    ensures
        fields_view(s).len() == s.len(),
        forall|i: int|
            0 <= i < s.len() ==> #[trigger] fields_view(s)[i] == (s[i].0@, jview(s[i].1)),
    decreases s.len(),
{
    if s.len() > 0 {
        let rest = s.subrange(1, s.len() as int);
        lemma_fields_view(rest);
        assert forall|i: int| 0 <= i < s.len() implies #[trigger] fields_view(s)[i] == (
            s[i].0@,
            jview(s[i].1),
        ) by {
            if i > 0 {
                assert(rest[i - 1] == s[i]);
            }
        }
    }
}

/// Two member lists with the same length and the same member views at every
/// index have the same view.
pub proof fn lemma_fields_view_ext(a: Seq<(String, JsonValue)>, b: Seq<(Seq<char>, Json)>)
    requires
        a.len() == b.len(),
        forall|i: int| 0 <= i < a.len() ==> (a[i].0@, jview(a[i].1)) == #[trigger] b[i],
    ensures
        fields_view(a) == b,
{
    lemma_fields_view(a);
    assert(fields_view(a) =~= b);
}

// ---------------------------------------------------------------------------
// Object members

/// `value.get(key)` on an object's members: the value of the first member
/// named `key`.
pub open spec fn field(fields: Seq<(Seq<char>, Json)>, key: Seq<char>) -> Option<Json>
    decreases fields.len(),
{
    if fields.len() == 0 {
        None
    } else if fields[0].0 == key {
        Some(fields[0].1)
    } else {
        field(fields.drop_first(), key)
    }
}

/// `value.get(key)`: a member of an object; nothing for any other value.
pub open spec fn get(v: Json, key: Seq<char>) -> Option<Json> {
    match v {
        Json::Object(fields) => field(fields, key),
        _ => None,
    }
}

/// Setting a member (`value[key] = x`): the first member named `key` takes
/// the value, or the member is added at the end.
pub open spec fn put(fields: Seq<(Seq<char>, Json)>, key: Seq<char>, value: Json) -> Seq<
    (Seq<char>, Json),
>
    decreases fields.len(),
{
    if fields.len() == 0 {
        seq![(key, value)]
    } else if fields[0].0 == key {
        seq![(key, value)] + fields.drop_first()
    } else {
        seq![fields[0]] + put(fields.drop_first(), key, value)
    }
}

/// The position of the first member named `key`.
pub open spec fn key_index(fields: Seq<(Seq<char>, Json)>, key: Seq<char>) -> Option<int>
    decreases fields.len(),
{
    if fields.len() == 0 {
        None
    } else if fields[0].0 == key {
        Some(0)
    } else {
        match key_index(fields.drop_first(), key) {
            Some(i) => Some(i + 1),
            None => None,
        }
    }
}

/// What `key_index`, `field` and `put` say about the first member with a key.
pub proof fn lemma_key_index(fields: Seq<(Seq<char>, Json)>, key: Seq<char>)
    ensures
        key_index(fields, key) matches Some(i) ==> {
            &&& 0 <= i < fields.len()
            &&& fields[i].0 == key
            &&& forall|j: int| 0 <= j < i ==> fields[j].0 != key
            &&& field(fields, key) == Some(fields[i].1)
            &&& forall|v: Json| put(fields, key, v) == fields.update(i, (key, v))
        },
        key_index(fields, key) is None ==> {
            &&& forall|j: int| 0 <= j < fields.len() ==> fields[j].0 != key
            &&& field(fields, key) is None
            &&& forall|v: Json| put(fields, key, v) == fields.push((key, v))
        },
    decreases fields.len(),
{
    if fields.len() > 0 {
        let rest = fields.drop_first();
        lemma_key_index(rest, key);
        if fields[0].0 == key {
            assert forall|v: Json| put(fields, key, v) == fields.update(0, (key, v)) by {
                assert(put(fields, key, v) =~= fields.update(0, (key, v)));
            }
        } else {
            match key_index(rest, key) {
                Some(i) => {
                    assert forall|j: int| 0 <= j < i + 1 implies fields[j].0 != key by {
                        if j > 0 {
                            assert(fields[j] == rest[j - 1]);
                        }
                    }
                    assert forall|v: Json| put(fields, key, v) == fields.update(i + 1, (key, v)) by {
                        assert(put(fields, key, v) == seq![fields[0]] + put(rest, key, v));
                        assert(put(rest, key, v) == rest.update(i, (key, v)));
                        assert(put(fields, key, v) =~= fields.update(i + 1, (key, v)));
                    }
                },
                None => {
                    assert forall|j: int| 0 <= j < fields.len() implies fields[j].0 != key by {
                        if j > 0 {
                            assert(fields[j] == rest[j - 1]);
                        }
                    }
                    assert forall|v: Json| put(fields, key, v) == fields.push((key, v)) by {
                        assert(put(fields, key, v) == seq![fields[0]] + put(rest, key, v));
                        assert(put(rest, key, v) == rest.push((key, v)));
                        assert(put(fields, key, v) =~= fields.push((key, v)));
                    }
                },
            }
        }
    } else {
        assert forall|v: Json| put(fields, key, v) == fields.push((key, v)) by {
            assert(put(fields, key, v) =~= fields.push((key, v)));
        }
    }
}

/// A member just set reads back.
pub proof fn lemma_put_get(fields: Seq<(Seq<char>, Json)>, key: Seq<char>, value: Json)
    ensures
        field(put(fields, key, value), key) == Some(value),
    decreases fields.len(),
{
    if fields.len() > 0 && fields[0].0 != key {
        lemma_put_get(fields.drop_first(), key, value);
        assert(put(fields, key, value).drop_first() =~= put(fields.drop_first(), key, value));
    }
}

/// Setting one member leaves every other member's value alone.
pub proof fn lemma_put_get_other(
    fields: Seq<(Seq<char>, Json)>,
    key: Seq<char>,
    value: Json,
    other: Seq<char>,
)
    requires
        other != key,
    ensures
        field(put(fields, key, value), other) == field(fields, other),
    decreases fields.len(),
{
    let p = put(fields, key, value);
    if fields.len() > 0 {
        lemma_put_get_other(fields.drop_first(), key, value, other);
        if fields[0].0 == key {
            assert(p.drop_first() =~= fields.drop_first());
            assert(p[0].0 == key);
            assert(field(p, other) == field(p.drop_first(), other));
            assert(field(fields, other) == field(fields.drop_first(), other));
        } else {
            assert(p.drop_first() =~= put(fields.drop_first(), key, value));
            assert(p[0] == fields[0]);
            if fields[0].0 != other {
                assert(field(p, other) == field(p.drop_first(), other));
                assert(field(fields, other) == field(fields.drop_first(), other));
            }
        }
    } else {
        assert(p.drop_first() =~= Seq::<(Seq<char>, Json)>::empty());
        assert(p[0].0 == key);
        assert(field(p, other) == field(p.drop_first(), other));
        assert(field(p.drop_first(), other) is None);
    }
}

/// Setting a member to the value it already has changes nothing.
pub proof fn lemma_put_same(fields: Seq<(Seq<char>, Json)>, key: Seq<char>, value: Json)
    requires
        field(fields, key) == Some(value),
    ensures
        put(fields, key, value) == fields,
    decreases fields.len(),
{
    if fields.len() > 0 {
        if fields[0].0 == key {
            assert(put(fields, key, value) =~= fields);
        } else {
            lemma_put_same(fields.drop_first(), key, value);
            assert(put(fields, key, value) =~= fields);
        }
    }
}

// ---------------------------------------------------------------------------
// Registering the cloche server

/// The members of an object; nothing for any other value.
pub open spec fn members(v: Json) -> Seq<(Seq<char>, Json)> {
    match v {
        Json::Object(fields) => fields,
        _ => Seq::empty(),
    }
}

/// The server entry every client gets: `{"args": ["mcp"], "command": "cloche"}`.
pub open spec fn server_entry() -> Json {
    Json::Object(
        seq![("args"@, Json::Array(seq![Json::Str("mcp"@)])), ("command"@, Json::Str("cloche"@))],
    )
}

/// Whether a value equals the server entry as a JSON value: an object with
/// exactly the members `args: ["mcp"]` and `command: "cloche"`, in any order.
pub open spec fn is_server_entry(v: Json) -> bool {
    &&& v is Object
    &&& members(v).len() == 2
    &&& field(members(v), "args"@) == Some(Json::Array(seq![Json::Str("mcp"@)]))
    &&& field(members(v), "command"@) == Some(Json::Str("cloche"@))
}

/// The object a key path leads to, an empty object standing for any step
/// that is missing or is not an object.
pub open spec fn child_object(v: Json, key: Seq<char>) -> Json {
    match field(members(v), key) {
        Some(c) => if c is Object {
            c
        } else {
            Json::Object(Seq::empty())
        },
        None => Json::Object(Seq::empty()),
    }
}

/// The object at the end of a key path.
pub open spec fn at_path(v: Json, keys: Seq<Seq<char>>) -> Json
    decreases keys.len(),
{
    if keys.len() == 0 {
        Json::Object(members(v))
    } else {
        at_path(child_object(v, keys[0]), keys.drop_first())
    }
}

/// Insert or update `cloche` in the server map at the end of `keys`,
/// creating the objects on the way as needed (a value that is not an object
/// is replaced by one). Also says whether the entry was missing or
/// different.
pub open spec fn upsert(v: Json, keys: Seq<Seq<char>>) -> (Json, bool)
    decreases keys.len(),
{
    let fields = members(v);
    if keys.len() == 0 {
        (
            Json::Object(put(fields, "cloche"@, server_entry())),
            !(field(fields, "cloche"@) matches Some(e) && is_server_entry(e)),
        )
    } else {
        let (child, changed) = upsert(child_object(v, keys[0]), keys.drop_first());
        (Json::Object(put(fields, keys[0], child)), changed)
    }
}

/// Registering twice is registering once: the second run changes nothing
/// and reports no change.
pub proof fn lemma_upsert_idempotent(v: Json, keys: Seq<Seq<char>>)
    ensures
        upsert(upsert(v, keys).0, keys) == (upsert(v, keys).0, false),
    decreases keys.len(),
{
    let fields = members(v);
    let w = upsert(v, keys).0;
    if keys.len() == 0 {
        lemma_put_get(fields, "cloche"@, server_entry());
        let f2 = put(fields, "cloche"@, server_entry());
        lemma_put_same(f2, "cloche"@, server_entry());
        let e = server_entry();
        assert(members(e)[0].0 == "args"@);
        assert(members(e)[1].0 == "command"@);
        reveal_strlit("args");
        reveal_strlit("command");
        assert(members(e).drop_first().drop_first() =~= Seq::<(Seq<char>, Json)>::empty());
        assert(field(members(e), "args"@) == Some(Json::Array(seq![Json::Str("mcp"@)])));
        assert(field(members(e).drop_first(), "command"@) == Some(Json::Str("cloche"@)));
        assert(is_server_entry(e));
    } else {
        let child = child_object(v, keys[0]);
        let new_child = upsert(child, keys.drop_first()).0;
        lemma_upsert_idempotent(child, keys.drop_first());
        lemma_put_get(fields, keys[0], new_child);
        let f2 = put(fields, keys[0], new_child);
        assert(child_object(w, keys[0]) == new_child);
        lemma_put_same(f2, keys[0], new_child);
    }
}

/// After registering, the server map at the end of the path holds the
/// cloche entry, and every other server in it is kept as it was.
pub proof fn lemma_upsert_keeps_servers(v: Json, keys: Seq<Seq<char>>, other: Seq<char>)
    requires
        other != "cloche"@,
    ensures
        field(members(at_path(upsert(v, keys).0, keys)), "cloche"@) == Some(server_entry()),
        field(members(at_path(upsert(v, keys).0, keys)), other) == field(
            members(at_path(v, keys)),
            other,
        ),
    decreases keys.len(),
{
    let fields = members(v);
    if keys.len() == 0 {
        lemma_put_get(fields, "cloche"@, server_entry());
        lemma_put_get_other(fields, "cloche"@, server_entry(), other);
    } else {
        let child = child_object(v, keys[0]);
        let new_child = upsert(child, keys.drop_first()).0;
        lemma_upsert_keeps_servers(child, keys.drop_first(), other);
        lemma_put_get(fields, keys[0], new_child);
        assert(child_object(upsert(v, keys).0, keys[0]) == new_child);
    }
}

/// Registering leaves every top-level member off the path alone.
pub proof fn lemma_upsert_keeps_siblings(v: Json, keys: Seq<Seq<char>>, other: Seq<char>)
    requires
        keys.len() > 0 ==> other != keys[0],
        keys.len() == 0 ==> other != "cloche"@,
    ensures
        field(members(upsert(v, keys).0), other) == field(members(v), other),
{
    let fields = members(v);
    if keys.len() == 0 {
        lemma_put_get_other(fields, "cloche"@, server_entry(), other);
    } else {
        let new_child = upsert(child_object(v, keys[0]), keys.drop_first()).0;
        lemma_put_get_other(fields, keys[0], new_child, other);
    }
}

/// Registering leaves alone every member, off the path, of each map between
/// the top level and the server map: at depth `d` of the path, any member
/// other than the next key `keys[d]` is kept.
pub proof fn lemma_upsert_keeps_path_siblings(v: Json, keys: Seq<Seq<char>>, d: int, other: Seq<char>)
    requires
        0 <= d < keys.len(),
        other != keys[d],
    ensures
        field(members(at_path(upsert(v, keys).0, keys.take(d))), other) == field(
            members(at_path(v, keys.take(d))),
            other,
        ),
    decreases d,
{
    if d == 0 {
        assert(keys.take(0).len() == 0);
        lemma_upsert_keeps_siblings(v, keys, other);
    } else {
        let child = child_object(v, keys[0]);
        let rest = keys.drop_first();
        let new_child = upsert(child, rest).0;
        lemma_put_get(members(v), keys[0], new_child);
        assert(child_object(upsert(v, keys).0, keys[0]) == new_child);
        assert(keys.take(d).drop_first() =~= rest.take(d - 1));
        assert(keys.take(d)[0] == keys[0]);
        assert(rest[d - 1] == keys[d]);
        lemma_upsert_keeps_path_siblings(child, rest, d - 1, other);
    }
}

// ---------------------------------------------------------------------------
// Executable lookups and edits

/// The position of the first member named `key`.
pub fn field_index(fields: &Vec<(String, JsonValue)>, key: &str) -> (r: Option<usize>)
    ensures
        match r {
            Some(i) => key_index(fields_view(fields@), key@) == Some(i as int),
            None => key_index(fields_view(fields@), key@) is None,
        },
{
    proof {
        lemma_fields_view(fields@);
        lemma_key_index(fields_view(fields@), key@);
    }
    let n = fields.len();
    let mut i: usize = 0;
    while i < n
        invariant
            n == fields@.len(),
            fields_view(fields@).len() == n,
            forall|j: int|
                0 <= j < n ==> #[trigger] fields_view(fields@)[j] == (
                    fields@[j].0@,
                    jview(fields@[j].1),
                ),
            i <= n,
            forall|j: int| 0 <= j < i ==> fields@[j].0@ != key@,
            key_index(fields_view(fields@), key@) matches Some(k) ==> {
                &&& 0 <= k < n
                &&& fields_view(fields@)[k].0 == key@
                &&& forall|j: int| 0 <= j < k ==> fields_view(fields@)[j].0 != key@
            },
            key_index(fields_view(fields@), key@) is None ==> forall|j: int|
                0 <= j < n ==> fields_view(fields@)[j].0 != key@,
        decreases n - i,
    {
        if str_eq(fields[i].0.as_str(), key) {
            proof {
                assert(fields_view(fields@)[i as int].0 == key@);
                match key_index(fields_view(fields@), key@) {
                    Some(k) => {
                        if k < i {
                            assert(fields_view(fields@)[k].0 == fields@[k].0@);
                        }
                        if k > i {
                            assert(fields_view(fields@)[i as int].0 != key@);
                        }
                    },
                    None => {},
                }
            }
            return Some(i);
        }
        i = i + 1;
    }
    proof {
        if let Some(k) = key_index(fields_view(fields@), key@) {
            assert(fields_view(fields@)[k].0 == fields@[k].0@);
        }
    }
    None
}

fn is_str(v: &JsonValue, text: &str) -> (r: bool)
    ensures
        r == (jview(*v) == Json::Str(text@)),
{
    match v {
        JsonValue::Str(s) => str_eq(s.as_str(), text),
        JsonValue::Number(JsonNumber::Float(_)) => false,
        _ => false,
    }
}

/// Whether a value equals the server entry.
pub fn is_server_entry_value(v: &JsonValue) -> (r: bool)
    ensures
        r == is_server_entry(jview(*v)),
{
    match v {
        JsonValue::Object(fields) => {
            proof {
                lemma_fields_view(fields@);
                lemma_key_index(fields_view(fields@), "args"@);
                lemma_key_index(fields_view(fields@), "command"@);
            }
            if fields.len() != 2 {
                return false;
            }
            let args_ok = match field_index(fields, "args") {
                Some(i) => match &fields[i].1 {
                    JsonValue::Array(items) => {
                        proof {
                            lemma_items_view(items@);
                            lemma_key_index(fields_view(fields@), "args"@);
                        }
                        let ok = items.len() == 1 && is_str(&items[0], "mcp");
                        proof {
                            if ok {
                                assert(items_view(items@) =~= seq![Json::Str("mcp"@)]);
                            } else if items.len() == 1 {
                                assert(items_view(items@)[0] != Json::Str("mcp"@));
                            }
                        }
                        ok
                    },
                    _ => {
                        proof {
                            lemma_key_index(fields_view(fields@), "args"@);
                        }
                        false
                    },
                },
                None => {
                    proof {
                        lemma_key_index(fields_view(fields@), "args"@);
                    }
                    false
                },
            };
            let command_ok = match field_index(fields, "command") {
                Some(i) => {
                    proof {
                        lemma_key_index(fields_view(fields@), "command"@);
                    }
                    is_str(&fields[i].1, "cloche")
                },
                None => {
                    proof {
                        lemma_key_index(fields_view(fields@), "command"@);
                    }
                    false
                },
            };
            args_ok && command_ok
        },
        _ => false,
    }
}

/// The server entry: `{"args": ["mcp"], "command": "cloche"}`.
pub fn cloche_server_entry() -> (r: JsonValue)
    ensures
        jview(r) == server_entry(),
{
    let mut args: Vec<JsonValue> = Vec::new();
    args.push(JsonValue::Str(String::from_str("mcp")));
    let mut fields: Vec<(String, JsonValue)> = Vec::new();
    fields.push((String::from_str("args"), JsonValue::Array(args)));
    fields.push((String::from_str("command"), JsonValue::Str(String::from_str("cloche"))));
    proof {
        lemma_items_view(args@);
        assert(items_view(args@) =~= seq![Json::Str("mcp"@)]);
        lemma_fields_view_ext(
            fields@,
            seq![("args"@, Json::Array(seq![Json::Str("mcp"@)])), ("command"@, Json::Str("cloche"@))],
        );
    }
    JsonValue::Object(fields)
}

/// Set member `key` of a member list to `value` (the first member with that
/// key, or a new one at the end).
fn set_member(fields: &mut Vec<(String, JsonValue)>, key: &str, value: JsonValue)
    ensures
        fields_view(final(fields)@) == put(fields_view(old(fields)@), key@, jview(value)),
{
    proof {
        lemma_fields_view(old(fields)@);
        lemma_key_index(fields_view(old(fields)@), key@);
    }
    match field_index(fields, key) {
        Some(i) => {
            let (name, _) = fields.remove(i);
            fields.insert(i, (name, value));
            proof {
                lemma_fields_view_ext(
                    fields@,
                    fields_view(old(fields)@).update(i as int, (key@, jview(value))),
                );
            }
        },
        None => {
            fields.push((String::from_str(key), value));
            proof {
                lemma_fields_view_ext(fields@, fields_view(old(fields)@).push((key@, jview(value))));
            }
        },
    }
}

fn upsert_at(doc: JsonValue, keys: &[&str], depth: usize) -> (r: (JsonValue, bool))
    requires
        depth <= keys@.len(),
    ensures
        (jview(r.0), r.1) == upsert(jview(doc), views(keys@).skip(depth as int)),
    decreases keys@.len() - depth,
{
    let ghost path = views(keys@).skip(depth as int);
    let ghost before = jview(doc);
    let mut fields = match doc {
        JsonValue::Object(f) => f,
        _ => Vec::new(),
    };
    proof {
        assert(fields_view(fields@) == members(before));
    }
    if depth == keys.len() {
        let changed = match field_index(&fields, "cloche") {
            Some(i) => {
                proof {
                    lemma_fields_view(fields@);
                    lemma_key_index(fields_view(fields@), "cloche"@);
                }
                !is_server_entry_value(&fields[i].1)
            },
            None => {
                proof {
                    lemma_key_index(fields_view(fields@), "cloche"@);
                }
                true
            },
        };
        set_member(&mut fields, "cloche", cloche_server_entry());
        proof {
            assert(path.len() == 0);
        }
        return (JsonValue::Object(fields), changed);
    }
    let key = keys[depth];
    proof {
        assert(path[0] == key@);
        assert(path.drop_first() =~= views(keys@).skip(depth + 1));
        lemma_fields_view(fields@);
        lemma_key_index(fields_view(fields@), key@);
    }
    match field_index(&fields, key) {
        Some(i) => {
            let (name, child) = fields.remove(i);
            let child = match child {
                JsonValue::Object(f) => JsonValue::Object(f),
                _ => JsonValue::Object(Vec::new()),
            };
            proof {
                assert(jview(child) == child_object(before, key@)) by {
                    lemma_fields_view(Seq::<(String, JsonValue)>::empty());
                }
            }
            let (new_child, changed) = upsert_at(child, keys, depth + 1);
            let ghost new_view = jview(new_child);
            fields.insert(i, (name, new_child));
            proof {
                lemma_fields_view_ext(fields@, members(before).update(i as int, (key@, new_view)));
            }
            (JsonValue::Object(fields), changed)
        },
        None => {
            let empty = JsonValue::Object(Vec::new());
            proof {
                lemma_fields_view(Seq::<(String, JsonValue)>::empty());
                assert(jview(empty) == child_object(before, key@));
            }
            let (new_child, changed) = upsert_at(empty, keys, depth + 1);
            let ghost new_view = jview(new_child);
            fields.push((String::from_str(key), new_child));
            proof {
                lemma_fields_view_ext(fields@, members(before).push((key@, new_view)));
            }
            (JsonValue::Object(fields), changed)
        },
    }
}

/// Insert or update `cloche` inside the server map at `doc[map_keys...]`,
/// creating intermediate objects as needed. Returns the updated document and
/// whether the entry was missing or different.
pub fn upsert_server(doc: JsonValue, map_keys: &[&str]) -> (r: (JsonValue, bool))
    ensures
        (jview(r.0), r.1) == upsert(jview(doc), views(map_keys@)),
{
    proof {
        assert(views(map_keys@).skip(0) =~= views(map_keys@));
    }
    upsert_at(doc, map_keys, 0)
}

// ---------------------------------------------------------------------------
// Reading values

/// `value.get(key)` on a value that may be missing.
pub open spec fn get_in(v: Option<Json>, key: Seq<char>) -> Option<Json> {
    match v {
        Some(x) => get(x, key),
        None => None,
    }
}

/// `as_u64`: the value of a non-negative integer.
pub open spec fn as_u64(v: Option<Json>) -> Option<u64> {
    match v {
        Some(Json::PosInt(n)) => Some(n),
        _ => None,
    }
}

/// `as_str`: the text of a string.
pub open spec fn as_text(v: Option<Json>) -> Option<Seq<char>> {
    match v {
        Some(Json::Str(s)) => Some(s),
        _ => None,
    }
}

/// `as_array`: the items of an array.
pub open spec fn as_items(v: Option<Json>) -> Option<Seq<Json>> {
    match v {
        Some(Json::Array(items)) => Some(items),
        _ => None,
    }
}

/// `value.get(key)`: the member `key` of an object, nothing for any other
/// value or a missing member.
pub fn get_member<'a>(v: &'a JsonValue, key: &str) -> (r: Option<&'a JsonValue>)
    ensures
        match r {
            Some(x) => get(jview(*v), key@) == Some(jview(*x)),
            None => get(jview(*v), key@) is None,
        },
{
    match v {
        JsonValue::Object(fields) => {
            proof {
                lemma_fields_view(fields@);
                lemma_key_index(fields_view(fields@), key@);
            }
            match field_index(fields, key) {
                Some(i) => Some(&fields[i].1),
                None => None,
            }
        },
        _ => None,
    }
}

/// `value.get(key)` on a value that may be missing.
pub fn get_in_value<'a>(v: Option<&'a JsonValue>, key: &str) -> (r: Option<&'a JsonValue>)
    ensures
        match r {
            Some(x) => get_in(opt_view(v), key@) == Some(jview(*x)),
            None => get_in(opt_view(v), key@) is None,
        },
{
    match v {
        Some(x) => get_member(x, key),
        None => None,
    }
}

/// The view of a value that may be missing.
pub open spec fn opt_view(v: Option<&JsonValue>) -> Option<Json> {
    match v {
        Some(x) => Some(jview(*x)),
        None => None,
    }
}

/// `as_u64` on a value that may be missing.
pub fn value_u64(v: Option<&JsonValue>) -> (r: Option<u64>)
    ensures
        r == as_u64(opt_view(v)),
{
    match v {
        Some(JsonValue::Number(JsonNumber::PosInt(n))) => Some(*n),
        _ => None,
    }
}

/// `as_str` on a value that may be missing.
pub fn value_text<'a>(v: Option<&'a JsonValue>) -> (r: Option<&'a str>)
    ensures
        match r {
            Some(s) => as_text(opt_view(v)) == Some(s@),
            None => as_text(opt_view(v)) is None,
        },
{
    match v {
        Some(JsonValue::Str(s)) => Some(s.as_str()),
        _ => None,
    }
}

/// `as_array` on a value that may be missing.
pub fn value_items<'a>(v: Option<&'a JsonValue>) -> (r: Option<&'a Vec<JsonValue>>)
    ensures
        match r {
            Some(items) => as_items(opt_view(v)) == Some(items_view(items@)),
            None => as_items(opt_view(v)) is None,
        },
{
    match v {
        Some(JsonValue::Array(items)) => Some(items),
        _ => None,
    }
}


// ---------------------------------------------------------------------------
// Parsing

/// serde_json's document type, carried opaquely from the parser to the
/// conversion below.
#[verifier::external_type_specification]
#[verifier::external_body]
pub struct ExSerdeJsonValue(serde_json::Value);

/// What serde_json makes of `text` as a document: `None` when the text is not
/// JSON. Objects come back with their members in serde_json's map order.
pub uninterp spec fn parsed_json(text: Seq<char>) -> Option<Json>;

/// serde_json's document, rebuilt variant for variant as a `JsonValue`
/// (numbers as an unsigned, else a signed, else a written-out float).
#[verifier::external_body]
fn from_serde(value: serde_json::Value) -> JsonValue {
    match value {
        serde_json::Value::Null => JsonValue::Null,
        serde_json::Value::Bool(b) => JsonValue::Bool(b),
        serde_json::Value::Number(n) => JsonValue::Number(match (n.as_u64(), n.as_i64()) {
            (Some(u), _) => JsonNumber::PosInt(u),
            (None, Some(i)) => JsonNumber::NegInt(i),
            _ => JsonNumber::Float(n.to_string()),
        }),
        serde_json::Value::String(s) => JsonValue::Str(s),
        serde_json::Value::Array(items) => JsonValue::Array(items.into_iter().map(from_serde).collect()),
        serde_json::Value::Object(map) => JsonValue::Object(map.into_iter().map(|(k, v)| (k, from_serde(v))).collect()),
    }
}

/// `serde_json::from_str::<serde_json::Value>(text)`: the document, or the
/// parser's message when the text is not JSON. Nothing is said of the
/// message's wording.
#[verifier::external_body]
pub fn parse_json(text: &str) -> (r: Result<JsonValue, String>)
    ensures
        match r {
            Ok(v) => parsed_json(text@) == Some(jview(v)),
            Err(_) => parsed_json(text@) is None,
        },
{
    serde_json::from_str::<serde_json::Value>(text).map(from_serde).map_err(|err| err.to_string())
}

/// A file's contents as a document: an absent file reads as an empty object.
pub open spec fn doc_or_empty(text: Option<Seq<char>>) -> Option<Json> {
    match text {
        None => Some(Json::Object(Seq::empty())),
        Some(t) => parsed_json(t),
    }
}

/// Register cloche in a JSON client config at `path` whose contents are
/// `text` (`None` when the file does not exist), under `map_keys`: the
/// updated document and whether anything changed, or the report that the
/// file is not JSON.
pub fn register_json_text(path: &str, text: Option<&str>, map_keys: &[&str]) -> (r: Result<
    (JsonValue, bool),
    String,
>)
    ensures
        match doc_or_empty(
            match text {
                Some(t) => Some(t@),
                None => None,
            },
        ) {
            None => r matches Err(m) && crate::strings::starts_with(
                m@,
                path@ + " is not valid JSON: "@,
            ),
            Some(doc) => r matches Ok(out) && (jview(out.0), out.1) == upsert(doc, views(map_keys@)),
        },
{
    let doc = match text {
        None => JsonValue::Object(Vec::new()),
        Some(t) => match parse_json(t) {
            Ok(v) => v,
            Err(err) => {
                let mut msg = String::new();
                msg.append(path);
                msg.append(" is not valid JSON: ");
                let ghost head = msg@;
                msg.append(err.as_str());
                assert(msg@.subrange(0, head.len() as int) =~= head);
                return Err(msg);
            },
        },
    };
    proof {
        assert(fields_view(Seq::<(String, JsonValue)>::empty()) =~= Seq::empty());
    }
    Ok(upsert_server(doc, map_keys))
}

} // verus!
