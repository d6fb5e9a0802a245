//! What the bot reads out of the answers of the Mojang and Wynncraft web
//! APIs. The answers arrive as JSON documents; `JsonValue` holds one.
use vstd::prelude::*;

use crate::text::same_text;

verus! {

broadcast use vstd::string::group_string_axioms;

/// A JSON value. A number is kept as the text that denotes it; an object
/// is kept as its fields in order.
pub enum JsonValue {
    Null,
    Bool(bool),
    Number(String),
    Text(String),
    Array(Vec<JsonValue>),
    Object(Vec<(String, JsonValue)>),
}

/// The value of the first field named `key`, if there is one.
pub open spec fn field_spec(fields: Seq<(String, JsonValue)>, key: Seq<char>) -> Option<JsonValue>
    decreases fields.len(),
{
    if fields.len() == 0 {
        None
    } else if fields[0].0@ == key {
        Some(fields[0].1)
    } else {
        field_spec(fields.drop_first(), key)
    }
}

/// `value[key]` as serde_json's `Value` answers it: the field of an object
/// with that name, and `Null` where there is none or the value is not an
/// object.
pub open spec fn index_spec(v: JsonValue, key: Seq<char>) -> JsonValue {
    match v {
        JsonValue::Object(fields) => match field_spec(fields@, key) {
            Some(x) => x,
            None => JsonValue::Null,
        },
        _ => JsonValue::Null,
    }
}

/// The text of a JSON string value (`as_str`), where it is one.
pub open spec fn text_of(v: JsonValue) -> Option<Seq<char>> {
    match v {
        JsonValue::Text(s) => Some(s@),
        _ => None,
    }
}

// ---------------------------------------------------------------------
// Mojang profiles
// ---------------------------------------------------------------------

/// A profile answer that can be read: it has no `id` field, or that field
/// is a string.
pub open spec fn profile_readable(resp: Seq<(String, JsonValue)>) -> bool {
    match field_spec(resp, "id"@) {
        Some(v) => text_of(v) is Some,
        None => true,
    }
}

/// The UUID that a profile answer gives: its `id` field.
pub open spec fn profile_uuid(resp: Seq<(String, JsonValue)>) -> Option<Seq<char>> {
    match field_spec(resp, "id"@) {
        Some(v) => text_of(v),
        None => None,
    }
}

/// The field named `key`, found the way `field_spec` states.
pub fn find_field<'a>(fields: &'a Vec<(String, JsonValue)>, key: &str) -> (r: Option<
    &'a JsonValue,
>)
    ensures
        match r {
            Some(v) => field_spec(fields@, key@) == Some(*v),
            None => field_spec(fields@, key@) is None,
        },
{
    let mut i: usize = 0;
    assert(fields@.skip(0) =~= fields@);
    while i < fields.len()
        invariant
            i <= fields@.len(),
            field_spec(fields@, key@) == field_spec(fields@.skip(i as int), key@),
        decreases fields.len() - i,
    {
        let ghost rest = fields@.skip(i as int);
        assert(rest[0] == fields@[i as int]);
        assert(rest.drop_first() =~= fields@.skip(i + 1));
        if same_text(fields[i].0.as_str(), key) {
            return Some(&fields[i].1);
        }
        i = i + 1;
    }
    assert(fields@.skip(i as int) =~= Seq::<(String, JsonValue)>::empty());
    None
}

/// Whether a profile answer can be read (`profile_readable`).
pub fn is_profile_readable(resp: &Vec<(String, JsonValue)>) -> (r: bool)
    ensures
        r == profile_readable(resp@),
{
    match find_field(resp, "id") {
        Some(JsonValue::Text(_)) => true,
        Some(_) => false,
        None => true,
    }
}

/// The Minecraft UUID in a Mojang profile answer: the `id` field, or
/// `None` where the answer has none (the user does not exist).
pub fn get_mc_uuid(resp: &Vec<(String, JsonValue)>) -> (r: Option<String>)
    requires
        profile_readable(resp@),
    ensures
        match r {
            Some(u) => profile_uuid(resp@) == Some(u@),
            None => profile_uuid(resp@) is None,
        },
{
    match find_field(resp, "id") {
        None => None,
        Some(JsonValue::Text(s)) => Some(s.clone()),
        Some(_) => None,
    }
}

/// The name that a profile answer gives: its `name` field, where it is a
/// string.
pub open spec fn profile_name(resp: Seq<(String, JsonValue)>) -> Option<Seq<char>> {
    match field_spec(resp, "name"@) {
        Some(v) => text_of(v),
        None => None,
    }
}

/// The Minecraft name in a Mojang profile answer, as looked up by UUID:
/// the `name` field, or `None` where the answer has no string there (no
/// such user).
pub fn get_mc_name(resp: &Vec<(String, JsonValue)>) -> (r: Option<String>)
    ensures
        match r {
            Some(n) => profile_name(resp@) == Some(n@),
            None => profile_name(resp@) is None,
        },
{
    match find_field(resp, "name") {
        None => None,
        Some(JsonValue::Text(s)) => Some(s.clone()),
        Some(_) => None,
    }
}

// ---------------------------------------------------------------------
// Wynncraft guilds
// ---------------------------------------------------------------------

/// Whether the guild lookup found the guild: the API answered 200 OK.
pub fn is_real_guild(status: u16) -> (r: bool)
    ensures
        r == (status == 200),
{
    status == 200
}

/// The key under `members` that holds the member count, not a rank.
pub open spec fn is_total_key(key: Seq<char>) -> bool {
    key == "total"@
}

/// A member entry (name, details) whose details have a string `uuid`.
pub open spec fn member_readable(m: (String, JsonValue)) -> bool {
    text_of(index_spec(m.1, "uuid"@)) is Some
}

/// A rank entry that can be read: the count, or an object of readable
/// member entries.
pub open spec fn rank_readable(rank: (String, JsonValue)) -> bool {
    is_total_key(rank.0@) || match rank.1 {
        JsonValue::Object(ms) => forall|j: int|
            0 <= j < ms@.len() ==> member_readable(#[trigger] ms@[j]),
        _ => false,
    }
}

/// The ranks of a guild answer: the fields of its `members` object.
pub open spec fn ranks_of(resp: Seq<(String, JsonValue)>) -> Option<Seq<(String, JsonValue)>> {
    match field_spec(resp, "members"@) {
        Some(JsonValue::Object(ranks)) => Some(ranks@),
        _ => None,
    }
}

/// A guild answer that can be read: `members` is an object of readable
/// rank entries.
pub open spec fn guild_readable(resp: Seq<(String, JsonValue)>) -> bool {
    &&& ranks_of(resp) is Some
    &&& forall|i: int|
        0 <= i < ranks_of(resp).unwrap().len() ==> rank_readable(
            #[trigger] ranks_of(resp).unwrap()[i],
        )
}

/// `[name, uuid]` of a member entry.
pub open spec fn member_pair(m: (String, JsonValue)) -> Seq<Seq<char>> {
    seq![m.0@, text_of(index_spec(m.1, "uuid"@)).unwrap()]
}

/// The `[name, uuid]` pairs of these member entries, in order.
pub open spec fn member_pairs(ms: Seq<(String, JsonValue)>) -> Seq<Seq<Seq<char>>>
    decreases ms.len(),
{
    if ms.len() == 0 {
        Seq::empty()
    } else {
        member_pairs(ms.drop_last()).push(member_pair(ms.last()))
    }
}

/// The members under one rank entry; none under the count.
pub open spec fn rank_members(rank: (String, JsonValue)) -> Seq<Seq<Seq<char>>> {
    if is_total_key(rank.0@) {
        Seq::empty()
    } else {
        match rank.1 {
            JsonValue::Object(ms) => member_pairs(ms@),
            _ => Seq::empty(),
        }
    }
}

/// The members of all these ranks, rank by rank in order.
pub open spec fn roster_spec(ranks: Seq<(String, JsonValue)>) -> Seq<Seq<Seq<char>>>
    decreases ranks.len(),
{
    if ranks.len() == 0 {
        Seq::empty()
    } else {
        roster_spec(ranks.drop_last()) + rank_members(ranks.last())
    }
}

/// Whether a guild answer can be read (`guild_readable`).
#[verifier::loop_isolation(false)]
pub fn is_guild_readable(resp: &Vec<(String, JsonValue)>) -> (r: bool)
    ensures
        r == guild_readable(resp@),
{
    let ranks = match find_field(resp, "members") {
        Some(JsonValue::Object(ranks)) => ranks,
        _ => {
            return false;
        },
    };
    let mut i: usize = 0;
    while i < ranks.len()
        invariant
            ranks_of(resp@) == Some(ranks@),
            i <= ranks@.len(),
            forall|k: int| 0 <= k < i ==> rank_readable(#[trigger] ranks@[k]),
        decreases ranks.len() - i,
    {
        let rank = &ranks[i];
        if !same_text(rank.0.as_str(), "total") {
            proof {
                reveal_strlit("total");
            }
            match &rank.1 {
                JsonValue::Object(ms) => {
                    let mut j: usize = 0;
                    while j < ms.len()
                        invariant
                            j <= ms@.len(),
                            forall|k: int| 0 <= k < j ==> member_readable(#[trigger] ms@[k]),
                        decreases ms.len() - j,
                    {
                        let ok = match &ms[j].1 {
                            JsonValue::Object(details) => match find_field(details, "uuid") {
                                Some(JsonValue::Text(_)) => true,
                                _ => false,
                            },
                            _ => false,
                        };
                        if !ok {
                            assert(!member_readable(ms@[j as int]));
                            assert(!rank_readable(ranks@[i as int]));
                            assert(ranks_of(resp@).unwrap()[i as int] == ranks@[i as int]);
                            return false;
                        }
                        j = j + 1;
                    }
                },
                _ => {
                    assert(!rank_readable(ranks@[i as int]));
                            assert(ranks_of(resp@).unwrap()[i as int] == ranks@[i as int]);
                    return false;
                },
            }
        }
        i = i + 1;
    }
    true
}

/// The text of a string value.
fn text_value(v: &JsonValue) -> (r: String)
    requires
        text_of(*v) is Some,
    ensures
        Some(r@) == text_of(*v),
{
    match v {
        JsonValue::Text(s) => s.clone(),
        _ => String::new(),
    }
}

/// The `uuid` of a member's details.
fn member_uuid(details: &JsonValue) -> (r: String)
    requires
        text_of(index_spec(*details, "uuid"@)) is Some,
    ensures
        Some(r@) == text_of(index_spec(*details, "uuid"@)),
{
    match details {
        JsonValue::Object(fields) => match find_field(fields, "uuid") {
            Some(v) => text_value(v),
            None => String::new(),
        },
        _ => String::new(),
    }
}

/// The members of a guild, as `[name, uuid]`, from the answer of the
/// Wynncraft guild API: every member under every rank of `members`, the
/// member count left out, rank by rank in the answer's order.
pub fn get_guild_members(resp: &Vec<(String, JsonValue)>) -> (r: Vec<[String; 2]>)
    requires
        guild_readable(resp@),
    ensures
        r.deep_view() == roster_spec(ranks_of(resp@).unwrap()),
{
    let ranks = match find_field(resp, "members") {
        Some(JsonValue::Object(ranks)) => ranks,
        _ => {
            return Vec::new();
        },
    };
    let mut memberlist: Vec<[String; 2]> = Vec::new();
    let mut i: usize = 0;
    assert(ranks@.take(0) =~= Seq::<(String, JsonValue)>::empty());
    assert(memberlist.deep_view() =~= Seq::<Seq<Seq<char>>>::empty());
    while i < ranks.len()
        invariant
            ranks_of(resp@) == Some(ranks@),
            guild_readable(resp@),
            i <= ranks@.len(),
            memberlist.deep_view() == roster_spec(ranks@.take(i as int)),
        decreases ranks.len() - i,
    {
        let rank = &ranks[i];
        assert(ranks@.take(i + 1).drop_last() =~= ranks@.take(i as int));
        assert(ranks@.take(i + 1).last() == ranks@[i as int]);
        assert(ranks_of(resp@).unwrap() == ranks@);
        assert(rank_readable(ranks_of(resp@).unwrap()[i as int]));
        assert(rank_readable(ranks@[i as int]));
        let ghost base = memberlist.deep_view();
        proof {
            reveal_strlit("total");
        }
        if same_text(rank.0.as_str(), "total") {
            assert(rank_members(*rank) =~= Seq::<Seq<Seq<char>>>::empty());
            assert(base + rank_members(*rank) =~= base);
        } else {
            match &rank.1 {
                JsonValue::Object(ms) => {
                    let mut j: usize = 0;
                    assert(ms@.take(0) =~= Seq::<(String, JsonValue)>::empty());
                    assert(base + member_pairs(ms@.take(0)) =~= base);
                    while j < ms.len()
                        invariant
                            j <= ms@.len(),
                            forall|k: int| 0 <= k < ms@.len() ==> member_readable(#[trigger] ms@[k]),
                            memberlist.deep_view() == base + member_pairs(ms@.take(j as int)),
                        decreases ms.len() - j,
                    {
                        let member = &ms[j];
                        assert(member_readable(ms@[j as int]));
                        assert(ms@.take(j + 1).drop_last() =~= ms@.take(j as int));
                        assert(ms@.take(j + 1).last() == ms@[j as int]);
                        let uuid = member_uuid(&member.1);
                        let entry = [member.0.clone(), uuid];
                        let ghost before = memberlist.deep_view();
                        memberlist.push(entry);
                        assert(entry.deep_view() =~= member_pair(*member));
                        assert(memberlist.deep_view() =~= before.push(member_pair(*member)));
                        assert(base + member_pairs(ms@.take(j + 1)) =~= (base + member_pairs(
                            ms@.take(j as int),
                        )).push(member_pair(*member)));
                        j = j + 1;
                    }
                    assert(ms@.take(ms@.len() as int) =~= ms@);
                },
                _ => {
                    assert(false);
                },
            }
        }
        i = i + 1;
    }
    assert(ranks@.take(ranks@.len() as int) =~= ranks@);
    memberlist
}

} // verus!
