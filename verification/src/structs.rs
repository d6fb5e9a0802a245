//! The two kinds of user name the bot links together.
use vstd::prelude::*;

use crate::text::{ends_with, parse_i64, parse_i64_spec, starts_with};

verus! {

broadcast use vstd::string::group_string_axioms;

/// A Minecraft user: a name and a UUID.
pub struct McUsername {
    pub name: String,
    pub uuid: String,
}

/// A Discord user, held by the mention text that pings them (`<@id>`).
pub struct DcUsername {
    pub pingid: String,
}

/// The UUID that `McUsername::new_from_name` records while the real one
/// is not looked up.
pub open spec fn placeholder_uuid() -> Seq<char> {
    "TEMPORARY-UUID"@
}

/// A mention as Discord writes it: it starts with `<@` and ends with `>`.
pub open spec fn is_ping_form(id: Seq<char>) -> bool {
    "<@"@.is_prefix_of(id) && ">"@.is_suffix_of(id)
}

/// The numeric user id inside a mention `<@id>`: the text between `<@` and
/// `>` read as an `i64`, where that succeeds and is not 0.
pub open spec fn ping_user_id(id: Seq<char>) -> Option<i64> {
    if is_ping_form(id) && id.len() >= 3 {
        match parse_i64_spec(id.subrange(2, id.len() - 1)) {
            Some(n) => if n != 0 {
                Some(n)
            } else {
                None
            },
            None => None,
        }
    } else {
        None
    }
}

impl McUsername {
    /// The user with this name and the placeholder UUID.
    pub fn new_from_name(name: &str) -> (r: Self)
        ensures
            r.name@ == name@,
            r.uuid@ == placeholder_uuid(),
    {
        McUsername { name: name.to_string(), uuid: "TEMPORARY-UUID".to_string() }
    }
}

impl DcUsername {
    /// The user that this mention text pings, taken as it is.
    pub fn new_from_pingid(id: &str) -> (r: Self)
        ensures
            r.pingid@ == id@,
    {
        DcUsername { pingid: id.to_string() }
    }

    /// The user that this mention text pings, where it has the form of a
    /// mention; `None` otherwise.
    pub fn try_from_pingid(id: &str) -> (r: Option<Self>)
        ensures
            r is Some <==> is_ping_form(id@),
            r matches Some(u) ==> u.pingid@ == id@,
    {
        if !(starts_with(id, "<@") && ends_with(id, ">")) {
            return None;
        } else {
            return Some(DcUsername::new_from_pingid(id));
        }
    }

    /// The numeric id of the user this mention pings (`ping_user_id`).
    pub fn raw_id(&self) -> (r: Option<i64>)
        ensures
            r == ping_user_id(self.pingid@),
    {
        let p = self.pingid.as_str();
        if !(starts_with(p, "<@") && ends_with(p, ">")) {
            return None;
        }
        let n = crate::text::chars_of(p).len();
        if n < 3 {
            return None;
        }
        let inner = p.substring_char(2, n - 1);
        match parse_i64(inner) {
            Some(v) => if v != 0 {
                Some(v)
            } else {
                None
            },
            None => None,
        }
    }
}

} // verus!
