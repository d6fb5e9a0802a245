//! The per-guild settings the bot keeps, and how a stored setting is read
//! when roles are handed out or taken away.
use vstd::prelude::*;

use crate::text::{
    decimal_spec, lemma_parse_format_u64, parse_u64, parse_u64_spec, split_on, split_spec,
};

verus! {

broadcast use vstd::string::group_string_axioms;

/// Setting: the role that verified members get.
pub const VERIFIED_ROLE_KEY: &'static str = "verified-role-id";

/// Setting: the role that unverified former members get.
pub const VETERAN_ROLE_KEY: &'static str = "veteran-role-id";

/// Setting: the roles taken away on unverification, space separated.
pub const REMOVED_ROLES_KEY: &'static str = "removed-roles";

/// Setting: the Wynncraft guild prefix to compare members with.
pub const GUILD_NAME_KEY: &'static str = "wynn-guild-name";

/// Setting: the channel where join notifications go.
pub const NOTIF_CHANNEL_KEY: &'static str = "notif-channel-id";

/// Setting: the UUIDs of the Wynncraft guild's members at the last check,
/// one per line.
pub const GUILD_MEMBERS_KEY: &'static str = "wynn-guild-members";

/// A stored role id as it is used: the number it denotes, or 1 where it
/// does not parse.
pub open spec fn role_id_or_default(value: Seq<char>) -> u64 {
    match parse_u64_spec(value) {
        Some(n) => n,
        None => 1,
    }
}

/// The role id that a stored setting names (`role_id_or_default`).
pub fn config_role_id(value: &str) -> (r: u64)
    ensures
        r == role_id_or_default(value@),
{
    match parse_u64(value) {
        Some(id) => id,
        None => 1,
    }
}

/// The role ids of a space-separated list, one per piece, in order.
pub fn removed_role_ids(value: &str) -> (r: Vec<u64>)
    ensures
        r@ == split_spec(value@, ' ').map_values(|p: Seq<char>| role_id_or_default(p)),
{
    let pieces = split_on(value, ' ');
    let mut ids: Vec<u64> = Vec::new();
    let mut i: usize = 0;
    while i < pieces.len()
        invariant
            pieces.deep_view() == split_spec(value@, ' '),
            i <= pieces@.len(),
            ids@ =~= pieces.deep_view().take(i as int).map_values(
                |p: Seq<char>| role_id_or_default(p),
            ),
        decreases pieces.len() - i,
    {
        assert(pieces.deep_view()[i as int] == pieces@[i as int]@);
        ids.push(config_role_id(pieces[i].as_str()));
        i = i + 1;
    }
    assert(pieces.deep_view().take(pieces.len() as int) =~= pieces.deep_view());
    ids
}

/// The answer to a successful verification.
pub open spec fn verified_reply_spec(pingid: Seq<char>, mc_name: Seq<char>) -> Seq<char> {
    "Discord user \""@ + pingid + "\" has been verified as \""@ + mc_name + "\""@
}

/// The answer to a successful verification (`verified_reply_spec`).
pub fn verified_reply(pingid: &str, mc_name: &str) -> (r: String)
    ensures
        r@ == verified_reply_spec(pingid@, mc_name@),
{
    let mut r = "Discord user \"".to_string();
    r.append(pingid);
    r.append("\" has been verified as \"");
    r.append(mc_name);
    r.append("\"");
    r
}

/// A role id stored in its decimal form is read back as the same id.
pub proof fn lemma_role_id_roundtrip(id: u64)
    ensures
        role_id_or_default(decimal_spec(id as nat)) == id,
{
    lemma_parse_format_u64(id);
}

} // verus!
