//! The hourly comparison of each guild's verified members with the members
//! of its Wynncraft guild: which guilds there are, who joined the Wynncraft
//! guild since the last check, and who is no longer in it.
use vstd::prelude::*;

use crate::text::{
    free_of, lemma_parse_format_i64, lemma_split_lines_text, lines_text, parse_i64,
    parse_i64_spec, remove_char, same_text, signed_decimal_spec, split_on, split_spec,
    strip_prefix,
};

verus! {

broadcast use vstd::string::group_string_axioms;

// ---------------------------------------------------------------------
// Guild folders
// ---------------------------------------------------------------------

/// The guild id that a database folder stands for: its path with the
/// database folder and a `/` (or a `\`) taken off the front, read as an
/// `i64`; 0 where that does not parse.
pub open spec fn guild_id_of_path(path: Seq<char>, db_dir: Seq<char>) -> i64 {
    let unix = db_dir.push('/');
    let windows = db_dir.push('\\');
    let rest = if unix.is_prefix_of(path) {
        path.skip(unix.len() as int)
    } else if windows.is_prefix_of(path) {
        path.skip(windows.len() as int)
    } else {
        path
    };
    match parse_i64_spec(rest) {
        Some(n) => n,
        None => 0,
    }
}

/// The guild ids of these folders, in order, those that came out 0 left
/// out.
pub open spec fn guild_ids_spec(paths: Seq<Seq<char>>, db_dir: Seq<char>) -> Seq<i64>
    decreases paths.len(),
{
    if paths.len() == 0 {
        Seq::empty()
    } else {
        let rest = guild_ids_spec(paths.drop_last(), db_dir);
        let id = guild_id_of_path(paths.last(), db_dir);
        if id == 0 {
            rest
        } else {
            rest.push(id)
        }
    }
}

/// The folder a guild's database is written to, `db_dir/id`, is read back
/// as that guild's id, with a slash or a backslash as the separator.
pub proof fn lemma_guild_folder_read_back(db_dir: Seq<char>, id: i64)
    ensures
        guild_id_of_path(db_dir.push('/') + signed_decimal_spec(id as int), db_dir) == id,
        guild_id_of_path(db_dir.push('\\') + signed_decimal_spec(id as int), db_dir) == id,
{
    lemma_parse_format_i64(id);
    let d = signed_decimal_spec(id as int);
    let u = db_dir.push('/');
    let w = db_dir.push('\\');
    assert(u.is_prefix_of(u + d));
    assert((u + d).skip(u.len() as int) =~= d);
    assert(w.is_prefix_of(w + d));
    assert((w + d).skip(w.len() as int) =~= d);
    if u.is_prefix_of(w + d) {
        assert((w + d)[db_dir.len() as int] == u[db_dir.len() as int]);
    }
}

/// The guilds to update are the ids of the database folders, in folder
/// order, with the folders whose name is no id (read as 0) left out.
pub proof fn lemma_guild_ids_are_folder_ids(paths: Seq<Seq<char>>, db_dir: Seq<char>)
    ensures
        guild_ids_spec(paths, db_dir) == paths.map_values(
            |p: Seq<char>| guild_id_of_path(p, db_dir),
        ).filter(|id: i64| id != 0),
    decreases paths.len(),
{
    let f = |p: Seq<char>| guild_id_of_path(p, db_dir);
    let nz = |id: i64| id != 0;
    reveal(Seq::filter);
    if paths.len() > 0 {
        lemma_guild_ids_are_folder_ids(paths.drop_last(), db_dir);
        let m = paths.map_values(f);
        assert(m.drop_last() =~= paths.drop_last().map_values(f));
        assert(m.last() == guild_id_of_path(paths.last(), db_dir));
        assert(guild_ids_spec(paths, db_dir) == m.filter(nz));
    } else {
        assert(paths.map_values(f) =~= Seq::<i64>::empty());
    }
}

/// The guild id of one database folder (`guild_id_of_path`).
pub fn guild_id_from_db_path(path: &str, db_dir: &str) -> (r: i64)
    ensures
        r == guild_id_of_path(path@, db_dir@),
{
    let mut unix = db_dir.to_string();
    unix.append("/");
    let mut windows = db_dir.to_string();
    windows.append("\\");
    proof {
        reveal_strlit("/");
        reveal_strlit("\\");
    }
    assert(unix@ =~= db_dir@.push('/'));
    assert(windows@ =~= db_dir@.push('\\'));
    let rest = match strip_prefix(path, unix.as_str()) {
        Some(noprefix) => noprefix,
        None => match strip_prefix(path, windows.as_str()) {
            Some(noprefix) => noprefix,
            None => path.to_string(),
        },
    };
    match parse_i64(rest.as_str()) {
        Some(id) => id,
        None => 0,
    }
}

/// The guild ids of these database folders (`guild_ids_spec`).
pub fn guild_ids_from_db_paths(paths: &Vec<String>, db_dir: &str) -> (r: Vec<i64>)
    ensures
        r@ == guild_ids_spec(paths.deep_view(), db_dir@),
{
    let mut guild_ids: Vec<i64> = Vec::new();
    let mut i: usize = 0;
    assert(paths.deep_view().take(0) =~= Seq::<Seq<char>>::empty());
    while i < paths.len()
        invariant
            i <= paths@.len(),
            guild_ids@ == guild_ids_spec(paths.deep_view().take(i as int), db_dir@),
        decreases paths.len() - i,
    {
        let ghost pv = paths.deep_view();
        assert(pv.take(i + 1).drop_last() =~= pv.take(i as int));
        assert(pv.take(i + 1).last() == paths@[i as int]@);
        let int_id = guild_id_from_db_path(paths[i].as_str(), db_dir);
        if int_id != 0 {
            guild_ids.push(int_id);
        }
        i = i + 1;
    }
    assert(paths.deep_view().take(paths.len() as int) =~= paths.deep_view());
    guild_ids
}

// ---------------------------------------------------------------------
// Join notifications
// ---------------------------------------------------------------------

/// The UUIDs of these `[name, uuid]` members, in order.
pub open spec fn uuids_of(members: Seq<Seq<Seq<char>>>) -> Seq<Seq<char>> {
    members.map_values(|m: Seq<Seq<char>>| m[1])
}

/// The stored member list: each UUID followed by a line break.
pub open spec fn member_list_text(uuids: Seq<Seq<char>>) -> Seq<char> {
    lines_text(uuids)
}

/// A member that joined since the stored list was written: their UUID is
/// not one of its lines.
pub open spec fn is_new_member(stored: Seq<char>, member: Seq<Seq<char>>) -> bool {
    !split_spec(stored, '\n').contains(member[1])
}

/// The members that are new against the stored list, in order.
pub open spec fn new_members_spec(stored: Seq<char>, members: Seq<Seq<Seq<char>>>) -> Seq<
    Seq<Seq<char>>,
>
    decreases members.len(),
{
    if members.len() == 0 {
        Seq::empty()
    } else {
        let rest = new_members_spec(stored, members.drop_last());
        if is_new_member(stored, members.last()) {
            rest.push(members.last())
        } else {
            rest
        }
    }
}

/// The members announced as new are exactly, in their order and with
/// their repeats, the current members whose UUID is not a line of the
/// stored list; each member is new or not on its own, whatever the other
/// members are.
pub proof fn lemma_new_members_are_those_not_stored(
    stored: Seq<char>,
    members: Seq<Seq<Seq<char>>>,
)
    ensures
        new_members_spec(stored, members) == members.filter(
            |m: Seq<Seq<char>>| !split_spec(stored, '\n').contains(m[1]),
        ),
        forall|m: Seq<Seq<char>>|
            #[trigger] new_members_spec(stored, members).contains(m) <==> members.contains(m)
                && !split_spec(stored, '\n').contains(m[1]),
    decreases members.len(),
{
    let pred = |m: Seq<Seq<char>>| !split_spec(stored, '\n').contains(m[1]);
    reveal(Seq::filter);
    if members.len() > 0 {
        lemma_new_members_are_those_not_stored(stored, members.drop_last());
        assert(new_members_spec(stored, members) == members.filter(pred));
    } else {
        assert(new_members_spec(stored, members) == members.filter(pred));
    }
    assert forall|m: Seq<Seq<char>>|
        #[trigger] new_members_spec(stored, members).contains(m) <==> members.contains(m)
            && !split_spec(stored, '\n').contains(m[1]) by {
        if members.contains(m) && pred(m) {
            let i = choose|i: int| 0 <= i < members.len() && members[i] == m;
            members.lemma_filter_contains(pred, i);
        }
        if members.filter(pred).contains(m) {
            members.lemma_filter_contains_rev(pred, m);
            let k = choose|k: int| 0 <= k < members.filter(pred).len() && members.filter(pred)[k] == m;
            members.lemma_filter_pred(pred, k);
        }
    }
}

/// The notification sent for a member who joined.
pub open spec fn join_message_spec(name: Seq<char>) -> Seq<char> {
    "**"@ + name + "** has joined the guild!"@
}

/// The UUID column of `[name, uuid]` members.
pub fn member_uuids(members: &Vec<[String; 2]>) -> (r: Vec<String>)
    ensures
        r.deep_view() == uuids_of(members.deep_view()),
{
    let mut r: Vec<String> = Vec::new();
    let mut i: usize = 0;
    while i < members.len()
        invariant
            i <= members@.len(),
            r.deep_view() =~= uuids_of(members.deep_view().take(i as int)),
        decreases members.len() - i,
    {
        assert(members.deep_view()[i as int][1] == members@[i as int][1]@);
        let ghost before = r.deep_view();
        r.push(members[i][1].clone());
        assert(r.deep_view() =~= before.push(members@[i as int][1]@));
        i = i + 1;
    }
    assert(members.deep_view().take(members.len() as int) =~= members.deep_view());
    r
}

/// The stored member list for these UUIDs (`member_list_text`).
pub fn format_member_list(uuids: &Vec<String>) -> (r: String)
    ensures
        r@ == member_list_text(uuids.deep_view()),
{
    let mut formatted_members = String::new();
    let mut i: usize = 0;
    assert(uuids.deep_view().take(0) =~= Seq::<Seq<char>>::empty());
    while i < uuids.len()
        invariant
            i <= uuids@.len(),
            formatted_members@ == member_list_text(uuids.deep_view().take(i as int)),
        decreases uuids.len() - i,
    {
        let ghost uv = uuids.deep_view();
        let ghost before = formatted_members@;
        assert(uv.take(i + 1).drop_last() =~= uv.take(i as int));
        assert(uv.take(i + 1).last() == uuids@[i as int]@);
        formatted_members.append(uuids[i].as_str());
        formatted_members.append("\n");
        proof {
            reveal_strlit("\n");
        }
        assert(formatted_members@ =~= before + uuids@[i as int]@.push('\n'));
        i = i + 1;
    }
    assert(uuids.deep_view().take(uuids.len() as int) =~= uuids.deep_view());
    formatted_members
}

/// The members whose UUID is not a line of the stored list, in order.
pub fn new_guild_members(stored: &str, members: &Vec<[String; 2]>) -> (r: Vec<[String; 2]>)
    ensures
        r.deep_view() == new_members_spec(stored@, members.deep_view()),
{
    let lines = split_on(stored, '\n');
    let mut r: Vec<[String; 2]> = Vec::new();
    let mut i: usize = 0;
    assert(members.deep_view().take(0) =~= Seq::<Seq<Seq<char>>>::empty());
    assert(r.deep_view() =~= Seq::<Seq<Seq<char>>>::empty());
    while i < members.len()
        invariant
            lines.deep_view() == split_spec(stored@, '\n'),
            i <= members@.len(),
            r.deep_view() == new_members_spec(stored@, members.deep_view().take(i as int)),
        decreases members.len() - i,
    {
        let ghost mv = members.deep_view();
        assert(mv.take(i + 1).drop_last() =~= mv.take(i as int));
        assert(mv.take(i + 1).last() == members@[i as int].deep_view());
        let member = &members[i];
        assert(member.deep_view()[1] == member[1]@);
        let mut namestatus = false;
        let mut j: usize = 0;
        while j < lines.len()
            invariant
                j <= lines@.len(),
                namestatus <==> exists|k: int| 0 <= k < j && lines.deep_view()[k] == member[1]@,
            decreases lines.len() - j,
        {
            assert(lines.deep_view()[j as int] == lines@[j as int]@);
            if same_text(lines[j].as_str(), member[1].as_str()) {
                namestatus = true;
            }
            j = j + 1;
        }
        assert(namestatus <==> lines.deep_view().contains(member[1]@));
        let ghost before = r.deep_view();
        if !namestatus {
            let entry = [member[0].clone(), member[1].clone()];
            r.push(entry);
            assert(entry.deep_view() =~= member.deep_view());
            assert(r.deep_view() =~= before.push(member.deep_view()));
        }
        i = i + 1;
    }
    assert(members.deep_view().take(members.len() as int) =~= members.deep_view());
    r
}

/// The notification for a member who joined (`join_message_spec`).
pub fn join_message(name: &str) -> (r: String)
    ensures
        r@ == join_message_spec(name@),
{
    let mut r = "**".to_string();
    r.append(name);
    r.append("** has joined the guild!");
    r
}

proof fn lemma_none_new(stored: Seq<char>, members: Seq<Seq<Seq<char>>>)
    requires
        forall|i: int|
            0 <= i < members.len() ==> split_spec(stored, '\n').contains(#[trigger] members[i][1]),
    ensures
        new_members_spec(stored, members) == Seq::<Seq<Seq<char>>>::empty(),
    decreases members.len(),
{
    if members.len() > 0 {
        let rest = members.drop_last();
        assert forall|i: int| 0 <= i < rest.len() implies split_spec(stored, '\n').contains(
            #[trigger] rest[i][1],
        ) by {
            assert(rest[i] == members[i]);
        }
        lemma_none_new(stored, rest);
        assert(members.last() == members[members.len() - 1]);
    }
}

/// Right after the member list of a guild is stored, checking the same
/// members against it finds no one new: storing the list when the channel
/// is set keeps the first check from announcing every member.
pub proof fn lemma_stored_list_has_no_new_members(members: Seq<Seq<Seq<char>>>)
    requires
        forall|i: int|
            0 <= i < members.len() ==> (#[trigger] members[i]).len() == 2 && free_of(
                members[i][1],
                '\n',
            ),
    ensures
        new_members_spec(member_list_text(uuids_of(members)), members) == Seq::<
            Seq<Seq<char>>,
        >::empty(),
{
    let us = uuids_of(members);
    assert forall|i: int| 0 <= i < us.len() implies free_of(#[trigger] us[i], '\n') by {
        assert(us[i] == members[i][1]);
    }
    lemma_split_lines_text(us);
    let stored = member_list_text(us);
    assert forall|i: int| 0 <= i < members.len() implies split_spec(stored, '\n').contains(
        #[trigger] members[i][1],
    ) by {
        assert(split_spec(stored, '\n')[i] == us[i]);
    }
    lemma_none_new(stored, members);
}

// ---------------------------------------------------------------------
// Members who left
// ---------------------------------------------------------------------

/// A UUID as the Wynncraft API writes it, with its dashes taken out.
pub open spec fn strip_dashes(uuid: Seq<char>) -> Seq<char> {
    uuid.filter(|c: char| c != '-')
}

/// A recorded Minecraft UUID matches a member of the Wynncraft guild.
pub open spec fn in_guild(wynn_uuids: Seq<Seq<char>>, recorded: Seq<char>) -> bool {
    exists|i: int| 0 <= i < wynn_uuids.len() && strip_dashes(wynn_uuids[i]) == recorded
}

/// The Discord side of every record whose Minecraft UUID matches no member
/// of the Wynncraft guild, in order.
pub open spec fn to_unverify_spec(entries: Seq<Seq<Seq<char>>>, wynn_uuids: Seq<Seq<char>>) -> Seq<
    Seq<char>,
>
    decreases entries.len(),
{
    if entries.len() == 0 {
        Seq::empty()
    } else {
        let rest = to_unverify_spec(entries.drop_last(), wynn_uuids);
        if in_guild(wynn_uuids, entries.last()[2]) {
            rest
        } else {
            rest.push(entries.last()[0])
        }
    }
}

/// The members to unverify: the mention of every record
/// `[discord, minecraft name, minecraft uuid]` whose UUID matches no member
/// of the Wynncraft guild with its dashes taken out (`to_unverify_spec`).
pub fn members_to_unverify(entries: &Vec<[String; 3]>, wynn_uuids: &Vec<String>) -> (r: Vec<
    String,
>)
    ensures
        r.deep_view() == to_unverify_spec(entries.deep_view(), wynn_uuids.deep_view()),
{
    let mut r: Vec<String> = Vec::new();
    let mut index: usize = 0;
    assert(entries.deep_view().take(0) =~= Seq::<Seq<Seq<char>>>::empty());
    assert(r.deep_view() =~= Seq::<Seq<char>>::empty());
    while index < entries.len()
        invariant
            index <= entries@.len(),
            r.deep_view() == to_unverify_spec(
                entries.deep_view().take(index as int),
                wynn_uuids.deep_view(),
            ),
        decreases entries.len() - index,
    {
        let ghost ev = entries.deep_view();
        assert(ev.take(index + 1).drop_last() =~= ev.take(index as int));
        assert(ev.take(index + 1).last() == entries@[index as int].deep_view());
        let entry = &entries[index];
        assert(entry.deep_view()[0] == entry[0]@);
        assert(entry.deep_view()[2] == entry[2]@);
        let mut memberstatus = false;
        let mut j: usize = 0;
        while j < wynn_uuids.len()
            invariant
                j <= wynn_uuids@.len(),
                memberstatus <==> exists|k: int|
                    0 <= k < j && strip_dashes(wynn_uuids.deep_view()[k]) == entry[2]@,
            decreases wynn_uuids.len() - j,
        {
            assert(wynn_uuids.deep_view()[j as int] == wynn_uuids@[j as int]@);
            let wynn_uuid = remove_char(wynn_uuids[j].as_str(), '-');
            if same_text(wynn_uuid.as_str(), entry[2].as_str()) {
                memberstatus = true;
            }
            j = j + 1;
        }
        let ghost before = r.deep_view();
        if !memberstatus {
            r.push(entry[0].clone());
            assert(r.deep_view() =~= before.push(entry[0]@));
        }
        index = index + 1;
    }
    assert(entries.deep_view().take(entries.len() as int) =~= entries.deep_view());
    r
}


/// The users to unverify are the mentions of the records whose UUID
/// matches no member of the Wynncraft guild, one per such record, in the
/// records' order.
pub proof fn lemma_to_unverify_is_mentions_of_leavers(
    entries: Seq<Seq<Seq<char>>>,
    wynn_uuids: Seq<Seq<char>>,
)
    ensures
        to_unverify_spec(entries, wynn_uuids) == entries.filter(
            |e: Seq<Seq<char>>| !in_guild(wynn_uuids, e[2]),
        ).map_values(|e: Seq<Seq<char>>| e[0]),
    decreases entries.len(),
{
    let pred = |e: Seq<Seq<char>>| !in_guild(wynn_uuids, e[2]);
    let f = |e: Seq<Seq<char>>| e[0];
    reveal(Seq::filter);
    if entries.len() > 0 {
        let rest = entries.drop_last();
        lemma_to_unverify_is_mentions_of_leavers(rest, wynn_uuids);
        let fr = rest.filter(pred);
        if pred(entries.last()) {
            assert(entries.filter(pred) == fr.push(entries.last()));
            assert(fr.push(entries.last()).map_values(f) =~= fr.map_values(f).push(
                entries.last()[0],
            ));
        } else {
            assert(entries.filter(pred) == fr);
        }
    } else {
        assert(entries.filter(pred).map_values(f) =~= Seq::<Seq<char>>::empty());
    }
}

/// The update unverifies exactly the recorded users who left: a mention is
/// listed if and only if some record with that mention holds a Minecraft
/// UUID that matches no member of the Wynncraft guild.
pub proof fn lemma_unverified_are_those_who_left(
    entries: Seq<Seq<Seq<char>>>,
    wynn_uuids: Seq<Seq<char>>,
)
    ensures
        forall|p: Seq<char>|
            #[trigger] to_unverify_spec(entries, wynn_uuids).contains(p) <==> exists|i: int|
                0 <= i < entries.len() && entries[i][0] == p && !in_guild(
                    wynn_uuids,
                    #[trigger] entries[i][2],
                ),
    decreases entries.len(),
{
    if entries.len() > 0 {
        let rest = entries.drop_last();
        let e = entries.last();
        lemma_unverified_are_those_who_left(rest, wynn_uuids);
        let r = to_unverify_spec(entries, wynn_uuids);
        let rr = to_unverify_spec(rest, wynn_uuids);
        assert forall|p: Seq<char>| #[trigger] r.contains(p) <==> exists|i: int|
            0 <= i < entries.len() && entries[i][0] == p && !in_guild(
                wynn_uuids,
                #[trigger] entries[i][2],
            ) by {
            if r.contains(p) {
                let k = choose|k: int| 0 <= k < r.len() && r[k] == p;
                if k < rr.len() {
                    assert(rr[k] == r[k]);
                    assert(rr.contains(p));
                    let i = choose|i: int|
                        0 <= i < rest.len() && rest[i][0] == p && !in_guild(
                            wynn_uuids,
                            #[trigger] rest[i][2],
                        );
                    assert(entries[i] == rest[i]);
                } else {
                    assert(entries[entries.len() - 1] == e);
                }
            }
            if exists|i: int|
                0 <= i < entries.len() && entries[i][0] == p && !in_guild(
                    wynn_uuids,
                    #[trigger] entries[i][2],
                ) {
                let i = choose|i: int|
                    0 <= i < entries.len() && entries[i][0] == p && !in_guild(
                        wynn_uuids,
                        #[trigger] entries[i][2],
                    );
                if i < rest.len() {
                    assert(rest[i] == entries[i]);
                    assert(rr.contains(p));
                    let k = choose|k: int| 0 <= k < rr.len() && rr[k] == p;
                    if !in_guild(wynn_uuids, e[2]) {
                        assert(r[k] == rr[k]);
                    }
                    assert(r.contains(p));
                } else {
                    assert(entries[i] == e);
                    assert(r[r.len() - 1] == p);
                }
            }
        }
    }
}

} // verus!
