//! The name database of a guild, as the text of its file.
//!
//! Each line records one verified user: the Discord mention, the Minecraft
//! name and the Minecraft UUID, separated by spaces, then a line break.
//! Reading the names takes the first two space-separated fields of every
//! non-empty line; reading the records takes the first three.
use vstd::prelude::*;

use crate::text::{
    free_of, lemma_split_concat, lemma_split_free, lemma_split_lines_text, lemma_split_nonempty,
    lemma_split_pieces_free, lines_text, same_text, split_on, split_spec,
};

verus! {

broadcast use vstd::string::group_string_axioms;

/// The lines of the database text.
pub open spec fn db_lines(text: Seq<char>) -> Seq<Seq<char>> {
    split_spec(text, '\n')
}

/// The names that a non-empty line holds: its first two space-separated
/// fields, Discord side first.
pub open spec fn entry_of(line: Seq<char>) -> Seq<Seq<char>> {
    let f = split_spec(line, ' ');
    seq![f[0], f[1]]
}

/// The record that a non-empty line holds: its first three space-separated
/// fields, the Discord mention, the Minecraft name and the Minecraft UUID.
pub open spec fn record_of(line: Seq<char>) -> Seq<Seq<char>> {
    let f = split_spec(line, ' ');
    seq![f[0], f[1], f[2]]
}

/// A line whose names can be read: it is empty, or it has the space that
/// separates two fields.
pub open spec fn line_readable(line: Seq<char>) -> bool {
    line.len() == 0 || !free_of(line, ' ')
}

/// A line whose record can be read: it is empty, or it has three fields
/// or more.
pub open spec fn line_complete(line: Seq<char>) -> bool {
    line.len() == 0 || split_spec(line, ' ').len() >= 3
}

/// A line of exactly three space-separated fields.
pub open spec fn line_is_record(line: Seq<char>) -> bool {
    split_spec(line, ' ').len() == 3
}

/// Every line of the text can be read for names.
pub open spec fn is_readable_db(text: Seq<char>) -> bool {
    forall|i: int| 0 <= i < db_lines(text).len() ==> line_readable(#[trigger] db_lines(text)[i])
}

/// Every line of the text can be read for records.
pub open spec fn is_complete_db(text: Seq<char>) -> bool {
    forall|i: int| 0 <= i < db_lines(text).len() ==> line_complete(#[trigger] db_lines(text)[i])
}

/// Database text in the form it is written in: every line is a record of
/// three fields ended by a line break (so the text ends with an empty
/// line after the last break).
pub open spec fn well_formed_db(text: Seq<char>) -> bool {
    let ls = db_lines(text);
    &&& ls.len() >= 1
    &&& ls.last().len() == 0
    &&& forall|i: int| 0 <= i < ls.len() - 1 ==> line_is_record(#[trigger] ls[i])
}

/// The names of these lines, empty lines skipped, in order.
pub open spec fn names_of_lines(lines: Seq<Seq<char>>) -> Seq<Seq<Seq<char>>>
    decreases lines.len(),
{
    if lines.len() == 0 {
        Seq::empty()
    } else if lines.last().len() == 0 {
        names_of_lines(lines.drop_last())
    } else {
        names_of_lines(lines.drop_last()).push(entry_of(lines.last()))
    }
}

/// The records of these lines, empty lines skipped, in order.
pub open spec fn records_of_lines(lines: Seq<Seq<char>>) -> Seq<Seq<Seq<char>>>
    decreases lines.len(),
{
    if lines.len() == 0 {
        Seq::empty()
    } else if lines.last().len() == 0 {
        records_of_lines(lines.drop_last())
    } else {
        records_of_lines(lines.drop_last()).push(record_of(lines.last()))
    }
}

/// The names that the database text holds, each `[discord, minecraft]`.
pub open spec fn names_spec(text: Seq<char>) -> Seq<Seq<Seq<char>>> {
    names_of_lines(db_lines(text))
}

/// The records that the database text holds, each
/// `[discord, minecraft name, minecraft uuid]`.
pub open spec fn records_spec(text: Seq<char>) -> Seq<Seq<Seq<char>>> {
    records_of_lines(db_lines(text))
}

/// The line, without its break, that records one user.
pub open spec fn record_line(dc: Seq<char>, mc: Seq<char>, uuid: Seq<char>) -> Seq<char> {
    (dc.push(' ') + mc).push(' ') + uuid
}

/// The line, with its break, that records one user.
pub open spec fn entry_text(dc: Seq<char>, mc: Seq<char>, uuid: Seq<char>) -> Seq<char> {
    record_line(dc, mc, uuid).push('\n')
}

/// The database text that holds these records, one line each, in order.
pub open spec fn db_text(records: Seq<Seq<Seq<char>>>) -> Seq<char>
    decreases records.len(),
{
    if records.len() == 0 {
        Seq::empty()
    } else {
        db_text(records.drop_last()) + entry_text(
            records.last()[0],
            records.last()[1],
            records.last()[2],
        )
    }
}

/// Whether a line mentions `username` in its first or second field.
pub open spec fn line_mentions(line: Seq<char>, username: Seq<char>) -> bool {
    entry_of(line)[0] == username || entry_of(line)[1] == username
}

/// The non-empty lines that mention `username` in neither of their first
/// two fields, in order.
pub open spec fn kept_lines(lines: Seq<Seq<char>>, username: Seq<char>) -> Seq<Seq<char>>
    decreases lines.len(),
{
    if lines.len() == 0 {
        Seq::empty()
    } else {
        let rest = kept_lines(lines.drop_last(), username);
        let l = lines.last();
        if l.len() > 0 && !line_mentions(l, username) {
            rest.push(l)
        } else {
            rest
        }
    }
}

/// The entries that mention `username` in neither of their first two
/// fields, in order.
pub open spec fn kept_entries(entries: Seq<Seq<Seq<char>>>, username: Seq<char>) -> Seq<
    Seq<Seq<char>>,
>
    decreases entries.len(),
{
    if entries.len() == 0 {
        Seq::empty()
    } else {
        let rest = kept_entries(entries.drop_last(), username);
        let e = entries.last();
        if e[0] != username && e[1] != username {
            rest.push(e)
        } else {
            rest
        }
    }
}

/// A field that can stand in a line: no space and no line break.
pub open spec fn clean_field(f: Seq<char>) -> bool {
    free_of(f, ' ') && free_of(f, '\n')
}

/// Records of three clean fields each.
pub open spec fn clean_records(records: Seq<Seq<Seq<char>>>) -> bool {
    forall|i: int|
        0 <= i < records.len() ==> {
            &&& (#[trigger] records[i]).len() == 3
            &&& clean_field(records[i][0])
            &&& clean_field(records[i][1])
            &&& clean_field(records[i][2])
        }
}

/// Text that a line can be appended to: empty, or ending in a line break.
pub open spec fn ends_line(text: Seq<char>) -> bool {
    text.len() == 0 || text.last() == '\n'
}

// ---------------------------------------------------------------------
// Lemmas on the line structure
// ---------------------------------------------------------------------

/// Text that holds the separator splits into at least two pieces.
proof fn lemma_split_two(s: Seq<char>, sep: char)
    requires
        !free_of(s, sep),
    ensures
        split_spec(s, sep).len() >= 2,
{
    let k = choose|k: int| 0 <= k < s.len() && s[k] == sep;
    assert(s.take(k).push(sep) + s.skip(k + 1) =~= s);
    lemma_split_concat(s.take(k), s.skip(k + 1), sep);
    lemma_split_nonempty(s.take(k), sep);
    lemma_split_nonempty(s.skip(k + 1), sep);
}

/// A line of two or more pieces holds the separator.
proof fn lemma_split_many_not_free(s: Seq<char>, sep: char)
    requires
        split_spec(s, sep).len() >= 2,
    ensures
        !free_of(s, sep),
{
    if free_of(s, sep) {
        lemma_split_free(s, sep);
    }
}

/// The fields of a record line are the three fields written.
proof fn lemma_record_line(dc: Seq<char>, mc: Seq<char>, uuid: Seq<char>)
    requires
        clean_field(dc),
        clean_field(mc),
        clean_field(uuid),
    ensures
        split_spec(record_line(dc, mc, uuid), ' ') == seq![dc, mc, uuid],
        record_line(dc, mc, uuid).len() > 0,
        free_of(record_line(dc, mc, uuid), '\n'),
        entry_of(record_line(dc, mc, uuid)) == seq![dc, mc],
        record_of(record_line(dc, mc, uuid)) == seq![dc, mc, uuid],
{
    let first = dc.push(' ') + mc;
    let line = record_line(dc, mc, uuid);
    lemma_split_concat(dc, mc, ' ');
    lemma_split_concat(first, uuid, ' ');
    lemma_split_free(dc, ' ');
    lemma_split_free(mc, ' ');
    lemma_split_free(uuid, ' ');
    assert(split_spec(line, ' ') =~= seq![dc, mc, uuid]);
    assert(line[dc.len() as int] == ' ');
    assert forall|i: int| 0 <= i < line.len() implies line[i] != '\n' by {
        if i < dc.len() {
            assert(line[i] == dc[i]);
        } else if dc.len() < i < dc.len() + 1 + mc.len() {
            assert(line[i] == mc[i - dc.len() - 1]);
        } else if i > dc.len() + 1 + mc.len() {
            assert(line[i] == uuid[i - dc.len() - mc.len() - 2]);
        }
    }
}

/// Appending a line and its break to text that ends a line: the lines
/// are those from before, without the final empty one, then the new line
/// and an empty one.
proof fn lemma_append_line(prev: Seq<char>, line: Seq<char>)
    requires
        ends_line(prev),
        free_of(line, '\n'),
    ensures
        db_lines(prev).len() >= 1,
        db_lines(prev).last() == Seq::<char>::empty(),
        db_lines(prev) == db_lines(prev).drop_last().push(Seq::<char>::empty()),
        db_lines(prev + line.push('\n')) == db_lines(prev).drop_last() + seq![
            line,
            Seq::<char>::empty(),
        ],
{
    let text = prev + line.push('\n');
    lemma_split_free(line, '\n');
    lemma_split_concat(line, Seq::<char>::empty(), '\n');
    assert(line.push('\n') + Seq::<char>::empty() =~= line.push('\n'));
    assert(split_spec(Seq::<char>::empty(), '\n') =~= seq![Seq::<char>::empty()]);
    if prev.len() == 0 {
        assert(prev =~= Seq::<char>::empty());
        assert(text =~= line.push('\n'));
        assert(db_lines(prev).drop_last() =~= Seq::<Seq<char>>::empty());
        assert(db_lines(prev).drop_last().push(Seq::<char>::empty()) =~= db_lines(prev));
        assert(db_lines(text) =~= db_lines(prev).drop_last() + seq![line, Seq::<char>::empty()]);
    } else {
        let p = prev.drop_last();
        assert(prev =~= p.push('\n') + Seq::<char>::empty());
        assert(text =~= p.push('\n') + line.push('\n'));
        lemma_split_concat(p, Seq::<char>::empty(), '\n');
        lemma_split_concat(p, line.push('\n'), '\n');
        let lp = split_spec(p, '\n');
        assert(db_lines(prev) =~= lp.push(Seq::<char>::empty()));
        assert(db_lines(prev).drop_last() =~= lp);
        assert(db_lines(text) =~= lp + seq![line, Seq::<char>::empty()]);
    }
}

/// The names and records of lines ending in an empty line, and of the
/// same lines with one more non-empty line before it.
proof fn lemma_lines_end(lines: Seq<Seq<char>>, line: Seq<char>)
    requires
        line.len() > 0,
    ensures
        names_of_lines(lines.push(Seq::<char>::empty())) == names_of_lines(lines),
        records_of_lines(lines.push(Seq::<char>::empty())) == records_of_lines(lines),
        names_of_lines(lines + seq![line, Seq::<char>::empty()]) == names_of_lines(lines).push(
            entry_of(line),
        ),
        records_of_lines(lines + seq![line, Seq::<char>::empty()]) == records_of_lines(
            lines,
        ).push(record_of(line)),
{
    let e = Seq::<char>::empty();
    assert(lines.push(e).drop_last() =~= lines);
    let two = lines + seq![line, e];
    assert(two.drop_last() =~= lines.push(line));
    assert(lines.push(line).drop_last() =~= lines);
    assert(two.last() == e);
    assert(lines.push(line).last() == line);
    assert(names_of_lines(two) == names_of_lines(lines.push(line)));
    assert(names_of_lines(lines.push(line)) == names_of_lines(lines).push(entry_of(line)));
    assert(records_of_lines(two) == records_of_lines(lines.push(line)));
    assert(records_of_lines(lines.push(line)) == records_of_lines(lines).push(record_of(line)));
}

/// Text in the written form ends a line and can be read for names and for
/// records.
pub proof fn lemma_well_formed_readable(text: Seq<char>)
    requires
        well_formed_db(text),
    ensures
        ends_line(text),
        is_readable_db(text),
        is_complete_db(text),
{
    let ls = db_lines(text);
    if text.len() > 0 && text.last() != '\n' {
        lemma_split_nonempty(text.drop_last(), '\n');
        let p = split_spec(text.drop_last(), '\n');
        assert(ls.last() == p.last().push(text.last()));
        assert(ls.last().len() > 0);
    }
    assert forall|i: int| 0 <= i < ls.len() implies line_readable(#[trigger] ls[i])
        && line_complete(ls[i]) by {
        if i < ls.len() - 1 {
            assert(line_is_record(ls[i]));
            lemma_split_many_not_free(ls[i], ' ');
        }
    }
}

// ---------------------------------------------------------------------
// Laws
// ---------------------------------------------------------------------

/// Appending the record of a user, three clean fields, to database text
/// that ends a line: the text still ends a line, its names and records
/// are those from before with the new ones added at the end, and it keeps
/// being readable, complete, and in the written form (every line three
/// fields) where it was.
pub proof fn lemma_read_after_insert(
    prev: Seq<char>,
    dc: Seq<char>,
    mc: Seq<char>,
    uuid: Seq<char>,
)
    requires
        ends_line(prev),
        clean_field(dc),
        clean_field(mc),
        clean_field(uuid),
    ensures
        ends_line(prev + entry_text(dc, mc, uuid)),
        names_spec(prev + entry_text(dc, mc, uuid)) == names_spec(prev).push(seq![dc, mc]),
        records_spec(prev + entry_text(dc, mc, uuid)) == records_spec(prev).push(
            seq![dc, mc, uuid],
        ),
        is_readable_db(prev) ==> is_readable_db(prev + entry_text(dc, mc, uuid)),
        is_complete_db(prev) ==> is_complete_db(prev + entry_text(dc, mc, uuid)),
        well_formed_db(prev) ==> well_formed_db(prev + entry_text(dc, mc, uuid)),
{
    let line = record_line(dc, mc, uuid);
    let text = prev + entry_text(dc, mc, uuid);
    lemma_record_line(dc, mc, uuid);
    lemma_append_line(prev, line);
    let l = db_lines(prev).drop_last();
    lemma_lines_end(l, line);
    assert(text.last() == '\n');
    assert(db_lines(text) == l + seq![line, Seq::<char>::empty()]);
    let lt = db_lines(text);
    assert(line_is_record(line));
    lemma_split_many_not_free(line, ' ');
    assert forall|i: int| 0 <= i < lt.len() - 2 implies lt[i] == db_lines(prev)[i] by {
        assert(lt[i] == l[i]);
    }
    if is_readable_db(prev) {
        assert forall|i: int| 0 <= i < lt.len() implies line_readable(#[trigger] lt[i]) by {
            if i < lt.len() - 2 {
                assert(lt[i] == db_lines(prev)[i]);
            }
        }
    }
    if is_complete_db(prev) {
        assert forall|i: int| 0 <= i < lt.len() implies line_complete(#[trigger] lt[i]) by {
            if i < lt.len() - 2 {
                assert(lt[i] == db_lines(prev)[i]);
            }
        }
    }
    if well_formed_db(prev) {
        assert forall|i: int| 0 <= i < lt.len() - 1 implies line_is_record(#[trigger] lt[i]) by {
            if i < lt.len() - 2 {
                assert(lt[i] == db_lines(prev)[i]);
            }
        }
    }
}

/// Writing clean records and reading them back gives the same records,
/// and the text is in the written form.
pub proof fn lemma_read_after_write(records: Seq<Seq<Seq<char>>>)
    requires
        clean_records(records),
    ensures
        well_formed_db(db_text(records)),
        records_spec(db_text(records)) == records,
    decreases records.len(),
{
    if records.len() == 0 {
        let t = db_text(records);
        assert(t =~= Seq::<char>::empty());
        assert(db_lines(t) =~= seq![Seq::<char>::empty()]);
        assert(seq![Seq::<char>::empty()].drop_last() =~= Seq::<Seq<char>>::empty());
        assert(records_of_lines(Seq::<Seq<char>>::empty()) == Seq::<Seq<Seq<char>>>::empty());
        assert(records_spec(t) =~= records);
    } else {
        let rest = records.drop_last();
        assert(clean_records(rest)) by {
            assert forall|i: int| 0 <= i < rest.len() implies {
                &&& (#[trigger] rest[i]).len() == 3
                &&& clean_field(rest[i][0])
                &&& clean_field(rest[i][1])
                &&& clean_field(rest[i][2])
            } by {
                assert(rest[i] == records[i]);
            }
        }
        lemma_read_after_write(rest);
        lemma_well_formed_readable(db_text(rest));
        let e = records.last();
        assert(e == records[records.len() - 1]);
        lemma_read_after_insert(db_text(rest), e[0], e[1], e[2]);
        assert(e =~= seq![e[0], e[1], e[2]]);
        assert(rest.push(e) =~= records);
    }
}

proof fn lemma_kept_lines(lines: Seq<Seq<char>>, username: Seq<char>)
    ensures
        names_of_lines(kept_lines(lines, username)) == kept_entries(
            names_of_lines(lines),
            username,
        ),
        records_of_lines(kept_lines(lines, username)) == kept_entries(
            records_of_lines(lines),
            username,
        ),
        forall|j: int|
            0 <= j < kept_lines(lines, username).len() ==> (#[trigger] kept_lines(
                lines,
                username,
            )[j]).len() > 0 && exists|i: int|
                0 <= i < lines.len() && lines[i] == kept_lines(lines, username)[j],
    decreases lines.len(),
{
    if lines.len() > 0 {
        let rest = lines.drop_last();
        let l = lines.last();
        lemma_kept_lines(rest, username);
        let k = kept_lines(lines, username);
        let kr = kept_lines(rest, username);
        let nr = names_of_lines(rest);
        let rr = records_of_lines(rest);
        if l.len() > 0 {
            assert(names_of_lines(lines) == nr.push(entry_of(l)));
            assert(records_of_lines(lines) == rr.push(record_of(l)));
            assert(nr.push(entry_of(l)).drop_last() =~= nr);
            assert(rr.push(record_of(l)).drop_last() =~= rr);
            assert(record_of(l)[0] == entry_of(l)[0] && record_of(l)[1] == entry_of(l)[1]);
            if !line_mentions(l, username) {
                assert(k == kr.push(l));
                assert(kr.push(l).drop_last() =~= kr);
                assert(names_of_lines(k) == names_of_lines(kr).push(entry_of(l)));
                assert(records_of_lines(k) == records_of_lines(kr).push(record_of(l)));
            } else {
                assert(k == kr);
            }
        } else {
            assert(k == kr);
            assert(names_of_lines(lines) == nr);
            assert(records_of_lines(lines) == rr);
        }
        assert forall|j: int| 0 <= j < k.len() implies (#[trigger] k[j]).len() > 0 && exists|i: int|
            0 <= i < lines.len() && lines[i] == k[j] by {
            if j < kr.len() {
                assert(k[j] == kr[j]);
                let i = choose|i: int| 0 <= i < rest.len() && rest[i] == kr[j];
                assert(lines[i] == rest[i]);
            } else {
                assert(k[j] == l);
                assert(lines[lines.len() - 1] == l);
            }
        }
    }
}

proof fn lemma_kept_entries_leave_out(entries: Seq<Seq<Seq<char>>>, username: Seq<char>)
    ensures
        forall|i: int|
            0 <= i < kept_entries(entries, username).len() ==> (#[trigger] kept_entries(
                entries,
                username,
            )[i])[0] != username && kept_entries(entries, username)[i][1] != username,
    decreases entries.len(),
{
    if entries.len() > 0 {
        let rest = entries.drop_last();
        lemma_kept_entries_leave_out(rest, username);
        let k = kept_entries(entries, username);
        let kr = kept_entries(rest, username);
        assert forall|i: int| 0 <= i < k.len() implies (#[trigger] k[i])[0] != username && k[i][1]
            != username by {
            if i < kr.len() {
                assert(k[i] == kr[i]);
            }
        }
    }
}

/// Removing a user from readable database text: the names read back are
/// those from before that mention the user on neither side, in order, and
/// none mentions the user; where the text could be read for records, or was
/// in the written form, the records read back are likewise those that do
/// not mention the user, and the form is kept.
pub proof fn lemma_read_after_remove(text: Seq<char>, username: Seq<char>)
    requires
        is_readable_db(text),
    ensures
        is_readable_db(lines_text(kept_lines(db_lines(text), username))),
        names_spec(lines_text(kept_lines(db_lines(text), username))) == kept_entries(
            names_spec(text),
            username,
        ),
        forall|i: int|
            0 <= i < names_spec(lines_text(kept_lines(db_lines(text), username))).len() ==> (
            #[trigger] names_spec(lines_text(kept_lines(db_lines(text), username)))[i])[0]
                != username && names_spec(lines_text(kept_lines(db_lines(text), username)))[i][1]
                != username,
        is_complete_db(text) ==> is_complete_db(lines_text(kept_lines(db_lines(text), username)))
            && records_spec(lines_text(kept_lines(db_lines(text), username))) == kept_entries(
            records_spec(text),
            username,
        ),
        well_formed_db(text) ==> well_formed_db(
            lines_text(kept_lines(db_lines(text), username)),
        ),
{
    let ls = db_lines(text);
    let k = kept_lines(ls, username);
    let out = lines_text(k);
    lemma_kept_lines(ls, username);
    lemma_split_pieces_free(text, '\n');
    assert forall|j: int| 0 <= j < k.len() implies free_of(#[trigger] k[j], '\n') by {
        let i = choose|i: int| 0 <= i < ls.len() && ls[i] == k[j];
    }
    lemma_split_lines_text(k);
    assert(db_lines(out) == k.push(Seq::<char>::empty()));
    lemma_lines_end(k, seq![' ']);
    lemma_kept_entries_leave_out(names_spec(text), username);
    let lo = db_lines(out);
    assert forall|j: int| 0 <= j < lo.len() implies line_readable(#[trigger] lo[j]) by {
        if j < k.len() {
            assert(lo[j] == k[j]);
            let i = choose|i: int| 0 <= i < ls.len() && ls[i] == k[j];
            assert(line_readable(ls[i]));
        }
    }
    if is_complete_db(text) {
        assert forall|j: int| 0 <= j < lo.len() implies line_complete(#[trigger] lo[j]) by {
            if j < k.len() {
                assert(lo[j] == k[j]);
                let i = choose|i: int| 0 <= i < ls.len() && ls[i] == k[j];
                assert(line_complete(ls[i]));
            }
        }
    }
    if well_formed_db(text) {
        assert forall|j: int| 0 <= j < lo.len() - 1 implies line_is_record(#[trigger] lo[j]) by {
            assert(lo[j] == k[j]);
            let i = choose|i: int| 0 <= i < ls.len() && ls[i] == k[j];
            if i == ls.len() - 1 {
                assert(k[j].len() > 0);
            }
        }
    }
}

// ---------------------------------------------------------------------
// Executable functions
// ---------------------------------------------------------------------

/// Whether every line of the database text can be read for names
/// (`is_readable_db`).
pub fn db_is_readable(text: &str) -> (r: bool)
    ensures
        r == is_readable_db(text@),
{
    let lines = split_on(text, '\n');
    let mut i: usize = 0;
    while i < lines.len()
        invariant
            lines.deep_view() == db_lines(text@),
            i <= lines@.len(),
            forall|k: int| 0 <= k < i ==> line_readable(#[trigger] db_lines(text@)[k]),
        decreases lines.len() - i,
    {
        assert(lines.deep_view()[i as int] == lines@[i as int]@);
        let fields = split_on(lines[i].as_str(), ' ');
        if !lines[i].as_str().is_empty() && fields.len() < 2 {
            proof {
                if !free_of(lines@[i as int]@, ' ') {
                    lemma_split_two(lines@[i as int]@, ' ');
                }
            }
            return false;
        }
        proof {
            if lines@[i as int]@.len() != 0 && fields@.len() >= 2 {
                lemma_split_many_not_free(lines@[i as int]@, ' ');
            }
        }
        i = i + 1;
    }
    true
}

/// Whether every line of the database text can be read for records
/// (`is_complete_db`).
pub fn db_is_complete(text: &str) -> (r: bool)
    ensures
        r == is_complete_db(text@),
{
    let lines = split_on(text, '\n');
    let mut i: usize = 0;
    while i < lines.len()
        invariant
            lines.deep_view() == db_lines(text@),
            i <= lines@.len(),
            forall|k: int| 0 <= k < i ==> line_complete(#[trigger] db_lines(text@)[k]),
        decreases lines.len() - i,
    {
        assert(lines.deep_view()[i as int] == lines@[i as int]@);
        let fields = split_on(lines[i].as_str(), ' ');
        if !lines[i].as_str().is_empty() && fields.len() < 3 {
            return false;
        }
        i = i + 1;
    }
    true
}

/// The database text with one more user recorded at the end: the Discord
/// mention, the Minecraft name and the Minecraft UUID, separated by spaces,
/// and a line break.
pub fn insert_name_to_db(previous_text: &str, dc_user: &str, mc_user: &str, mc_uuid: &str) -> (r:
    String)
    ensures
        r@ == previous_text@ + entry_text(dc_user@, mc_user@, mc_uuid@),
{
    let mut r = previous_text.to_string();
    r.append(dc_user);
    r.append(" ");
    r.append(mc_user);
    r.append(" ");
    r.append(mc_uuid);
    r.append("\n");
    proof {
        reveal_strlit(" ");
        reveal_strlit("\n");
    }
    assert(r@ =~= previous_text@ + entry_text(dc_user@, mc_user@, mc_uuid@));
    r
}

/// All the links that the database text holds, in order, each as
/// `[discord, minecraft]`.
pub fn get_names(text: &str) -> (r: Vec<[String; 2]>)
    requires
        is_readable_db(text@),
    ensures
        r.deep_view() == names_spec(text@),
{
    let lines = split_on(text, '\n');
    let mut return_vec: Vec<[String; 2]> = Vec::new();
    let mut i: usize = 0;
    assert(lines.deep_view().take(0) =~= Seq::<Seq<char>>::empty());
    assert(return_vec.deep_view() =~= Seq::<Seq<Seq<char>>>::empty());
    while i < lines.len()
        invariant
            lines.deep_view() == db_lines(text@),
            is_readable_db(text@),
            i <= lines@.len(),
            return_vec.deep_view() == names_of_lines(lines.deep_view().take(i as int)),
        decreases lines.len() - i,
    {
        let line = &lines[i];
        let ghost lv = lines.deep_view();
        assert(lv[i as int] == line@);
        assert(lv.take(i + 1).drop_last() =~= lv.take(i as int));
        assert(lv.take(i + 1).last() == line@);
        let ghost before = return_vec.deep_view();
        if line.as_str().is_empty() {
        } else {
            assert(line_readable(db_lines(text@)[i as int]));
            proof {
                lemma_split_two(line@, ' ');
            }
            let names = split_on(line.as_str(), ' ');
            assert(names.deep_view()[0] == names@[0]@);
            assert(names.deep_view()[1] == names@[1]@);
            let dc_name = names[0].clone();
            let mc_name = names[1].clone();
            let entry = [dc_name, mc_name];
            return_vec.push(entry);
            assert(entry.deep_view() =~= entry_of(line@));
            assert(return_vec.deep_view() =~= before.push(entry_of(line@)));
        }
        i = i + 1;
    }
    assert(lines.deep_view().take(lines.len() as int) =~= lines.deep_view());
    return_vec
}

/// All the records that the database text holds, in order, each as
/// `[discord, minecraft name, minecraft uuid]`.
pub fn get_records(text: &str) -> (r: Vec<[String; 3]>)
    requires
        is_complete_db(text@),
    ensures
        r.deep_view() == records_spec(text@),
{
    let lines = split_on(text, '\n');
    let mut return_vec: Vec<[String; 3]> = Vec::new();
    let mut i: usize = 0;
    assert(lines.deep_view().take(0) =~= Seq::<Seq<char>>::empty());
    assert(return_vec.deep_view() =~= Seq::<Seq<Seq<char>>>::empty());
    while i < lines.len()
        invariant
            lines.deep_view() == db_lines(text@),
            is_complete_db(text@),
            i <= lines@.len(),
            return_vec.deep_view() == records_of_lines(lines.deep_view().take(i as int)),
        decreases lines.len() - i,
    {
        let line = &lines[i];
        let ghost lv = lines.deep_view();
        assert(lv[i as int] == line@);
        assert(lv.take(i + 1).drop_last() =~= lv.take(i as int));
        assert(lv.take(i + 1).last() == line@);
        let ghost before = return_vec.deep_view();
        if line.as_str().is_empty() {
        } else {
            assert(line_complete(db_lines(text@)[i as int]));
            let fields = split_on(line.as_str(), ' ');
            assert(fields.deep_view()[0] == fields@[0]@);
            assert(fields.deep_view()[1] == fields@[1]@);
            assert(fields.deep_view()[2] == fields@[2]@);
            let record = [fields[0].clone(), fields[1].clone(), fields[2].clone()];
            return_vec.push(record);
            assert(record.deep_view() =~= record_of(line@));
            assert(return_vec.deep_view() =~= before.push(record_of(line@)));
        }
        i = i + 1;
    }
    assert(lines.deep_view().take(lines.len() as int) =~= lines.deep_view());
    return_vec
}

/// The database text with every line that mentions `username` in its
/// first or second field taken out, and the empty lines with them; the
/// other lines are kept as they are, in order, each with its line break.
pub fn remove_name_from_db(text: &str, username: &str) -> (r: String)
    requires
        is_readable_db(text@),
    ensures
        r@ == lines_text(kept_lines(db_lines(text@), username@)),
{
    let lines = split_on(text, '\n');
    let mut out = String::new();
    let mut i: usize = 0;
    assert(lines.deep_view().take(0) =~= Seq::<Seq<char>>::empty());
    while i < lines.len()
        invariant
            lines.deep_view() == db_lines(text@),
            is_readable_db(text@),
            i <= lines@.len(),
            out@ == lines_text(kept_lines(lines.deep_view().take(i as int), username@)),
        decreases lines.len() - i,
    {
        let line = &lines[i];
        let ghost lv = lines.deep_view();
        let ghost before = out@;
        assert(lv[i as int] == line@);
        assert(lv.take(i + 1).drop_last() =~= lv.take(i as int));
        assert(lv.take(i + 1).last() == line@);
        if !line.as_str().is_empty() {
            assert(line_readable(db_lines(text@)[i as int]));
            proof {
                lemma_split_two(line@, ' ');
            }
            let fields = split_on(line.as_str(), ' ');
            assert(fields.deep_view()[0] == fields@[0]@);
            assert(fields.deep_view()[1] == fields@[1]@);
            assert(entry_of(line@)[0] == fields@[0]@ && entry_of(line@)[1] == fields@[1]@);
            let ghost kb = kept_lines(lv.take(i as int), username@);
            if !same_text(fields[0].as_str(), username) && !same_text(fields[1].as_str(), username) {
                assert(kept_lines(lv.take(i + 1), username@) == kb.push(line@));
                assert(kb.push(line@).drop_last() =~= kb);
                assert(lines_text(kb.push(line@)) == lines_text(kb) + line@.push('\n'));
                out.append(line.as_str());
                out.append("\n");
                proof {
                    reveal_strlit("\n");
                }
                assert(out@ =~= before + line@.push('\n'));
            }
        }
        i = i + 1;
    }
    assert(lines.deep_view().take(lines.len() as int) =~= lines.deep_view());
    out
}

} // verus!
