//! Character-level text handling: splitting on a separator, prefix and
//! suffix tests, and decimal integers in the form that std's `str::parse`
//! accepts and `to_string` writes.
use vstd::prelude::*;

verus! {

broadcast use vstd::string::group_string_axioms;

// ---------------------------------------------------------------------
// Splitting
// ---------------------------------------------------------------------

/// The pieces of `s` between occurrences of `sep`, as `str::split` with a
/// one-character pattern yields them: always at least one piece, empty
/// pieces kept.
pub open spec fn split_spec(s: Seq<char>, sep: char) -> Seq<Seq<char>>
    decreases s.len(),
{
    if s.len() == 0 {
        seq![Seq::<char>::empty()]
    } else {
        let p = split_spec(s.drop_last(), sep);
        if s.last() == sep {
            p.push(Seq::<char>::empty())
        } else {
            p.update(p.len() - 1, p.last().push(s.last()))
        }
    }
}

/// The pieces joined back together, `sep` between each two.
pub open spec fn join_spec(pieces: Seq<Seq<char>>, sep: char) -> Seq<char>
    decreases pieces.len(),
{
    if pieces.len() == 0 {
        Seq::<char>::empty()
    } else if pieces.len() == 1 {
        pieces[0]
    } else {
        join_spec(pieces.drop_last(), sep).push(sep) + pieces.last()
    }
}

/// `c` does not occur in `s`.
pub open spec fn free_of(s: Seq<char>, c: char) -> bool {
    forall|i: int| 0 <= i < s.len() ==> s[i] != c
}

pub proof fn lemma_split_nonempty(s: Seq<char>, sep: char)
    ensures
        split_spec(s, sep).len() >= 1,
    decreases s.len(),
{
    if s.len() > 0 {
        lemma_split_nonempty(s.drop_last(), sep);
    }
}

/// Text without the separator is a single piece.
pub proof fn lemma_split_free(s: Seq<char>, sep: char)
    requires
        free_of(s, sep),
    ensures
        split_spec(s, sep) == seq![s],
    decreases s.len(),
{
    if s.len() > 0 {
        assert(free_of(s.drop_last(), sep)) by {
            assert forall|i: int| 0 <= i < s.drop_last().len() implies s.drop_last()[i] != sep by {
                assert(s.drop_last()[i] == s[i]);
            }
        }
        lemma_split_free(s.drop_last(), sep);
        assert(s.last() == s[s.len() - 1]);
        assert(s.drop_last().push(s.last()) =~= s);
        assert(seq![s.drop_last()].update(0, s.drop_last().push(s.last())) =~= seq![s]);
    } else {
        assert(s =~= Seq::<char>::empty());
    }
}

/// Splitting text that holds the separator at a known place: the pieces
/// of the part before it, then those of the part after it.
pub proof fn lemma_split_concat(a: Seq<char>, b: Seq<char>, sep: char)
    ensures
        split_spec(a.push(sep) + b, sep) == split_spec(a, sep) + split_spec(b, sep),
    decreases b.len(),
{
    lemma_split_nonempty(a, sep);
    if b.len() == 0 {
        assert(a.push(sep) + b =~= a.push(sep));
        assert(a.push(sep).drop_last() =~= a);
        assert(split_spec(a, sep) + split_spec(b, sep) =~= split_spec(a, sep).push(
            Seq::<char>::empty(),
        ));
    } else {
        let whole = a.push(sep) + b;
        lemma_split_concat(a, b.drop_last(), sep);
        lemma_split_nonempty(b.drop_last(), sep);
        assert(whole.drop_last() =~= a.push(sep) + b.drop_last());
        assert(whole.last() == b.last());
        let pa = split_spec(a, sep);
        let pb = split_spec(b.drop_last(), sep);
        if b.last() == sep {
            assert((pa + pb).push(Seq::<char>::empty()) =~= pa + pb.push(Seq::<char>::empty()));
        } else {
            assert((pa + pb).update(
                (pa + pb).len() - 1,
                (pa + pb).last().push(b.last()),
            ) =~= pa + pb.update(pb.len() - 1, pb.last().push(b.last())));
        }
    }
}

/// No piece holds the separator.
pub proof fn lemma_split_pieces_free(s: Seq<char>, sep: char)
    ensures
        forall|i: int|
            0 <= i < split_spec(s, sep).len() ==> free_of(#[trigger] split_spec(s, sep)[i], sep),
    decreases s.len(),
{
    if s.len() > 0 {
        lemma_split_pieces_free(s.drop_last(), sep);
        lemma_split_nonempty(s.drop_last(), sep);
    }
}

/// A piece holds no character that the whole text lacks.
pub proof fn lemma_split_pieces_keep_free(s: Seq<char>, sep: char, c: char)
    requires
        free_of(s, c),
    ensures
        forall|i: int|
            0 <= i < split_spec(s, sep).len() ==> free_of(#[trigger] split_spec(s, sep)[i], c),
    decreases s.len(),
{
    if s.len() > 0 {
        lemma_split_pieces_keep_free(s.drop_last(), sep, c);
        lemma_split_nonempty(s.drop_last(), sep);
        assert(s.last() == s[s.len() - 1]);
    }
}

/// Splitting on `sep` and joining with `sep` gives the text back.
pub proof fn lemma_join_split(s: Seq<char>, sep: char)
    ensures
        join_spec(split_spec(s, sep), sep) == s,
    decreases s.len(),
{
    if s.len() > 0 {
        let p = split_spec(s.drop_last(), sep);
        lemma_join_split(s.drop_last(), sep);
        lemma_split_nonempty(s.drop_last(), sep);
        if s.last() == sep {
            let q = p.push(Seq::<char>::empty());
            assert(q.drop_last() =~= p);
            assert(join_spec(q, sep) =~= s);
        } else {
            let q = p.update(p.len() - 1, p.last().push(s.last()));
            if p.len() == 1 {
                assert(join_spec(q, sep) =~= s);
            } else {
                assert(q.drop_last() =~= p.drop_last());
                assert(q.last() == p.last().push(s.last()));
                assert(join_spec(p, sep) == join_spec(p.drop_last(), sep).push(sep) + p.last());
                assert(join_spec(q, sep) == join_spec(p.drop_last(), sep).push(sep) + p.last().push(
                    s.last(),
                ));
                assert(s.drop_last().push(s.last()) =~= s);
                assert(join_spec(q, sep) =~= s);
            }
        }
    }
}

/// Text written line by line: each line followed by a line break.
pub open spec fn lines_text(lines: Seq<Seq<char>>) -> Seq<char>
    decreases lines.len(),
{
    if lines.len() == 0 {
        Seq::empty()
    } else {
        lines_text(lines.drop_last()) + lines.last().push('\n')
    }
}

pub proof fn lemma_lines_text_ends_line(lines: Seq<Seq<char>>)
    ensures
        lines_text(lines).len() == 0 || lines_text(lines).last() == '\n',
{
    if lines.len() > 0 {
        let t = lines_text(lines);
        assert(t.last() == lines.last().push('\n').last());
    }
}

/// The lines of text written line by line are those lines, then one empty
/// line.
pub proof fn lemma_split_lines_text(lines: Seq<Seq<char>>)
    requires
        forall|i: int| 0 <= i < lines.len() ==> free_of(#[trigger] lines[i], '\n'),
    ensures
        split_spec(lines_text(lines), '\n') == lines.push(Seq::<char>::empty()),
    decreases lines.len(),
{
    if lines.len() == 0 {
        assert(lines_text(lines) =~= Seq::<char>::empty());
        assert(lines.push(Seq::<char>::empty()) =~= seq![Seq::<char>::empty()]);
    } else {
        let rest = lines.drop_last();
        let u = lines.last();
        assert(free_of(u, '\n')) by {
            assert(u == lines[lines.len() - 1]);
        }
        assert forall|i: int| 0 <= i < rest.len() implies free_of(#[trigger] rest[i], '\n') by {
            assert(rest[i] == lines[i]);
        }
        lemma_split_lines_text(rest);
        lemma_lines_text_ends_line(rest);
        lemma_split_free(u, '\n');
        lemma_split_concat(u, Seq::<char>::empty(), '\n');
        assert(u.push('\n') + Seq::<char>::empty() =~= u.push('\n'));
        let t = lines_text(rest);
        if t.len() == 0 {
            assert(lines_text(lines) =~= u.push('\n'));
            assert(rest =~= Seq::<Seq<char>>::empty()) by {
                if rest.len() > 0 {
                    assert(split_spec(t, '\n').len() == rest.len() + 1);
                    assert(t =~= Seq::<char>::empty());
                }
            }
            assert(lines.push(Seq::<char>::empty()) =~= seq![u] + seq![Seq::<char>::empty()]);
        } else {
            let p = t.drop_last();
            assert(t =~= p.push('\n') + Seq::<char>::empty());
            assert(lines_text(lines) =~= p.push('\n') + u.push('\n'));
            lemma_split_concat(p, Seq::<char>::empty(), '\n');
            lemma_split_concat(p, u.push('\n'), '\n');
            assert(split_spec(Seq::<char>::empty(), '\n') =~= seq![Seq::<char>::empty()]);
            assert(split_spec(p, '\n') + seq![Seq::<char>::empty()] =~= rest.push(
                Seq::<char>::empty(),
            ));
            assert(split_spec(p, '\n') =~= rest) by {
                let a = split_spec(p, '\n') + seq![Seq::<char>::empty()];
                assert(a.drop_last() =~= split_spec(p, '\n'));
                assert(rest.push(Seq::<char>::empty()).drop_last() =~= rest);
            }
            assert(lines.push(Seq::<char>::empty()) =~= rest + seq![u, Seq::<char>::empty()]);
        }
    }
}

/// The characters of `s`, in order.
pub fn chars_of(s: &str) -> (r: Vec<char>)
    ensures
        r@ == s@,
{
    let mut r: Vec<char> = Vec::new();
    for c in it: s.chars()
        invariant
            r@ == it.seq().take(it.index() as int),
            it.seq() == s@,
    {
        r.push(c);
    }
    r
}

/// `str::split` with a one-character pattern, pieces collected as owned
/// strings.
pub fn split_on(s: &str, sep: char) -> (r: Vec<String>)
    ensures
        r.deep_view() == split_spec(s@, sep),
{
    let cs = chars_of(s);
    let n = cs.len();
    let mut pieces: Vec<String> = Vec::new();
    let mut start: usize = 0;
    let mut i: usize = 0;
    assert(s@.take(0) =~= Seq::<char>::empty());
    assert(pieces.deep_view().push(s@.subrange(0, 0)) =~= seq![Seq::<char>::empty()]);
    while i < n
        invariant
            n == cs@.len(),
            cs@ == s@,
            start <= i <= n,
            split_spec(s@.take(i as int), sep) == pieces.deep_view().push(
                s@.subrange(start as int, i as int),
            ),
        decreases n - i,
    {
        let ghost before = pieces.deep_view();
        assert(s@.take(i + 1).drop_last() =~= s@.take(i as int));
        assert(s@.take(i + 1).last() == s@[i as int]);
        if cs[i] == sep {
            let piece = s.substring_char(start, i).to_string();
            pieces.push(piece);
            assert(pieces.deep_view() =~= before.push(s@.subrange(start as int, i as int)));
            start = i + 1;
            assert(s@.subrange(start as int, i + 1) =~= Seq::<char>::empty());
        } else {
            assert(s@.subrange(start as int, i as int).push(s@[i as int]) =~= s@.subrange(
                start as int,
                i + 1,
            ));
            assert(before.push(s@.subrange(start as int, i as int)).update(
                before.len() as int,
                s@.subrange(start as int, i + 1),
            ) =~= before.push(s@.subrange(start as int, i + 1)));
        }
        i = i + 1;
    }
    let last = s.substring_char(start, n).to_string();
    let ghost before = pieces.deep_view();
    pieces.push(last);
    assert(pieces.deep_view() =~= before.push(s@.subrange(start as int, n as int)));
    assert(s@.take(n as int) =~= s@);
    pieces
}

// ---------------------------------------------------------------------
// Comparing
// ---------------------------------------------------------------------

/// Whether two texts are the same, character by character.
pub fn same_text(a: &str, b: &str) -> (r: bool)
    ensures
        r == (a@ == b@),
{
    let x = chars_of(a);
    let y = chars_of(b);
    if x.len() != y.len() {
        return false;
    }
    let mut i: usize = 0;
    while i < x.len()
        invariant
            x@ == a@,
            y@ == b@,
            x@.len() == y@.len(),
            i <= x@.len(),
            forall|j: int| 0 <= j < i ==> x@[j] == y@[j],
        decreases x.len() - i,
    {
        if x[i] != y[i] {
            return false;
        }
        i = i + 1;
    }
    assert(a@ =~= b@);
    true
}

/// `str::starts_with` with a text pattern.
pub fn starts_with(s: &str, prefix: &str) -> (r: bool)
    ensures
        r == prefix@.is_prefix_of(s@),
{
    let x = chars_of(s);
    let p = chars_of(prefix);
    if p.len() > x.len() {
        return false;
    }
    let mut i: usize = 0;
    while i < p.len()
        invariant
            x@ == s@,
            p@ == prefix@,
            p@.len() <= x@.len(),
            i <= p@.len(),
            forall|j: int| 0 <= j < i ==> p@[j] == x@[j],
        decreases p.len() - i,
    {
        if p[i] != x[i] {
            assert(s@.subrange(0, prefix@.len() as int)[i as int] == x@[i as int]);
            return false;
        }
        i = i + 1;
    }
    assert(prefix@ =~= s@.subrange(0, prefix@.len() as int));
    true
}

/// `str::ends_with` with a text pattern.
pub fn ends_with(s: &str, suffix: &str) -> (r: bool)
    ensures
        r == suffix@.is_suffix_of(s@),
{
    let x = chars_of(s);
    let p = chars_of(suffix);
    if p.len() > x.len() {
        return false;
    }
    let off = x.len() - p.len();
    let mut i: usize = 0;
    while i < p.len()
        invariant
            x@ == s@,
            p@ == suffix@,
            off + p@.len() == x@.len(),
            x@.len() == x.len(),
            i <= p@.len(),
            forall|j: int| 0 <= j < i ==> p@[j] == x@[off + j],
        decreases p.len() - i,
    {
        if p[i] != x[off + i] {
            assert(s@.subrange(off as int, s@.len() as int)[i as int] == x@[off + i]);
            return false;
        }
        i = i + 1;
    }
    assert(suffix@ =~= s@.subrange(off as int, s@.len() as int));
    true
}

/// The rest of `s` after `prefix`, where `s` starts with it
/// (`str::strip_prefix`).
pub fn strip_prefix(s: &str, prefix: &str) -> (r: Option<String>)
    ensures
        match r {
            Some(rest) => prefix@.is_prefix_of(s@) && rest@ == s@.skip(prefix@.len() as int),
            None => !prefix@.is_prefix_of(s@),
        },
{
    if starts_with(s, prefix) {
        let n = chars_of(s).len();
        let k = chars_of(prefix).len();
        let rest = s.substring_char(k, n).to_string();
        assert(rest@ =~= s@.skip(prefix@.len() as int));
        Some(rest)
    } else {
        None
    }
}

/// `s` with every occurrence of `c` taken out (`str::replace` of a
/// one-character text by the empty text).
pub fn remove_char(s: &str, c: char) -> (r: String)
    ensures
        r@ == s@.filter(|x: char| x != c),
{
    let cs = chars_of(s);
    let mut out = String::new();
    let mut i: usize = 0;
    assert(s@.take(0).filter(|x: char| x != c) =~= Seq::<char>::empty()) by {
        reveal(Seq::filter);
    }
    while i < cs.len()
        invariant
            cs@ == s@,
            i <= cs@.len(),
            out@ == s@.take(i as int).filter(|x: char| x != c),
        decreases cs.len() - i,
    {
        let ghost before = out@;
        assert(s@.take(i + 1).drop_last() =~= s@.take(i as int));
        assert(s@.take(i + 1).last() == s@[i as int]);
        assert(s@.take(i + 1).filter(|x: char| x != c) == if s@[i as int] != c {
            s@.take(i as int).filter(|x: char| x != c).push(s@[i as int])
        } else {
            s@.take(i as int).filter(|x: char| x != c)
        }) by {
            reveal(Seq::filter);
        }
        if cs[i] != c {
            let one = s.substring_char(i, i + 1);
            out.append(one);
            assert(one@ =~= seq![s@[i as int]]);
        }
        i = i + 1;
    }
    assert(s@.take(cs.len() as int) =~= s@);
    out
}

/// The lowercase form of a text under Unicode's case rules, as
/// `str::to_lowercase` computes it.
pub uninterp spec fn lowercase_spec(s: Seq<char>) -> Seq<char>;

/// Every character of the text is ASCII.
pub open spec fn is_ascii_text(s: Seq<char>) -> bool {
    forall|i: int| 0 <= i < s.len() ==> (#[trigger] s[i] as u32) < 128
}

/// An ASCII capital letter as its small letter; any other character as it
/// is.
pub open spec fn ascii_lower_char(c: char) -> char {
    if 'A' <= c && c <= 'Z' {
        ((c as u32) + 32) as char
    } else {
        c
    }
}

pub open spec fn ascii_lowercase(s: Seq<char>) -> Seq<char> {
    s.map_values(|c: char| ascii_lower_char(c))
}

/// The lowercase form of a text: on ASCII text, capital letters turned to
/// small ones and all else kept; on other text, `lowercase_spec`.
pub open spec fn lowercase_of(s: Seq<char>) -> Seq<char> {
    if is_ascii_text(s) {
        ascii_lowercase(s)
    } else {
        lowercase_spec(s)
    }
}

/// `str::to_lowercase`. Its result is a function of the text alone, named
/// `lowercase_spec`; on ASCII text it maps `A`..`Z` to `a`..`z` and keeps
/// every other character, as Unicode's lowercase mapping does there. The
/// case tables it follows beyond ASCII are not stated.
#[verifier::external_body]
pub(crate) fn to_lowercase(s: &str) -> (r: String)
    ensures
        r@ == lowercase_spec(s@),
        is_ascii_text(s@) ==> r@ == ascii_lowercase(s@),
{
    s.to_lowercase()
}

// ---------------------------------------------------------------------
// Decimal integers
// ---------------------------------------------------------------------

pub open spec fn is_digit(c: char) -> bool {
    '0' <= c && c <= '9'
}

pub open spec fn all_digits(s: Seq<char>) -> bool {
    forall|i: int| 0 <= i < s.len() ==> is_digit(#[trigger] s[i])
}

pub open spec fn digit_value(c: char) -> nat {
    (c as int - '0' as int) as nat
}

/// The number that a run of decimal digits denotes.
pub open spec fn digits_value(s: Seq<char>) -> nat
    decreases s.len(),
{
    if s.len() == 0 {
        0
    } else {
        digits_value(s.drop_last()) * 10 + digit_value(s.last())
    }
}

/// A run of one or more decimal digits.
pub open spec fn is_numeral(s: Seq<char>) -> bool {
    s.len() > 0 && all_digits(s)
}

/// What `s.parse::<u64>()` gives: an optional `+`, then one or more
/// decimal digits whose value fits in a `u64`.
pub open spec fn parse_u64_spec(s: Seq<char>) -> Option<u64> {
    let body = if s.len() > 0 && s[0] == '+' {
        s.drop_first()
    } else {
        s
    };
    if is_numeral(body) && digits_value(body) <= u64::MAX {
        Some(digits_value(body) as u64)
    } else {
        None
    }
}

/// What `s.parse::<i64>()` gives: an optional `+` or `-`, then one or
/// more decimal digits whose signed value fits in an `i64`.
pub open spec fn parse_i64_spec(s: Seq<char>) -> Option<i64> {
    if s.len() > 0 && s[0] == '-' {
        let body = s.drop_first();
        if is_numeral(body) && digits_value(body) <= 0x8000_0000_0000_0000 {
            Some((0 - digits_value(body)) as i64)
        } else {
            None
        }
    } else {
        let body = if s.len() > 0 && s[0] == '+' {
            s.drop_first()
        } else {
            s
        };
        if is_numeral(body) && digits_value(body) <= i64::MAX {
            Some(digits_value(body) as i64)
        } else {
            None
        }
    }
}

pub open spec fn digit_char(d: nat) -> char {
    ('0' as int + d) as char
}

/// The decimal numeral of `n`, without leading zeros, as `to_string`
/// writes it.
pub open spec fn decimal_spec(n: nat) -> Seq<char>
    decreases n,
{
    if n < 10 {
        seq![digit_char(n)]
    } else {
        decimal_spec(n / 10).push(digit_char(n % 10))
    }
}

/// The numeral of a signed number: a `-` before the numeral of its
/// magnitude when it is negative.
pub open spec fn signed_decimal_spec(n: int) -> Seq<char> {
    if n < 0 {
        seq!['-'] + decimal_spec((0 - n) as nat)
    } else {
        decimal_spec(n as nat)
    }
}

proof fn lemma_digits_value_prefix(s: Seq<char>, k: int)
    requires
        0 <= k <= s.len(),
    ensures
        digits_value(s.take(k)) <= digits_value(s),
    decreases s.len(),
{
    if k < s.len() {
        assert(s.drop_last().take(k) =~= s.take(k));
        lemma_digits_value_prefix(s.drop_last(), k);
    } else {
        assert(s.take(k) =~= s);
    }
}

/// The digits of `cs` from `start` on, read as a number, when they are all
/// digits, at least one, and the number fits in a `u64`.
fn parse_digits(cs: &Vec<char>, start: usize) -> (r: Option<u64>)
    requires
        start <= cs@.len(),
    ensures
        match r {
            Some(v) => is_numeral(cs@.skip(start as int)) && v == digits_value(
                cs@.skip(start as int),
            ),
            None => !(is_numeral(cs@.skip(start as int)) && digits_value(cs@.skip(start as int))
                <= u64::MAX),
        },
{
    let ghost body = cs@.skip(start as int);
    if start == cs.len() {
        return None;
    }
    let mut acc: u64 = 0;
    let mut i: usize = start;
    assert(body.take(0) =~= Seq::<char>::empty());
    while i < cs.len()
        invariant
            start <= i <= cs@.len(),
            body == cs@.skip(start as int),
            all_digits(body.take(i - start)),
            acc as nat == digits_value(body.take(i - start)),
        decreases cs.len() - i,
    {
        let c = cs[i];
        let k: usize = i - start;
        assert(body[k as int] == c);
        assert(body.take(k + 1).drop_last() =~= body.take(k as int));
        assert(body.take(k + 1).last() == c);
        if !(c >= '0' && c <= '9') {
            return None;
        }
        let d: u64 = (c as u32 - '0' as u32) as u64;
        assert(d as nat == digit_value(c));
        if acc > (u64::MAX - d) / 10 {
            assert(digits_value(body.take(k + 1)) > u64::MAX) by (nonlinear_arith)
                requires
                    acc > (u64::MAX - d) / 10,
                    digits_value(body.take(k + 1)) == acc * 10 + d,
                    d <= 9,
            ;
            proof {
                lemma_digits_value_prefix(body, k + 1);
            }
            return None;
        }
        assert(acc * 10 + d <= u64::MAX) by (nonlinear_arith)
            requires
                acc <= (u64::MAX - d) / 10,
                d <= 9,
        ;
        acc = acc * 10 + d;
        i = i + 1;
        assert(all_digits(body.take(i - start))) by {
            assert forall|j: int| 0 <= j < body.take(i - start).len() implies is_digit(
                #[trigger] body.take(i - start)[j],
            ) by {
                if j < k {
                    assert(body.take(i - start)[j] == body.take(k as int)[j]);
                }
            }
        }
    }
    assert(body.take(i - start) =~= body);
    Some(acc)
}

/// `s.parse::<u64>().ok()`.
pub fn parse_u64(s: &str) -> (r: Option<u64>)
    ensures
        r == parse_u64_spec(s@),
{
    let cs = chars_of(s);
    let start: usize = if cs.len() > 0 && cs[0] == '+' {
        1
    } else {
        0
    };
    assert(cs@.skip(start as int) == (if s@.len() > 0 && s@[0] == '+' {
        s@.drop_first()
    } else {
        s@
    }));
    parse_digits(&cs, start)
}

/// `s.parse::<i64>().ok()`.
pub fn parse_i64(s: &str) -> (r: Option<i64>)
    ensures
        r == parse_i64_spec(s@),
{
    let cs = chars_of(s);
    if cs.len() > 0 && cs[0] == '-' {
        assert(cs@.skip(1) =~= s@.drop_first());
        match parse_digits(&cs, 1) {
            Some(v) => {
                if v <= 0x8000_0000_0000_0000u64 {
                    if v == 0x8000_0000_0000_0000u64 {
                        Some(i64::MIN)
                    } else {
                        Some(0 - (v as i64))
                    }
                } else {
                    None
                }
            },
            None => None,
        }
    } else {
        let start: usize = if cs.len() > 0 && cs[0] == '+' {
            1
        } else {
            0
        };
        assert(cs@.skip(start as int) == (if s@.len() > 0 && s@[0] == '+' {
            s@.drop_first()
        } else {
            s@
        }));
        match parse_digits(&cs, start) {
            Some(v) => {
                if v <= i64::MAX as u64 {
                    Some(v as i64)
                } else {
                    None
                }
            },
            None => None,
        }
    }
}

/// The one-character text of the digit `d`.
fn digit_text(d: u64) -> (r: &'static str)
    requires
        d < 10,
    ensures
        r@ == seq![digit_char(d as nat)],
{
    let table = "0123456789";
    proof {
        reveal_strlit("0123456789");
    }
    let r = table.substring_char(d as usize, (d + 1) as usize);
    assert(r@ =~= seq![digit_char(d as nat)]);
    r
}

/// `n.to_string()` for a `u64`.
pub fn format_u64(n: u64) -> (r: String)
    ensures
        r@ == decimal_spec(n as nat),
    decreases n,
{
    if n < 10 {
        let mut r = String::new();
        r.append(digit_text(n));
        r
    } else {
        let mut r = format_u64(n / 10);
        r.append(digit_text(n % 10));
        r
    }
}

/// `n.to_string()` for an `i64`.
pub fn format_i64(n: i64) -> (r: String)
    ensures
        r@ == signed_decimal_spec(n as int),
{
    if n < 0 {
        let magnitude: u64 = if n == i64::MIN {
            0x8000_0000_0000_0000u64
        } else {
            (0 - n) as u64
        };
        let mut r = String::new();
        r.append("-");
        proof {
            reveal_strlit("-");
        }
        let digits = format_u64(magnitude);
        r.append(digits.as_str());
        r
    } else {
        format_u64(n as u64)
    }
}

// ---------------------------------------------------------------------
// Laws of the decimal form
// ---------------------------------------------------------------------

proof fn lemma_decimal_digits(n: nat)
    ensures
        is_numeral(decimal_spec(n)),
        digits_value(decimal_spec(n)) == n,
        decimal_spec(n)[0] != '+' && decimal_spec(n)[0] != '-',
    decreases n,
{
    if n >= 10 {
        lemma_decimal_digits(n / 10);
        let s = decimal_spec(n);
        assert(s.drop_last() =~= decimal_spec(n / 10));
        assert(s.last() == digit_char(n % 10));
        assert(digit_value(digit_char(n % 10)) == n % 10);
        assert(digits_value(s) == digits_value(decimal_spec(n / 10)) * 10 + n % 10);
    } else {
        let s = decimal_spec(n);
        assert(s.drop_last() =~= Seq::<char>::empty());
        assert(digits_value(s.drop_last()) == 0);
        assert(s.last() == digit_char(n));
        assert(digit_value(digit_char(n)) == n);
        assert(digits_value(s) == n);
        assert(all_digits(s)) by {
            assert forall|i: int| 0 <= i < s.len() implies is_digit(#[trigger] s[i]) by {
                if i < s.len() - 1 {
                    assert(s[i] == decimal_spec(n / 10)[i]);
                }
            }
        }
    }
}

/// Reading back what `format_u64` wrote gives the same number.
pub proof fn lemma_parse_format_u64(n: u64)
    ensures
        parse_u64_spec(decimal_spec(n as nat)) == Some(n),
{
    lemma_decimal_digits(n as nat);
}

/// Reading back what `format_i64` wrote gives the same number.
pub proof fn lemma_parse_format_i64(n: i64)
    ensures
        parse_i64_spec(signed_decimal_spec(n as int)) == Some(n),
{
    if n < 0 {
        let m = (0 - n) as nat;
        lemma_decimal_digits(m);
        let s = signed_decimal_spec(n as int);
        assert(s.drop_first() =~= decimal_spec(m));
    } else {
        lemma_decimal_digits(n as nat);
    }
}

} // verus!
