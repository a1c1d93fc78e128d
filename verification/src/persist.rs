//! The persisted-history codec: the per-date session blocks of the host's
//! markdown save file. Serialization renders the engine's records as a
//! `## Pomodoro Sessions` section of per-date blocks; parsing reads such a
//! section back, field for field, skipping any malformed block instead of
//! failing. Serializing and then parsing returns the records unchanged.

use vstd::prelude::*;

use crate::text::dec_str;
use crate::text::digit_char;
use crate::text::digit_str;
use crate::text::digit_val;
use crate::text::is_digit;
use crate::text::char_digit;
use crate::text::parse_u32_str;
use crate::text::push_u64;
use crate::text::spec_parse_u32;
use crate::timer::Date;
use crate::timer::PomodoroSession;
use crate::timer::SessionRec;
use crate::timer::dates_unique;
use crate::timer::empty_rec;
use crate::timer::sv_seq;

verus! {

/// `p` begins `s`.
pub open spec fn has_prefix(s: Seq<char>, p: Seq<char>) -> bool {
    p.len() <= s.len() && s.take(p.len() as int) == p
}

/// Exactly two digits, zero padded (meaningful for 0..=99).
pub open spec fn pad2(n: int) -> Seq<char> {
    seq![digit_char(n / 10 % 10), digit_char(n % 10)]
}

/// Exactly four digits, zero padded (meaningful for 0..=9999).
pub open spec fn pad4(n: int) -> Seq<char> {
    seq![
        digit_char(n / 1000 % 10),
        digit_char(n / 100 % 10),
        digit_char(n / 10 % 10),
        digit_char(n % 10),
    ]
}

/// The `YYYY-MM-DD` rendering of a date.
pub open spec fn date_str(d: Date) -> Seq<char> {
    pad4(d.year as int) + seq!['-'] + pad2(d.month as int) + seq!['-'] + pad2(d.day as int)
}

/// What parsing a `YYYY-MM-DD` string yields: a date exactly for ten
/// characters in that digit layout whose month and day are plausible.
pub open spec fn spec_parse_date(s: Seq<char>) -> Option<Date> {
    if s.len() == 10 && s[4] == '-' && s[7] == '-' && is_digit(s[0]) && is_digit(s[1]) && is_digit(
        s[2],
    ) && is_digit(s[3]) && is_digit(s[5]) && is_digit(s[6]) && is_digit(s[8]) && is_digit(s[9]) {
        let y = digit_val(s[0]) * 1000 + digit_val(s[1]) * 100 + digit_val(s[2]) * 10 + digit_val(
            s[3],
        );
        let m = digit_val(s[5]) * 10 + digit_val(s[6]);
        let dd = digit_val(s[8]) * 10 + digit_val(s[9]);
        if 1 <= m <= 12 && 1 <= dd <= 31 {
            Some(Date { year: y as u32, month: m as u32, day: dd as u32 })
        } else {
            None
        }
    } else {
        None
    }
}

/// Split on `'\n'`; a trailing newline yields a final empty segment.
pub open spec fn split_lines(s: Seq<char>) -> Seq<Seq<char>>
    decreases s.len(),
{
    if s.len() == 0 {
        seq![Seq::<char>::empty()]
    } else if s[0] == '\n' {
        seq![Seq::<char>::empty()] + split_lines(s.drop_first())
    } else {
        let r = split_lines(s.drop_first());
        r.update(0, seq![s[0]] + r[0])
    }
}

/// Each segment followed by a newline.
pub open spec fn join_lines(ls: Seq<Seq<char>>) -> Seq<char>
    decreases ls.len(),
{
    if ls.len() == 0 {
        Seq::<char>::empty()
    } else {
        ls[0] + seq!['\n'] + join_lines(ls.drop_first())
    }
}

/// The lines of one serialized block: header, four counter lines, the task
/// list when any task was touched, and a closing blank line.
pub open spec fn block_lines(s: SessionRec) -> Seq<Seq<char>> {
    seq![
        "### "@ + date_str(s.date),
        "- Work sessions: "@ + dec_str(s.work_sessions as nat),
        "- Total work time: "@ + dec_str(s.total_work_minutes as nat) + " minutes"@,
        "- Break sessions: "@ + dec_str(s.break_sessions as nat),
        "- Total break time: "@ + dec_str(s.total_break_minutes as nat) + " minutes"@,
    ] + (if s.tasks.len() == 0 {
        Seq::<Seq<char>>::empty()
    } else {
        seq!["- Tasks worked on:"@] + s.tasks.map_values(|t: Seq<char>| "  - "@ + t)
    }) + seq![Seq::<char>::empty()]
}

pub open spec fn blocks_lines(ss: Seq<SessionRec>) -> Seq<Seq<char>>
    decreases ss.len(),
{
    if ss.len() == 0 {
        Seq::<Seq<char>>::empty()
    } else {
        block_lines(ss[0]) + blocks_lines(ss.drop_first())
    }
}

/// All lines of a non-empty section: a blank line, the section marker, a
/// blank line, then the blocks.
pub open spec fn all_lines(ss: Seq<SessionRec>) -> Seq<Seq<char>> {
    seq![Seq::<char>::empty(), "## Pomodoro Sessions"@, Seq::<char>::empty()] + blocks_lines(ss)
}

/// The serialized section: empty for no records, else the joined lines.
pub open spec fn spec_serialize(ss: Seq<SessionRec>) -> Seq<char> {
    if ss.len() == 0 {
        Seq::<char>::empty()
    } else {
        join_lines(all_lines(ss))
    }
}

/// Characters of the first whitespace-delimited token (split at spaces).
pub open spec fn token_end(s: Seq<char>) -> int
    decreases s.len(),
{
    if s.len() == 0 {
        0
    } else if s[0] == ' ' {
        0
    } else {
        1 + token_end(s.drop_first())
    }
}

pub open spec fn first_token(s: Seq<char>) -> Seq<char> {
    s.take(token_end(s))
}

/// The parser's state after some lines: whether the section marker was
/// seen, the finished records, and the block being filled.
#[verifier::ext_equal]
pub struct ParseState {
    pub in_section: bool,
    pub done: Seq<SessionRec>,
    pub current: Option<SessionRec>,
}

/// Finish parsing: the open block, if any, joins the finished ones.
pub open spec fn flush(st: ParseState) -> Seq<SessionRec> {
    match st.current {
        Some(c) => st.done.push(c),
        None => st.done,
    }
}

/// One line of parsing. Outside the section only the marker matters. A
/// block header closes the open block and opens a new one exactly when its
/// date parses. Inside an open block, each counter line whose number parses
/// sets its field, a `  - ` line adds a task, and anything else is ignored.
pub open spec fn step_line(st: ParseState, line: Seq<char>) -> ParseState {
    if !st.in_section {
        if line == "## Pomodoro Sessions"@ {
            ParseState { in_section: true, ..st }
        } else {
            st
        }
    } else if has_prefix(line, "### "@) {
        ParseState {
            in_section: true,
            done: flush(st),
            current: match spec_parse_date(line.skip("### "@.len() as int)) {
                Some(d) => Some(empty_rec(d)),
                None => None,
            },
        }
    } else if st.current is Some {
        let c = st.current->0;
        if has_prefix(line, "- Work sessions: "@) {
            match spec_parse_u32(line.skip("- Work sessions: "@.len() as int)) {
                Some(n) => ParseState {
                    current: Some(SessionRec { work_sessions: n, ..c }),
                    ..st
                },
                None => st,
            }
        } else if has_prefix(line, "- Total work time: "@) {
            match spec_parse_u32(first_token(line.skip("- Total work time: "@.len() as int))) {
                Some(n) => ParseState {
                    current: Some(SessionRec { total_work_minutes: n, ..c }),
                    ..st
                },
                None => st,
            }
        } else if has_prefix(line, "- Break sessions: "@) {
            match spec_parse_u32(line.skip("- Break sessions: "@.len() as int)) {
                Some(n) => ParseState {
                    current: Some(SessionRec { break_sessions: n, ..c }),
                    ..st
                },
                None => st,
            }
        } else if has_prefix(line, "- Total break time: "@) {
            match spec_parse_u32(first_token(line.skip("- Total break time: "@.len() as int))) {
                Some(n) => ParseState {
                    current: Some(SessionRec { total_break_minutes: n, ..c }),
                    ..st
                },
                None => st,
            }
        } else if has_prefix(line, "  - "@) && !has_prefix(line, "  - Tasks worked on:"@) {
            ParseState {
                current: Some(SessionRec { tasks: c.tasks.push(line.skip("  - "@.len() as int)), ..c }),
                ..st
            }
        } else {
            st
        }
    } else {
        st
    }
}

pub open spec fn run_lines(st: ParseState, ls: Seq<Seq<char>>) -> ParseState
    decreases ls.len(),
{
    if ls.len() == 0 {
        st
    } else {
        run_lines(step_line(st, ls[0]), ls.drop_first())
    }
}

pub open spec fn initial_state() -> ParseState {
    ParseState { in_section: false, done: Seq::empty(), current: None }
}

/// What parsing a whole file yields: the records of its session section.
pub open spec fn spec_parse(content: Seq<char>) -> Seq<SessionRec> {
    flush(run_lines(initial_state(), split_lines(content)))
}

proof fn lemma_not_prefix_at(s: Seq<char>, p: Seq<char>, k: int)
    requires
        0 <= k < p.len(),
        k < s.len(),
        s[k] != p[k],
    ensures
        !has_prefix(s, p),
{
    if p.len() <= s.len() {
        assert(s.take(p.len() as int)[k] == s[k]);
    }
}

proof fn lemma_prefix_concat(p: Seq<char>, rest: Seq<char>)
    ensures
        has_prefix(p + rest, p),
        (p + rest).skip(p.len() as int) =~= rest,
        (p + rest).len() == p.len() + rest.len(),
{
    assert((p + rest).take(p.len() as int) =~= p);
}

/// Splitting at spaces after an all-non-space prefix stops exactly there.
proof fn lemma_token_end_concat(a: Seq<char>, b: Seq<char>)
    requires
        forall|i: int| 0 <= i < a.len() ==> a[i] != ' ',
        b.len() > 0,
        b[0] == ' ',
    ensures
        token_end(a + b) == a.len(),
        first_token(a + b) =~= a,
    decreases a.len(),
{
    let s = a + b;
    if a.len() == 0 {
        assert(s[0] == ' ');
    } else {
        assert(s[0] == a[0]);
        assert(s[0] != ' ');
        assert(s.drop_first() =~= a.drop_first() + b);
        assert forall|i: int| 0 <= i < a.drop_first().len() implies a.drop_first()[i] != ' ' by {
            assert(a.drop_first()[i] == a[i + 1]);
        }
        lemma_token_end_concat(a.drop_first(), b);
    }
    assert((a + b).take(a.len() as int) =~= a);
}

/// Decimal renderings contain neither newlines nor spaces.
proof fn lemma_dec_str_plain(n: nat)
    ensures
        forall|i: int| 0 <= i < dec_str(n).len() ==> dec_str(n)[i] != '\n',
        forall|i: int| 0 <= i < dec_str(n).len() ==> dec_str(n)[i] != ' ',
        dec_str(n).len() >= 1,
{
    crate::text::lemma_dec_str(n);
    assert forall|i: int| 0 <= i < dec_str(n).len() implies dec_str(n)[i] != '\n' && dec_str(
        n,
    )[i] != ' ' by {
        assert(is_digit(dec_str(n)[i]));
        crate::text::lemma_digit_not_special(dec_str(n)[i]);
    }
}

/// Date renderings contain no newline or space.
proof fn lemma_date_str_plain(d: Date)
    ensures
        date_str(d).len() == 10,
        forall|i: int| 0 <= i < date_str(d).len() ==> date_str(d)[i] != '\n',
        forall|i: int| 0 <= i < date_str(d).len() ==> date_str(d)[i] != ' ',
{
    let s = date_str(d);
    assert forall|i: int| 0 <= i < s.len() implies s[i] != '\n' && s[i] != ' ' by {
        if i < 4 {
            assert(s[i] == pad4(d.year as int)[i]);
            crate::text::lemma_digit_char_val_any(pad_digit_of4(d.year as int, i));
        } else if i == 4 {
            assert(s[i] == '-');
        } else if i < 7 {
            assert(s[i] == pad2(d.month as int)[i - 5]);
            crate::text::lemma_digit_char_val_any(pad_digit_of2(d.month as int, i - 5));
        } else if i == 7 {
            assert(s[i] == '-');
        } else {
            assert(s[i] == pad2(d.day as int)[i - 8]);
            crate::text::lemma_digit_char_val_any(pad_digit_of2(d.day as int, i - 8));
        }
    }
}

/// The digit argument at position `i` of `pad4(n)`.
spec fn pad_digit_of4(n: int, i: int) -> int {
    if i == 0 {
        n / 1000 % 10
    } else if i == 1 {
        n / 100 % 10
    } else if i == 2 {
        n / 10 % 10
    } else {
        n % 10
    }
}

/// The digit argument at position `i` of `pad2(n)`.
spec fn pad_digit_of2(n: int, i: int) -> int {
    if i == 0 {
        n / 10 % 10
    } else {
        n % 10
    }
}

/// Parsing the rendering of a well-formed date returns that date.
pub proof fn lemma_date_round_trip(d: Date)
    requires
        d.wf(),
    ensures
        spec_parse_date(date_str(d)) == Some(d),
{
    let s = date_str(d);
    let y = d.year as int;
    let m = d.month as int;
    let dd = d.day as int;
    assert(s.len() == 10);
    assert(s[0] == digit_char(y / 1000 % 10));
    assert(s[1] == digit_char(y / 100 % 10));
    assert(s[2] == digit_char(y / 10 % 10));
    assert(s[3] == digit_char(y % 10));
    assert(s[4] == '-');
    assert(s[5] == digit_char(m / 10 % 10));
    assert(s[6] == digit_char(m % 10));
    assert(s[7] == '-');
    assert(s[8] == digit_char(dd / 10 % 10));
    assert(s[9] == digit_char(dd % 10));
    lemma_pad4_digits(y);
    lemma_pad2_digits(m);
    lemma_pad2_digits(dd);
    crate::text::lemma_digit_char_val(y / 1000 % 10);
    crate::text::lemma_digit_char_val(y / 100 % 10);
    crate::text::lemma_digit_char_val(y / 10 % 10);
    crate::text::lemma_digit_char_val(y % 10);
    crate::text::lemma_digit_char_val(m / 10 % 10);
    crate::text::lemma_digit_char_val(m % 10);
    crate::text::lemma_digit_char_val(dd / 10 % 10);
    crate::text::lemma_digit_char_val(dd % 10);
}

/// For `0 <= n <= 9999`: the four padded digits reassemble to `n`.
proof fn lemma_pad4_digits(n: int)
    requires
        0 <= n <= 9999,
    ensures
        (n / 1000 % 10) * 1000 + (n / 100 % 10) * 100 + (n / 10 % 10) * 10 + n % 10 == n,
        0 <= n / 1000 % 10 <= 9,
        0 <= n / 100 % 10 <= 9,
        0 <= n / 10 % 10 <= 9,
        0 <= n % 10 <= 9,
{
    assert((n / 1000 % 10) * 1000 + (n / 100 % 10) * 100 + (n / 10 % 10) * 10 + n % 10 == n)
        by (nonlinear_arith)
        requires
            0 <= n <= 9999,
    ;
}

/// For `0 <= n <= 99`: the two padded digits reassemble to `n`.
proof fn lemma_pad2_digits(n: int)
    requires
        0 <= n <= 99,
    ensures
        (n / 10 % 10) * 10 + n % 10 == n,
        0 <= n / 10 % 10 <= 9,
        0 <= n % 10 <= 9,
{
    assert((n / 10 % 10) * 10 + n % 10 == n) by (nonlinear_arith)
        requires
            0 <= n <= 99,
    ;
}

/// Character-wise string equality.
fn str_eq(a: &str, b: &str) -> (r: bool)
    ensures
        r == (a@ == b@),
{
    let n = a.unicode_len();
    if n != b.unicode_len() {
        return false;
    }
    let mut j: usize = 0;
    while j < n
        invariant
            n == a@.len(),
            n == b@.len(),
            j <= n,
            forall|k: int| 0 <= k < j ==> a@[k] == b@[k],
        decreases n - j,
    {
        if a.get_char(j) != b.get_char(j) {
            return false;
        }
        j = j + 1;
    }
    proof {
        assert(a@ =~= b@);
    }
    true
}

/// Whether `p` begins `s`.
fn str_has_prefix(s: &str, p: &str) -> (r: bool)
    ensures
        r == has_prefix(s@, p@),
{
    let m = p.unicode_len();
    if m > s.unicode_len() {
        return false;
    }
    let mut j: usize = 0;
    while j < m
        invariant
            m == p@.len(),
            m <= s@.len(),
            j <= m,
            forall|k: int| 0 <= k < j ==> s@[k] == p@[k],
        decreases m - j,
    {
        if s.get_char(j) != p.get_char(j) {
            assert(s@.take(m as int)[j as int] != p@[j as int]);
            return false;
        }
        j = j + 1;
    }
    proof {
        assert(s@.take(m as int) =~= p@);
    }
    true
}

/// The first space-delimited token of `s`.
fn token_of<'a>(s: &'a str) -> (r: &'a str)
    ensures
        r@ == first_token(s@),
{
    proof {
        lemma_token_end_char(s@);
    }
    let n = s.unicode_len();
    let mut j: usize = 0;
    while j < n
        invariant
            n == s@.len(),
            j <= n,
            forall|k: int| 0 <= k < j ==> s@[k] != ' ',
            0 <= token_end(s@) <= n,
            token_end(s@) < n ==> s@[token_end(s@)] == ' ',
            forall|k: int| 0 <= k < token_end(s@) ==> s@[k] != ' ',
        decreases n - j,
    {
        if s.get_char(j) == ' ' {
            assert(token_end(s@) == j);
            return s.substring_char(0, j);
        }
        j = j + 1;
    }
    assert(token_end(s@) == n);
    s.substring_char(0, n)
}

proof fn lemma_token_end_char(s: Seq<char>)
    ensures
        0 <= token_end(s) <= s.len(),
        token_end(s) < s.len() ==> s[token_end(s)] == ' ',
        forall|k: int| 0 <= k < token_end(s) ==> s[k] != ' ',
    decreases s.len(),
{
    if s.len() > 0 && s[0] != ' ' {
        lemma_token_end_char(s.drop_first());
        assert forall|k: int| 0 <= k < token_end(s) implies s[k] != ' ' by {
            if k > 0 {
                assert(s.drop_first()[k - 1] == s[k]);
            }
        }
        if token_end(s) < s.len() {
            assert(s.drop_first()[token_end(s.drop_first())] == s[token_end(s)]);
        }
    }
}

/// Parse a `YYYY-MM-DD` date.
fn parse_date_str(s: &str) -> (r: Option<Date>)
    ensures
        r == spec_parse_date(s@),
{
    if s.unicode_len() != 10 {
        return None;
    }
    if s.get_char(4) != '-' || s.get_char(7) != '-' {
        return None;
    }
    let d0 = char_digit(s.get_char(0));
    let d1 = char_digit(s.get_char(1));
    let d2 = char_digit(s.get_char(2));
    let d3 = char_digit(s.get_char(3));
    let m0 = char_digit(s.get_char(5));
    let m1 = char_digit(s.get_char(6));
    let a0 = char_digit(s.get_char(8));
    let a1 = char_digit(s.get_char(9));
    match (d0, d1, d2, d3, m0, m1, a0, a1) {
        (Some(d0), Some(d1), Some(d2), Some(d3), Some(m0), Some(m1), Some(a0), Some(a1)) => {
            let y = d0 * 1000 + d1 * 100 + d2 * 10 + d3;
            let m = m0 * 10 + m1;
            let dd = a0 * 10 + a1;
            if 1 <= m && m <= 12 && 1 <= dd && dd <= 31 {
                Some(Date { year: y, month: m, day: dd })
            } else {
                None
            }
        },
        _ => None,
    }
}

/// Append the `YYYY-MM-DD` rendering of a date.
fn push_date(out: &mut String, d: Date)
    requires
        d.wf(),
    ensures
        final(out)@ == old(out)@ + date_str(d),
{
    let y = d.year as u64;
    let m = d.month as u64;
    let dd = d.day as u64;
    out.append(digit_str(y / 1000));
    out.append(digit_str(y / 100 % 10));
    out.append(digit_str(y / 10 % 10));
    out.append(digit_str(y % 10));
    proof {
        reveal_strlit("-");
        assert("-"@ =~= seq!['-']);
    }
    out.append("-");
    out.append(digit_str(m / 10 % 10));
    out.append(digit_str(m % 10));
    out.append("-");
    out.append(digit_str(dd / 10 % 10));
    out.append(digit_str(dd % 10));
    proof {
        assert(final(out)@ =~= old(out)@ + date_str(d));
    }
}

proof fn lemma_join_push(ls: Seq<Seq<char>>, l: Seq<char>)
    ensures
        join_lines(ls.push(l)) == join_lines(ls) + l + seq!['\n'],
    decreases ls.len(),
{
    if ls.len() == 0 {
        assert(ls.push(l).drop_first() =~= Seq::<Seq<char>>::empty());
        assert(ls.push(l)[0] == l);
        assert(join_lines(ls.push(l).drop_first()) == Seq::<char>::empty());
        assert(join_lines(ls.push(l)) == l + seq!['\n'] + Seq::<char>::empty());
        assert(l + seq!['\n'] + Seq::<char>::empty() =~= l + seq!['\n']);
        assert(join_lines(ls) + l + seq!['\n'] =~= l + seq!['\n']);
    } else {
        assert(ls.push(l).drop_first() =~= ls.drop_first().push(l));
        lemma_join_push(ls.drop_first(), l);
        assert(ls.push(l)[0] == ls[0]);
        assert(join_lines(ls.push(l)) == ls[0] + seq!['\n'] + (join_lines(ls.drop_first()) + l
            + seq!['\n']));
        assert(ls[0] + seq!['\n'] + (join_lines(ls.drop_first()) + l + seq!['\n']) =~= (ls[0]
            + seq!['\n'] + join_lines(ls.drop_first())) + l + seq!['\n']);
    }
}

/// Append one line's text and its newline, tracking the emitted line list.
fn push_line(out: &mut String, line: &str, Ghost(ls): Ghost<Seq<Seq<char>>>)
    requires
        old(out)@ == join_lines(ls),
    ensures
        final(out)@ == join_lines(ls.push(line@)),
{
    out.append(line);
    proof {
        reveal_strlit("\n");
        assert("\n"@ =~= seq!['\n']);
    }
    out.append("\n");
    proof {
        lemma_join_push(ls, line@);
        assert(final(out)@ =~= join_lines(ls.push(line@)));
    }
}

/// Render one record's block onto `out`.
fn push_block(out: &mut String, s: &PomodoroSession, Ghost(ls): Ghost<Seq<Seq<char>>>)
    requires
        old(out)@ == join_lines(ls),
        s.date.wf(),
    ensures
        final(out)@ == join_lines(ls + block_lines(s@)),
{
    let ghost mut emitted: Seq<Seq<char>> = ls;

    let mut line = String::new();
    proof {
        reveal_strlit("### ");
    }
    line.append("### ");
    push_date(&mut line, s.date);
    push_line(out, line.as_str(), Ghost(emitted));
    proof {
        emitted = emitted.push(line@);
    }

    let mut line = String::new();
    proof {
        reveal_strlit("- Work sessions: ");
    }
    line.append("- Work sessions: ");
    push_u64(&mut line, s.work_sessions as u64);
    push_line(out, line.as_str(), Ghost(emitted));
    proof {
        emitted = emitted.push(line@);
    }

    let mut line = String::new();
    proof {
        reveal_strlit("- Total work time: ");
        reveal_strlit(" minutes");
    }
    line.append("- Total work time: ");
    push_u64(&mut line, s.total_work_minutes as u64);
    line.append(" minutes");
    push_line(out, line.as_str(), Ghost(emitted));
    proof {
        emitted = emitted.push(line@);
    }

    let mut line = String::new();
    proof {
        reveal_strlit("- Break sessions: ");
    }
    line.append("- Break sessions: ");
    push_u64(&mut line, s.break_sessions as u64);
    push_line(out, line.as_str(), Ghost(emitted));
    proof {
        emitted = emitted.push(line@);
    }

    let mut line = String::new();
    proof {
        reveal_strlit("- Total break time: ");
    }
    line.append("- Total break time: ");
    push_u64(&mut line, s.total_break_minutes as u64);
    line.append(" minutes");
    push_line(out, line.as_str(), Ghost(emitted));
    proof {
        emitted = emitted.push(line@);
    }

    if s.tasks_worked_on.len() > 0 {
        proof {
            reveal_strlit("- Tasks worked on:");
        }
        push_line(out, "- Tasks worked on:", Ghost(emitted));
        proof {
            emitted = emitted.push("- Tasks worked on:"@);
        }
        let n = s.tasks_worked_on.len();
        let mut j: usize = 0;
        while j < n
            invariant
                n == s.tasks_worked_on@.len(),
                j <= n,
                out@ == join_lines(emitted),
                emitted =~= ls + block_lines(s@).take(6 + j),
                block_lines(s@).len() == 6 + n + 1,
                forall|k: int|
                    0 <= k < n ==> block_lines(s@)[6 + k] == "  - "@ + s@.tasks[k],
            decreases n - j,
        {
            let mut line = String::new();
            proof {
                reveal_strlit("  - ");
            }
            line.append("  - ");
            line.append(s.tasks_worked_on[j].as_str());
            push_line(out, line.as_str(), Ghost(emitted));
            proof {
                emitted = emitted.push(line@);
                assert(line@ == "  - "@ + s@.tasks[j as int]);
                assert(emitted =~= ls + block_lines(s@).take(6 + j + 1));
            }
            j = j + 1;
        }
        push_line(out, "", Ghost(emitted));
        proof {
            reveal_strlit("");
            emitted = emitted.push(""@);
            assert(""@ =~= Seq::<char>::empty());
            assert(emitted =~= ls + block_lines(s@));
        }
    } else {
        push_line(out, "", Ghost(emitted));
        proof {
            reveal_strlit("");
            emitted = emitted.push(""@);
            assert(""@ =~= Seq::<char>::empty());
            assert(emitted =~= ls + block_lines(s@));
        }
    }
    proof {
        assert(out@ == join_lines(emitted));
    }
}

proof fn lemma_blocks_take(ss: Seq<SessionRec>, i: int)
    requires
        0 <= i < ss.len(),
    ensures
        blocks_lines(ss.take(i + 1)) =~= blocks_lines(ss.take(i)) + block_lines(ss[i]),
    decreases i,
{
    if i == 0 {
        assert(ss.take(1)[0] == ss[0]);
        assert(ss.take(1).drop_first() =~= Seq::<SessionRec>::empty());
        assert(ss.take(0) =~= Seq::<SessionRec>::empty());
        assert(blocks_lines(ss.take(1).drop_first()) == Seq::<Seq<char>>::empty());
        assert(blocks_lines(ss.take(1)) == block_lines(ss[0]) + Seq::<Seq<char>>::empty());
        assert(block_lines(ss[0]) + Seq::<Seq<char>>::empty() =~= block_lines(ss[0]));
        assert(blocks_lines(ss.take(0)) + block_lines(ss[0]) =~= block_lines(ss[0]));
    } else {
        assert(ss.take(i + 1)[0] == ss[0]);
        assert(ss.take(i)[0] == ss[0]);
        assert(ss.take(i + 1).drop_first() =~= ss.drop_first().take(i));
        assert(ss.take(i).drop_first() =~= ss.drop_first().take(i - 1));
        lemma_blocks_take(ss.drop_first(), i - 1);
        assert(ss.drop_first()[i - 1] == ss[i]);
        assert(blocks_lines(ss.take(i + 1)) == block_lines(ss[0]) + blocks_lines(
            ss.drop_first().take(i),
        ));
        assert(blocks_lines(ss.drop_first().take(i)) =~= blocks_lines(ss.drop_first().take(i - 1))
            + block_lines(ss[i]));
        assert(block_lines(ss[0]) + (blocks_lines(ss.drop_first().take(i - 1)) + block_lines(
            ss[i],
        )) =~= (block_lines(ss[0]) + blocks_lines(ss.drop_first().take(i - 1))) + block_lines(
            ss[i],
        ));
    }
}

/// Render the whole section: empty for no records, else the marker header
/// followed by one block per record, in order.
pub fn serialize_sessions(sessions: &Vec<PomodoroSession>) -> (r: String)
    requires
        forall|i: int| 0 <= i < sessions@.len() ==> (#[trigger] sessions@[i]).date.wf(),
    ensures
        r@ == spec_serialize(sv_seq(sessions@)),
{
    let ghost ss = sv_seq(sessions@);
    let mut out = String::new();
    if sessions.len() == 0 {
        return out;
    }
    proof {
        reveal_strlit("## Pomodoro Sessions");
        reveal_strlit("");
        assert(""@ =~= Seq::<char>::empty());
        assert(out@ =~= join_lines(Seq::<Seq<char>>::empty()));
    }
    let ghost mut emitted: Seq<Seq<char>> = Seq::empty();
    push_line(&mut out, "", Ghost(emitted));
    proof {
        emitted = emitted.push(Seq::<char>::empty());
    }
    push_line(&mut out, "## Pomodoro Sessions", Ghost(emitted));
    proof {
        emitted = emitted.push("## Pomodoro Sessions"@);
    }
    push_line(&mut out, "", Ghost(emitted));
    proof {
        emitted = emitted.push(Seq::<char>::empty());
        assert(blocks_lines(ss.take(0)) =~= Seq::<Seq<char>>::empty());
        assert(emitted =~= seq![
            Seq::<char>::empty(),
            "## Pomodoro Sessions"@,
            Seq::<char>::empty(),
        ] + blocks_lines(ss.take(0)));
    }
    let n = sessions.len();
    let mut i: usize = 0;
    while i < n
        invariant
            n == sessions@.len(),
            i <= n,
            ss == sv_seq(sessions@),
            forall|k: int| 0 <= k < sessions@.len() ==> (#[trigger] sessions@[k]).date.wf(),
            out@ == join_lines(emitted),
            emitted =~= seq![
                Seq::<char>::empty(),
                "## Pomodoro Sessions"@,
                Seq::<char>::empty(),
            ] + blocks_lines(ss.take(i as int)),
        decreases n - i,
    {
        push_block(&mut out, &sessions[i], Ghost(emitted));
        proof {
            assert(sessions@[i as int]@ == ss[i as int]);
            emitted = emitted + block_lines(ss[i as int]);
            lemma_blocks_take(ss, i as int);
            assert(emitted =~= seq![
                Seq::<char>::empty(),
                "## Pomodoro Sessions"@,
                Seq::<char>::empty(),
            ] + blocks_lines(ss.take(i + 1)));
        }
        i = i + 1;
    }
    proof {
        assert(ss.take(n as int) =~= ss);
        assert(emitted =~= all_lines(ss));
    }
    out
}

proof fn lemma_split_no_nl(a: Seq<char>)
    requires
        forall|i: int| 0 <= i < a.len() ==> a[i] != '\n',
    ensures
        split_lines(a) == seq![a],
    decreases a.len(),
{
    if a.len() == 0 {
        assert(a =~= Seq::<char>::empty());
        assert(split_lines(a) == seq![Seq::<char>::empty()]);
        assert(seq![Seq::<char>::empty()] =~= seq![a]);
    } else {
        assert forall|i: int| 0 <= i < a.drop_first().len() implies a.drop_first()[i] != '\n' by {
            assert(a.drop_first()[i] == a[i + 1]);
        }
        lemma_split_no_nl(a.drop_first());
        let r = split_lines(a.drop_first());
        assert(r == seq![a.drop_first()]);
        assert(split_lines(a) == r.update(0, seq![a[0]] + a.drop_first()));
        assert(seq![a[0]] + a.drop_first() =~= a);
        assert(r.update(0, a) =~= seq![a]);
    }
}

proof fn lemma_split_cons(a: Seq<char>, b: Seq<char>)
    requires
        forall|i: int| 0 <= i < a.len() ==> a[i] != '\n',
    ensures
        split_lines(a + seq!['\n'] + b) == seq![a] + split_lines(b),
        split_lines(b).len() >= 1,
    decreases a.len(),
{
    lemma_split_len(b);
    let s = a + seq!['\n'] + b;
    if a.len() == 0 {
        assert(s[0] == '\n');
        assert(s.drop_first() =~= b);
        assert(split_lines(s) == seq![Seq::<char>::empty()] + split_lines(b));
        assert(a =~= Seq::<char>::empty());
        assert(seq![a] =~= seq![Seq::<char>::empty()]);
    } else {
        assert(s[0] == a[0]);
        assert(s[0] != '\n');
        assert(s.drop_first() =~= a.drop_first() + seq!['\n'] + b);
        assert forall|i: int| 0 <= i < a.drop_first().len() implies a.drop_first()[i] != '\n' by {
            assert(a.drop_first()[i] == a[i + 1]);
        }
        lemma_split_cons(a.drop_first(), b);
        let r = split_lines(s.drop_first());
        assert(r == seq![a.drop_first()] + split_lines(b));
        assert(r[0] == a.drop_first());
        assert(split_lines(s) == r.update(0, seq![s[0]] + r[0]));
        assert(seq![s[0]] + a.drop_first() =~= a);
        assert(r.update(0, a) =~= seq![a] + split_lines(b));
    }
}

proof fn lemma_split_len(s: Seq<char>)
    ensures
        split_lines(s).len() >= 1,
    decreases s.len(),
{
    if s.len() > 0 {
        lemma_split_len(s.drop_first());
    }
}

/// Split a file's text into its lines (a trailing newline yields a final
/// empty line, which the parser ignores).
fn split_lines_exec(s: &str) -> (r: Vec<String>)
    ensures
        r.deep_view() == split_lines(s@),
{
    let n = s.unicode_len();
    let mut done: Vec<String> = Vec::new();
    let mut cur = String::new();
    let ghost mut start: int = 0;
    proof {
        assert(done.deep_view() =~= Seq::<Seq<char>>::empty());
        assert(s@.skip(0) =~= s@);
        assert(cur@ =~= s@.subrange(0, 0));
        assert(done.deep_view() + split_lines(s@.skip(0)) =~= split_lines(s@));
    }
    let mut j: usize = 0;
    while j < n
        invariant
            n == s@.len(),
            0 <= start <= j <= n,
            cur@ == s@.subrange(start, j as int),
            forall|i: int| start <= i < j ==> s@[i] != '\n',
            split_lines(s@) == done.deep_view() + split_lines(s@.skip(start)),
        decreases n - j,
    {
        let c = s.get_char(j);
        if c == '\n' {
            proof {
                assert(s@.skip(start) =~= cur@ + seq!['\n'] + s@.skip(j + 1));
                assert forall|i: int| 0 <= i < cur@.len() implies cur@[i] != '\n' by {
                    assert(cur@[i] == s@[start + i]);
                }
                lemma_split_cons(cur@, s@.skip(j + 1));
            }
            let ghost prev_deep = done.deep_view();
            done.push(cur);
            proof {
                assert(done.deep_view() =~= prev_deep.push(s@.subrange(start, j as int)));
                assert(done.deep_view() + split_lines(s@.skip(j + 1)) =~= prev_deep + (seq![
                    s@.subrange(start, j as int),
                ] + split_lines(s@.skip(j + 1))));
                start = j + 1;
            }
            cur = String::new();
        } else {
            cur.append(s.substring_char(j, j + 1));
            proof {
                assert(s@.subrange(j as int, j + 1) =~= seq![s@[j as int]]);
                assert(cur@ =~= s@.subrange(start, j + 1));
            }
        }
        j = j + 1;
    }
    proof {
        assert(cur@ =~= s@.skip(start));
        assert forall|i: int| 0 <= i < cur@.len() implies cur@[i] != '\n' by {
            assert(cur@[i] == s@[start + i]);
        }
        lemma_split_no_nl(cur@);
    }
    let ghost prev_deep = done.deep_view();
    done.push(cur);
    proof {
        assert(done.deep_view() =~= prev_deep.push(s@.skip(start)));
        assert(done.deep_view() =~= split_lines(s@));
    }
    done
}

/// The model of the parser's in-progress state.
pub open spec fn pstate(b: bool, d: Seq<PomodoroSession>, c: Option<PomodoroSession>) -> ParseState {
    ParseState {
        in_section: b,
        done: sv_seq(d),
        current: match c {
            Some(x) => Some(x@),
            None => None,
        },
    }
}

/// Apply one line to the parser's state.
fn step_parser(
    in_section: &mut bool,
    done: &mut Vec<PomodoroSession>,
    current: &mut Option<PomodoroSession>,
    line: &str,
)
    ensures
        pstate(*final(in_section), final(done)@, *final(current)) == step_line(
            pstate(*old(in_section), old(done)@, *old(current)),
            line@,
        ),
{
    let ghost st0 = pstate(*old(in_section), old(done)@, *old(current));
    if !*in_section {
        if str_eq(line, "## Pomodoro Sessions") {
            *in_section = true;
        }
        return ;
    }
    if str_has_prefix(line, "### ") {
        proof {
            reveal_strlit("### ");
        }
        let prev = current.take();
        if let Some(c) = prev {
            let ghost prev_done = done@;
            done.push(c);
            proof {
                crate::timer::lemma_sv_push(prev_done, c);
                assert(sv_seq(done@) =~= flush(st0));
            }
        }
        let n = line.unicode_len();
        let rest = line.substring_char(4, n);
        proof {
            assert(rest@ =~= line@.skip("### "@.len() as int));
        }
        *current = match parse_date_str(rest) {
            Some(d) => {
                let fresh = PomodoroSession {
                    date: d,
                    work_sessions: 0,
                    total_work_minutes: 0,
                    break_sessions: 0,
                    total_break_minutes: 0,
                    tasks_worked_on: Vec::new(),
                };
                proof {
                    assert(fresh@.tasks =~= empty_rec(d).tasks);
                    assert(fresh@ =~= empty_rec(d));
                }
                Some(fresh)
            },
            None => None,
        };
        return ;
    }
    if current.is_none() {
        return ;
    }
    if str_has_prefix(line, "- Work sessions: ") {
        proof {
            reveal_strlit("- Work sessions: ");
        }
        let rest = line.substring_char(17, line.unicode_len());
        proof {
            assert(rest@ =~= line@.skip("- Work sessions: "@.len() as int));
        }
        if let Some(v) = parse_u32_str(rest) {
            match &mut *current {
                Some(cur) => {
                    cur.work_sessions = v;
                },
                None => {},
            }
        }
        return ;
    }
    if str_has_prefix(line, "- Total work time: ") {
        proof {
            reveal_strlit("- Total work time: ");
        }
        let rest = line.substring_char(19, line.unicode_len());
        proof {
            assert(rest@ =~= line@.skip("- Total work time: "@.len() as int));
        }
        let tok = token_of(rest);
        if let Some(v) = parse_u32_str(tok) {
            match &mut *current {
                Some(cur) => {
                    cur.total_work_minutes = v;
                },
                None => {},
            }
        }
        return ;
    }
    if str_has_prefix(line, "- Break sessions: ") {
        proof {
            reveal_strlit("- Break sessions: ");
        }
        let rest = line.substring_char(18, line.unicode_len());
        proof {
            assert(rest@ =~= line@.skip("- Break sessions: "@.len() as int));
        }
        if let Some(v) = parse_u32_str(rest) {
            match &mut *current {
                Some(cur) => {
                    cur.break_sessions = v;
                },
                None => {},
            }
        }
        return ;
    }
    if str_has_prefix(line, "- Total break time: ") {
        proof {
            reveal_strlit("- Total break time: ");
        }
        let rest = line.substring_char(20, line.unicode_len());
        proof {
            assert(rest@ =~= line@.skip("- Total break time: "@.len() as int));
        }
        let tok = token_of(rest);
        if let Some(v) = parse_u32_str(tok) {
            match &mut *current {
                Some(cur) => {
                    cur.total_break_minutes = v;
                },
                None => {},
            }
        }
        return ;
    }
    if str_has_prefix(line, "  - ") && !str_has_prefix(line, "  - Tasks worked on:") {
        proof {
            reveal_strlit("  - ");
        }
        let rest = line.substring_char(4, line.unicode_len());
        proof {
            assert(rest@ =~= line@.skip("  - "@.len() as int));
        }
        let name = rest.to_owned();
        match &mut *current {
            Some(cur) => {
                let ghost old_tasks = cur.tasks_worked_on@;
                cur.tasks_worked_on.push(name);
                proof {
                    assert forall|k: int|
                        0 <= k < cur.tasks_worked_on.deep_view().len() implies
                        cur.tasks_worked_on.deep_view()[k] == (st0.current->0).tasks.push(
                        line@.skip("  - "@.len() as int),
                    )[k] by {
                        if k < old_tasks.len() {
                            assert(cur.tasks_worked_on@[k] == old_tasks[k]);
                        } else {
                            assert(cur.tasks_worked_on@[k]@ == rest@);
                        }
                    }
                    assert(cur.tasks_worked_on.deep_view() =~= (st0.current->0).tasks.push(
                        line@.skip("  - "@.len() as int),
                    ));
                }
            },
            None => {},
        }
        return ;
    }
}

proof fn lemma_run_take(st: ParseState, ls: Seq<Seq<char>>, i: int)
    requires
        0 <= i < ls.len(),
    ensures
        run_lines(st, ls.take(i + 1)) == step_line(run_lines(st, ls.take(i)), ls[i]),
    decreases i,
{
    if i == 0 {
        assert(ls.take(1)[0] == ls[0]);
        assert(ls.take(1).drop_first() =~= Seq::<Seq<char>>::empty());
        assert(ls.take(0) =~= Seq::<Seq<char>>::empty());
        assert(run_lines(st, ls.take(0)) == st);
        assert(run_lines(step_line(st, ls[0]), ls.take(1).drop_first()) == step_line(st, ls[0]));
        assert(run_lines(st, ls.take(1)) == step_line(st, ls[0]));
    } else {
        assert(ls.take(i + 1)[0] == ls[0]);
        assert(ls.take(i)[0] == ls[0]);
        assert(ls.take(i + 1).drop_first() =~= ls.drop_first().take(i));
        assert(ls.take(i).drop_first() =~= ls.drop_first().take(i - 1));
        lemma_run_take(step_line(st, ls[0]), ls.drop_first(), i - 1);
        assert(ls.drop_first()[i - 1] == ls[i]);
    }
}

/// Splitting rejoins: for newline-free lines, splitting the joined text
/// recovers the lines, plus the empty segment after the final newline.
proof fn lemma_split_join(ls: Seq<Seq<char>>)
    requires
        forall|k: int, i: int|
            0 <= k < ls.len() && 0 <= i < ls[k].len() ==> #[trigger] ls[k][i] != '\n',
    ensures
        split_lines(join_lines(ls)) == ls.push(Seq::<char>::empty()),
    decreases ls.len(),
{
    if ls.len() == 0 {
        assert(join_lines(ls) == Seq::<char>::empty());
        assert(split_lines(Seq::<char>::empty()) == seq![Seq::<char>::empty()]);
        assert(ls.push(Seq::<char>::empty()) =~= seq![Seq::<char>::empty()]);
    } else {
        let rest = ls.drop_first();
        assert forall|k: int, i: int|
            0 <= k < rest.len() && 0 <= i < rest[k].len() implies #[trigger] rest[k][i]
            != '\n' by {
            assert(rest[k] == ls[k + 1]);
        }
        lemma_split_join(rest);
        assert forall|i: int| 0 <= i < ls[0].len() implies ls[0][i] != '\n' by {}
        lemma_split_cons(ls[0], join_lines(rest));
        assert(join_lines(ls) == ls[0] + seq!['\n'] + join_lines(rest));
        assert(split_lines(join_lines(ls)) == seq![ls[0]] + split_lines(join_lines(rest)));
        assert(seq![ls[0]] + rest.push(Seq::<char>::empty()) =~= ls.push(Seq::<char>::empty()));
    }
}

/// Running lines in two stages composes.
proof fn lemma_run_append(st: ParseState, a: Seq<Seq<char>>, b: Seq<Seq<char>>)
    ensures
        run_lines(st, a + b) == run_lines(run_lines(st, a), b),
    decreases a.len(),
{
    if a.len() == 0 {
        assert(a + b =~= b);
    } else {
        assert((a + b)[0] == a[0]);
        assert((a + b).drop_first() =~= a.drop_first() + b);
        lemma_run_append(step_line(st, a[0]), a.drop_first(), b);
    }
}

proof fn lemma_prefix_concat_cancel(a: Seq<char>, t: Seq<char>, q: Seq<char>)
    requires
        has_prefix(a + t, a + q),
    ensures
        has_prefix(t, q),
{
    let s = a + t;
    let p = a + q;
    assert(s.take(p.len() as int) == p);
    assert forall|k: int| 0 <= k < q.len() implies t[k] == q[k] by {
        assert(s.take(p.len() as int)[a.len() + k] == p[a.len() + k]);
        assert(s[a.len() + k] == t[k]);
        assert(p[a.len() + k] == q[k]);
    }
    assert(t.take(q.len() as int) =~= q);
}

/// Every line of a record's block is free of newlines.
proof fn lemma_block_lines_plain(s: SessionRec)
    requires
        rec_serializable(s),
    ensures
        forall|k: int, i: int|
            0 <= k < block_lines(s).len() && 0 <= i < block_lines(s)[k].len()
                ==> #[trigger] block_lines(s)[k][i] != '\n',
{
    reveal_strlit("### ");
    reveal_strlit("- Work sessions: ");
    reveal_strlit("- Total work time: ");
    reveal_strlit("- Break sessions: ");
    reveal_strlit("- Total break time: ");
    reveal_strlit("- Tasks worked on:");
    reveal_strlit("  - ");
    reveal_strlit(" minutes");
    lemma_date_str_plain(s.date);
    lemma_dec_str_plain(s.work_sessions as nat);
    lemma_dec_str_plain(s.total_work_minutes as nat);
    lemma_dec_str_plain(s.break_sessions as nat);
    lemma_dec_str_plain(s.total_break_minutes as nat);
    let bl = block_lines(s);
    assert forall|k: int, i: int|
        0 <= k < bl.len() && 0 <= i < bl[k].len() implies #[trigger] bl[k][i] != '\n' by {
        if k >= 6 && k < bl.len() - 1 && s.tasks.len() > 0 {
            assert(bl[k] == "  - "@ + s.tasks[k - 6]);
            assert(!s.tasks[k - 6].contains('\n'));
            if i >= "  - "@.len() {
                assert(bl[k][i] == s.tasks[k - 6][i - "  - "@.len()]);
                assert(s.tasks[k - 6][i - "  - "@.len()] != '\n') by {
                    if s.tasks[k - 6][i - "  - "@.len()] == '\n' {
                        assert(s.tasks[k - 6].contains('\n'));
                    }
                }
            }
        }
    }
}

/// Every line of the serialized section is free of newlines.
proof fn lemma_blocks_lines_plain(ss: Seq<SessionRec>)
    requires
        forall|i: int| 0 <= i < ss.len() ==> rec_serializable(#[trigger] ss[i]),
    ensures
        forall|k: int, i: int|
            0 <= k < blocks_lines(ss).len() && 0 <= i < blocks_lines(ss)[k].len()
                ==> #[trigger] blocks_lines(ss)[k][i] != '\n',
    decreases ss.len(),
{
    if ss.len() > 0 {
        let rest = ss.drop_first();
        assert forall|i: int| 0 <= i < rest.len() implies rec_serializable(#[trigger] rest[i]) by {
            assert(rest[i] == ss[i + 1]);
        }
        lemma_blocks_lines_plain(rest);
        lemma_block_lines_plain(ss[0]);
        let b0 = block_lines(ss[0]);
        let br = blocks_lines(rest);
        assert forall|k: int, i: int|
            0 <= k < blocks_lines(ss).len() && 0 <= i < blocks_lines(ss)[k].len() implies
            #[trigger] blocks_lines(ss)[k][i] != '\n' by {
            assert(blocks_lines(ss) == b0 + br);
            if k < b0.len() {
                assert(blocks_lines(ss)[k] == b0[k]);
            } else {
                assert(blocks_lines(ss)[k] == br[k - b0.len()]);
            }
        }
    }
}

/// A record the codec round-trips: a well-formed date, and task names that
/// hold no newline and do not begin like the task-list header.
pub open spec fn rec_serializable(s: SessionRec) -> bool {
    &&& s.date.wf()
    &&& forall|k: int| 0 <= k < s.tasks.len() ==> !(#[trigger] s.tasks[k]).contains('\n')
    &&& forall|k: int|
        0 <= k < s.tasks.len() ==> !has_prefix(#[trigger] s.tasks[k], "Tasks worked on:"@)
}

proof fn lemma_step_header(st: ParseState, d: Date)
    requires
        st.in_section,
        d.wf(),
    ensures
        step_line(st, "### "@ + date_str(d)) == (ParseState {
            in_section: true,
            done: flush(st),
            current: Some(empty_rec(d)),
        }),
{
    reveal_strlit("### ");
    let line = "### "@ + date_str(d);
    lemma_prefix_concat("### "@, date_str(d));
    lemma_date_round_trip(d);
    assert(line.skip("### "@.len() as int) =~= date_str(d));
}

proof fn lemma_step_ws(st: ParseState, c: SessionRec, n: u32)
    requires
        st.in_section,
        st.current == Some(c),
    ensures
        step_line(st, "- Work sessions: "@ + dec_str(n as nat)) == (ParseState {
            current: Some(SessionRec { work_sessions: n, ..c }),
            ..st
        }),
{
    reveal_strlit("### ");
    reveal_strlit("- Work sessions: ");
    let line = "- Work sessions: "@ + dec_str(n as nat);
    crate::text::lemma_dec_str(n as nat);
    assert(line[0] == '-');
    lemma_not_prefix_at(line, "### "@, 0);
    lemma_prefix_concat("- Work sessions: "@, dec_str(n as nat));
    assert(line.skip("- Work sessions: "@.len() as int) =~= dec_str(n as nat));
    assert(spec_parse_u32(dec_str(n as nat)) == Some(n));
}

proof fn lemma_step_twm(st: ParseState, c: SessionRec, n: u32)
    requires
        st.in_section,
        st.current == Some(c),
    ensures
        step_line(st, "- Total work time: "@ + dec_str(n as nat) + " minutes"@) == (ParseState {
            current: Some(SessionRec { total_work_minutes: n, ..c }),
            ..st
        }),
{
    reveal_strlit("### ");
    reveal_strlit("- Work sessions: ");
    reveal_strlit("- Total work time: ");
    reveal_strlit(" minutes");
    let p = "- Total work time: "@;
    let line = p + dec_str(n as nat) + " minutes"@;
    crate::text::lemma_dec_str(n as nat);
    lemma_dec_str_plain(n as nat);
    assert(line[0] == p[0]);
    assert(line[0] == '-');
    lemma_not_prefix_at(line, "### "@, 0);
    assert(line[2] == p[2]);
    assert(line[2] == 'T');
    lemma_not_prefix_at(line, "- Work sessions: "@, 2);
    assert forall|i: int| 0 <= i < p.len() implies line[i] == p[i] by {}
    assert(line.take(p.len() as int) =~= p);
    assert(has_prefix(line, p));
    assert(line.skip(p.len() as int) =~= dec_str(n as nat) + " minutes"@);
    lemma_token_end_concat(dec_str(n as nat), " minutes"@);
    assert(first_token(line.skip(p.len() as int)) == first_token(
        dec_str(n as nat) + " minutes"@,
    ));
    assert(spec_parse_u32(first_token(dec_str(n as nat) + " minutes"@)) == Some(n));
}

proof fn lemma_step_bs(st: ParseState, c: SessionRec, n: u32)
    requires
        st.in_section,
        st.current == Some(c),
    ensures
        step_line(st, "- Break sessions: "@ + dec_str(n as nat)) == (ParseState {
            current: Some(SessionRec { break_sessions: n, ..c }),
            ..st
        }),
{
    reveal_strlit("### ");
    reveal_strlit("- Work sessions: ");
    reveal_strlit("- Total work time: ");
    reveal_strlit("- Break sessions: ");
    let p = "- Break sessions: "@;
    let line = p + dec_str(n as nat);
    crate::text::lemma_dec_str(n as nat);
    assert(line[0] == '-');
    lemma_not_prefix_at(line, "### "@, 0);
    assert(line[2] == 'B');
    lemma_not_prefix_at(line, "- Work sessions: "@, 2);
    lemma_not_prefix_at(line, "- Total work time: "@, 2);
    lemma_prefix_concat(p, dec_str(n as nat));
    assert(line.skip(p.len() as int) =~= dec_str(n as nat));
    assert(spec_parse_u32(dec_str(n as nat)) == Some(n));
}

proof fn lemma_step_tbm(st: ParseState, c: SessionRec, n: u32)
    requires
        st.in_section,
        st.current == Some(c),
    ensures
        step_line(st, "- Total break time: "@ + dec_str(n as nat) + " minutes"@) == (ParseState {
            current: Some(SessionRec { total_break_minutes: n, ..c }),
            ..st
        }),
{
    reveal_strlit("### ");
    reveal_strlit("- Work sessions: ");
    reveal_strlit("- Total work time: ");
    reveal_strlit("- Break sessions: ");
    reveal_strlit("- Total break time: ");
    reveal_strlit(" minutes");
    let p = "- Total break time: "@;
    let line = p + dec_str(n as nat) + " minutes"@;
    crate::text::lemma_dec_str(n as nat);
    lemma_dec_str_plain(n as nat);
    assert(line[0] == p[0]);
    assert(line[0] == '-');
    lemma_not_prefix_at(line, "### "@, 0);
    assert(line[2] == p[2]);
    assert(line[2] == 'T');
    lemma_not_prefix_at(line, "- Work sessions: "@, 2);
    lemma_not_prefix_at(line, "- Break sessions: "@, 2);
    assert(line[8] == p[8]);
    assert(line[8] == 'b');
    lemma_not_prefix_at(line, "- Total work time: "@, 8);
    assert forall|i: int| 0 <= i < p.len() implies line[i] == p[i] by {}
    assert(line.take(p.len() as int) =~= p);
    assert(has_prefix(line, p));
    assert(line.skip(p.len() as int) =~= dec_str(n as nat) + " minutes"@);
    lemma_token_end_concat(dec_str(n as nat), " minutes"@);
    assert(spec_parse_u32(first_token(dec_str(n as nat) + " minutes"@)) == Some(n));
}

proof fn lemma_step_task_header(st: ParseState)
    requires
        st.in_section,
        st.current is Some,
    ensures
        step_line(st, "- Tasks worked on:"@) == st,
{
    reveal_strlit("### ");
    reveal_strlit("- Work sessions: ");
    reveal_strlit("- Total work time: ");
    reveal_strlit("- Break sessions: ");
    reveal_strlit("- Total break time: ");
    reveal_strlit("- Tasks worked on:");
    reveal_strlit("  - ");
    let line = "- Tasks worked on:"@;
    lemma_not_prefix_at(line, "### "@, 0);
    lemma_not_prefix_at(line, "- Work sessions: "@, 2);
    lemma_not_prefix_at(line, "- Total work time: "@, 3);
    lemma_not_prefix_at(line, "- Break sessions: "@, 2);
    lemma_not_prefix_at(line, "- Total break time: "@, 3);
    lemma_not_prefix_at(line, "  - "@, 0);
}

proof fn lemma_step_task(st: ParseState, c: SessionRec, t: Seq<char>)
    requires
        st.in_section,
        st.current == Some(c),
        !has_prefix(t, "Tasks worked on:"@),
    ensures
        step_line(st, "  - "@ + t) == (ParseState {
            current: Some(SessionRec { tasks: c.tasks.push(t), ..c }),
            ..st
        }),
{
    reveal_strlit("### ");
    reveal_strlit("- Work sessions: ");
    reveal_strlit("- Total work time: ");
    reveal_strlit("- Break sessions: ");
    reveal_strlit("- Total break time: ");
    reveal_strlit("  - ");
    reveal_strlit("  - Tasks worked on:");
    reveal_strlit("Tasks worked on:");
    let line = "  - "@ + t;
    assert(line[0] == ' ');
    lemma_not_prefix_at(line, "### "@, 0);
    lemma_not_prefix_at(line, "- Work sessions: "@, 0);
    lemma_not_prefix_at(line, "- Total work time: "@, 0);
    lemma_not_prefix_at(line, "- Break sessions: "@, 0);
    lemma_not_prefix_at(line, "- Total break time: "@, 0);
    lemma_prefix_concat("  - "@, t);
    assert("  - Tasks worked on:"@ =~= "  - "@ + "Tasks worked on:"@);
    if has_prefix(line, "  - Tasks worked on:"@) {
        assert(has_prefix("  - "@ + t, "  - "@ + "Tasks worked on:"@));
        lemma_prefix_concat_cancel("  - "@, t, "Tasks worked on:"@);
        assert(false);
    }
    assert(line.skip("  - "@.len() as int) =~= t);
}

proof fn lemma_step_blank(st: ParseState)
    requires
        st.in_section,
    ensures
        step_line(st, Seq::<char>::empty()) == st,
{
    reveal_strlit("### ");
    reveal_strlit("- Work sessions: ");
    reveal_strlit("- Total work time: ");
    reveal_strlit("- Break sessions: ");
    reveal_strlit("- Total break time: ");
    reveal_strlit("  - ");
}

proof fn lemma_run_tasks(st: ParseState, c: SessionRec, ts: Seq<Seq<char>>)
    requires
        st.in_section,
        st.current == Some(c),
        forall|k: int| 0 <= k < ts.len() ==> !has_prefix(#[trigger] ts[k], "Tasks worked on:"@),
    ensures
        run_lines(st, ts.map_values(|t: Seq<char>| "  - "@ + t)) == (ParseState {
            current: Some(SessionRec { tasks: c.tasks + ts, ..c }),
            ..st
        }),
    decreases ts.len(),
{
    let m = ts.map_values(|t: Seq<char>| "  - "@ + t);
    if ts.len() == 0 {
        assert(c.tasks + ts =~= c.tasks);
        assert((SessionRec { tasks: c.tasks + ts, ..c }) =~= c);
        assert((ParseState { current: Some(SessionRec { tasks: c.tasks + ts, ..c }), ..st })
            =~= st);
    } else {
        assert(m[0] == "  - "@ + ts[0]);
        lemma_step_task(st, c, ts[0]);
        let st1 = step_line(st, m[0]);
        let c1 = SessionRec { tasks: c.tasks.push(ts[0]), ..c };
        assert(st1.current == Some(c1));
        assert(st1.in_section);
        let rest = ts.drop_first();
        assert forall|k: int|
            0 <= k < rest.len() implies !has_prefix(#[trigger] rest[k], "Tasks worked on:"@) by {
            assert(rest[k] == ts[k + 1]);
        }
        lemma_run_tasks(st1, c1, rest);
        assert(m.drop_first() =~= rest.map_values(|t: Seq<char>| "  - "@ + t));
        assert(c1.tasks + rest =~= c.tasks + ts);
        assert((SessionRec { tasks: c1.tasks + rest, ..c1 }) =~= (SessionRec {
            tasks: c.tasks + ts,
            ..c
        }));
        assert(st1 == (ParseState { current: Some(c1), ..st }));
        assert(run_lines(st, m) == run_lines(st1, m.drop_first()));
    }
}

#[verifier::rlimit(100)]
proof fn lemma_run_block(st: ParseState, s: SessionRec)
    requires
        st.in_section,
        rec_serializable(s),
    ensures
        run_lines(st, block_lines(s)) == (ParseState {
            in_section: true,
            done: flush(st),
            current: Some(s),
        }),
{
    let l0 = "### "@ + date_str(s.date);
    let l1 = "- Work sessions: "@ + dec_str(s.work_sessions as nat);
    let l2 = "- Total work time: "@ + dec_str(s.total_work_minutes as nat) + " minutes"@;
    let l3 = "- Break sessions: "@ + dec_str(s.break_sessions as nat);
    let l4 = "- Total break time: "@ + dec_str(s.total_break_minutes as nat) + " minutes"@;
    let five = seq![l0, l1, l2, l3, l4];
    let taskpart: Seq<Seq<char>> = if s.tasks.len() == 0 {
        Seq::<Seq<char>>::empty()
    } else {
        seq!["- Tasks worked on:"@] + s.tasks.map_values(|t: Seq<char>| "  - "@ + t)
    };
    assert(block_lines(s) == five + taskpart + seq![Seq::<char>::empty()]);

    lemma_step_header(st, s.date);
    let st1 = step_line(st, l0);
    assert(st1 == (ParseState { in_section: true, done: flush(st), current: Some(empty_rec(s.date)) }));
    let c1 = empty_rec(s.date);
    lemma_step_ws(st1, c1, s.work_sessions);
    let st2 = step_line(st1, l1);
    let c2 = SessionRec { work_sessions: s.work_sessions, ..c1 };
    lemma_step_twm(st2, c2, s.total_work_minutes);
    let st3 = step_line(st2, l2);
    let c3 = SessionRec { total_work_minutes: s.total_work_minutes, ..c2 };
    lemma_step_bs(st3, c3, s.break_sessions);
    let st4 = step_line(st3, l3);
    let c4 = SessionRec { break_sessions: s.break_sessions, ..c3 };
    lemma_step_tbm(st4, c4, s.total_break_minutes);
    let st5 = step_line(st4, l4);
    let c5 = SessionRec { total_break_minutes: s.total_break_minutes, ..c4 };
    assert(st5 == (ParseState { in_section: true, done: flush(st), current: Some(c5) }));

    assert(five.drop_first() =~= seq![l1, l2, l3, l4]);
    assert(seq![l1, l2, l3, l4].drop_first() =~= seq![l2, l3, l4]);
    assert(seq![l2, l3, l4].drop_first() =~= seq![l3, l4]);
    assert(seq![l3, l4].drop_first() =~= seq![l4]);
    assert(seq![l4].drop_first() =~= Seq::<Seq<char>>::empty());
    assert(five[0] == l0);
    assert(seq![l1, l2, l3, l4][0] == l1);
    assert(seq![l2, l3, l4][0] == l2);
    assert(seq![l3, l4][0] == l3);
    assert(seq![l4][0] == l4);
    assert(run_lines(st5, Seq::<Seq<char>>::empty()) == st5);
    assert(run_lines(st4, seq![l4]) == st5);
    assert(run_lines(st3, seq![l3, l4]) == st5);
    assert(run_lines(st2, seq![l2, l3, l4]) == st5);
    assert(run_lines(st1, seq![l1, l2, l3, l4]) == st5);
    assert(run_lines(st, five) == st5);

    let st6 = run_lines(st5, taskpart);
    let c6 = SessionRec { tasks: s.tasks, ..c5 };
    if s.tasks.len() == 0 {
        assert(st6 == st5);
        assert(c5.tasks =~= s.tasks);
        assert(c5 =~= c6);
    } else {
        lemma_step_task_header(st5);
        let sth = step_line(st5, "- Tasks worked on:"@);
        assert(sth == st5);
        assert forall|k: int|
            0 <= k < s.tasks.len() implies !has_prefix(
            #[trigger] s.tasks[k],
            "Tasks worked on:"@,
        ) by {}
        lemma_run_tasks(st5, c5, s.tasks);
        assert(taskpart.drop_first() =~= s.tasks.map_values(|t: Seq<char>| "  - "@ + t));
        assert(taskpart[0] == "- Tasks worked on:"@);
        assert(run_lines(st5, taskpart) == run_lines(sth, taskpart.drop_first()));
        assert(c5.tasks + s.tasks =~= s.tasks);
        assert((SessionRec { tasks: c5.tasks + s.tasks, ..c5 }) =~= c6);
    }
    assert(st6 == (ParseState { in_section: true, done: flush(st), current: Some(c6) }));
    assert(c6 =~= s);

    lemma_run_append(st, five + taskpart, seq![Seq::<char>::empty()]);
    lemma_run_append(st, five, taskpart);
    lemma_step_blank(st6);
    assert(seq![Seq::<char>::empty()].drop_first() =~= Seq::<Seq<char>>::empty());
    assert(seq![Seq::<char>::empty()][0] == Seq::<char>::empty());
    assert(run_lines(step_line(st6, Seq::<char>::empty()), Seq::<Seq<char>>::empty())
        == step_line(st6, Seq::<char>::empty()));
    assert(run_lines(st6, seq![Seq::<char>::empty()]) == step_line(st6, Seq::<char>::empty()));
    assert(run_lines(st, block_lines(s)) == st6);
}

proof fn lemma_run_blocks(st: ParseState, ss: Seq<SessionRec>)
    requires
        st.in_section,
        ss.len() > 0,
        forall|i: int| 0 <= i < ss.len() ==> rec_serializable(#[trigger] ss[i]),
    ensures
        run_lines(st, blocks_lines(ss)) == (ParseState {
            in_section: true,
            done: flush(st) + ss.take(ss.len() - 1),
            current: Some(ss.last()),
        }),
    decreases ss.len(),
{
    assert(blocks_lines(ss) == block_lines(ss[0]) + blocks_lines(ss.drop_first()));
    lemma_run_append(st, block_lines(ss[0]), blocks_lines(ss.drop_first()));
    lemma_run_block(st, ss[0]);
    let st1 = ParseState { in_section: true, done: flush(st), current: Some(ss[0]) };
    if ss.len() == 1 {
        assert(ss.drop_first() =~= Seq::<SessionRec>::empty());
        assert(blocks_lines(ss.drop_first()) == Seq::<Seq<char>>::empty());
        assert(run_lines(st1, Seq::<Seq<char>>::empty()) == st1);
        assert(flush(st) + ss.take(0) =~= flush(st));
        assert(ss.last() == ss[0]);
    } else {
        let rest = ss.drop_first();
        assert forall|i: int| 0 <= i < rest.len() implies rec_serializable(
            #[trigger] rest[i],
        ) by {
            assert(rest[i] == ss[i + 1]);
        }
        lemma_run_blocks(st1, rest);
        assert(flush(st1) =~= flush(st).push(ss[0]));
        assert(flush(st1) + rest.take(rest.len() - 1) =~= flush(st) + ss.take(ss.len() - 1));
        assert(rest.last() == ss.last());
    }
}

/// Serializing any round-trippable records and parsing the result returns
/// exactly those records, field for field, tasks included.
pub proof fn lemma_serialize_parse_round_trip(ss: Seq<SessionRec>)
    requires
        forall|i: int| 0 <= i < ss.len() ==> rec_serializable(#[trigger] ss[i]),
    ensures
        spec_parse(spec_serialize(ss)) == ss,
{
    reveal_strlit("## Pomodoro Sessions");
    reveal_strlit("### ");
    if ss.len() == 0 {
        let content = Seq::<char>::empty();
        assert(split_lines(content) == seq![Seq::<char>::empty()]);
        let st1 = step_line(initial_state(), Seq::<char>::empty());
        assert(Seq::<char>::empty() != "## Pomodoro Sessions"@);
        assert(st1 == initial_state());
        assert(seq![Seq::<char>::empty()].drop_first() =~= Seq::<Seq<char>>::empty());
        assert(seq![Seq::<char>::empty()][0] == Seq::<char>::empty());
        assert(run_lines(st1, seq![Seq::<char>::empty()].drop_first()) == st1);
        assert(run_lines(initial_state(), split_lines(content)) == st1);
        assert(flush(initial_state()) =~= Seq::<SessionRec>::empty());
        assert(spec_parse(content) =~= ss);
    } else {
        let marker = "## Pomodoro Sessions"@;
        let e = Seq::<char>::empty();
        let pre = seq![e, marker, e];
        let lines = all_lines(ss);
        assert(lines == pre + blocks_lines(ss));

        // every emitted line is newline-free
        lemma_blocks_lines_plain(ss);
        assert forall|i: int| 0 <= i < marker.len() implies marker[i] != '\n' by {}
        assert forall|k: int, i: int|
            0 <= k < lines.len() && 0 <= i < lines[k].len() implies #[trigger] lines[k][i]
            != '\n' by {
            if k < 3 {
                assert(lines[k] == pre[k]);
            } else {
                assert(lines[k] == blocks_lines(ss)[k - 3]);
            }
        }
        lemma_split_join(lines);
        assert(spec_serialize(ss) == join_lines(lines));
        assert(split_lines(spec_serialize(ss)) == lines.push(e));

        // run the prelude
        let st0 = initial_state();
        let st1 = step_line(st0, e);
        assert(e != marker);
        assert(st1 == st0);
        let st2 = step_line(st1, marker);
        assert(st2 == (ParseState { in_section: true, done: Seq::empty(), current: None }));
        lemma_step_blank2(st2);
        let st3 = step_line(st2, e);
        assert(st3 == st2);
        assert(pre.drop_first() =~= seq![marker, e]);
        assert(seq![marker, e].drop_first() =~= seq![e]);
        assert(seq![e].drop_first() =~= Seq::<Seq<char>>::empty());
        assert(pre[0] == e);
        assert(seq![marker, e][0] == marker);
        assert(seq![e][0] == e);
        assert(run_lines(st3, Seq::<Seq<char>>::empty()) == st3);
        assert(run_lines(st2, seq![e]) == run_lines(st3, Seq::<Seq<char>>::empty()));
        assert(run_lines(st1, seq![marker, e]) == run_lines(st2, seq![e]));
        assert(run_lines(st0, pre) == run_lines(st1, seq![marker, e]));
        assert(run_lines(st0, pre) == st3);

        // run the blocks
        lemma_run_blocks(st3, ss);
        let st4 = run_lines(st3, blocks_lines(ss));
        assert(flush(st3) =~= Seq::<SessionRec>::empty());
        assert(flush(st3) + ss.take(ss.len() - 1) =~= ss.take(ss.len() - 1));
        assert(st4 == (ParseState {
            in_section: true,
            done: ss.take(ss.len() - 1),
            current: Some(ss.last()),
        }));

        // the trailing empty segment changes nothing
        lemma_step_blank(st4);
        let st5 = step_line(st4, e);
        assert(st5 == st4);

        lemma_run_append(st0, pre, blocks_lines(ss));
        assert(lines.push(e) =~= (pre + blocks_lines(ss)) + seq![e]);
        lemma_run_append(st0, pre + blocks_lines(ss), seq![e]);
        assert(seq![e].drop_first() =~= Seq::<Seq<char>>::empty());
        assert(seq![e][0] == e);
        assert(run_lines(st5, Seq::<Seq<char>>::empty()) == st5);
        assert(run_lines(st4, seq![e]) == st5);
        assert(run_lines(st0, lines.push(e)) == st4);
        assert(flush(st4) =~= ss.take(ss.len() - 1).push(ss.last()));
        assert(ss.take(ss.len() - 1).push(ss.last()) =~= ss);
        assert(spec_parse(spec_serialize(ss)) == ss);
    }
}

proof fn lemma_step_blank2(st: ParseState)
    requires
        st.in_section,
        st.current is None,
    ensures
        step_line(st, Seq::<char>::empty()) == st,
{
    reveal_strlit("### ");
}

/// All dates a parser state holds are well formed.
pub open spec fn state_dates_wf(st: ParseState) -> bool {
    &&& forall|i: int| 0 <= i < st.done.len() ==> (#[trigger] st.done[i]).date.wf()
    &&& (st.current matches Some(c) ==> c.date.wf())
}

proof fn lemma_parse_date_wf(s: Seq<char>)
    ensures
        spec_parse_date(s) matches Some(d) ==> d.wf(),
{
}

proof fn lemma_step_dates_wf(st: ParseState, l: Seq<char>)
    requires
        state_dates_wf(st),
    ensures
        state_dates_wf(step_line(st, l)),
{
    lemma_parse_date_wf(l.skip("### "@.len() as int));
    assert forall|i: int| 0 <= i < flush(st).len() implies (#[trigger] flush(st)[i]).date.wf() by {
        match st.current {
            Some(c) => {
                if i < st.done.len() {
                    assert(flush(st)[i] == st.done[i]);
                } else {
                    assert(flush(st)[i] == c);
                }
            },
            None => {},
        }
    }
}

proof fn lemma_run_dates_wf(st: ParseState, ls: Seq<Seq<char>>)
    requires
        state_dates_wf(st),
    ensures
        state_dates_wf(run_lines(st, ls)),
    decreases ls.len(),
{
    if ls.len() > 0 {
        lemma_step_dates_wf(st, ls[0]);
        lemma_run_dates_wf(step_line(st, ls[0]), ls.drop_first());
    }
}

/// Every record a parse yields carries a well-formed date.
pub proof fn lemma_parse_dates_wf(content: Seq<char>)
    ensures
        forall|i: int|
            0 <= i < spec_parse(content).len() ==> (#[trigger] spec_parse(content)[i]).date.wf(),
{
    lemma_run_dates_wf(initial_state(), split_lines(content));
    let st = run_lines(initial_state(), split_lines(content));
    assert forall|i: int|
        0 <= i < spec_parse(content).len() implies (#[trigger] spec_parse(
        content,
    )[i]).date.wf() by {
        match st.current {
            Some(c) => {
                if i < st.done.len() {
                    assert(spec_parse(content)[i] == st.done[i]);
                } else {
                    assert(spec_parse(content)[i] == c);
                }
            },
            None => {},
        }
    }
}

/// Whether a record for each date occurs at most once.
pub fn dates_are_unique(v: &Vec<PomodoroSession>) -> (r: bool)
    ensures
        r == dates_unique(sv_seq(v@)),
{
    let n = v.len();
    let mut i: usize = 0;
    while i < n
        invariant
            n == v@.len(),
            i <= n,
            forall|a: int, b: int|
                0 <= a < b < v@.len() && a < i ==> (#[trigger] sv_seq(v@)[a]).date != (
                #[trigger] sv_seq(v@)[b]).date,
        decreases n - i,
    {
        let mut j: usize = i + 1;
        while j < n
            invariant
                n == v@.len(),
                i < j <= n || (i + 1 == j && j > n),
                i < n,
                forall|a: int, b: int|
                    0 <= a < b < v@.len() && a < i ==> (#[trigger] sv_seq(v@)[a]).date != (
                    #[trigger] sv_seq(v@)[b]).date,
                forall|b: int|
                    i < b < j ==> (#[trigger] sv_seq(v@)[b]).date != sv_seq(v@)[i as int].date,
            decreases n - j,
        {
            if v[i].date == v[j].date {
                assert(sv_seq(v@)[i as int].date == sv_seq(v@)[j as int].date);
                return false;
            }
            assert(sv_seq(v@)[j as int].date != sv_seq(v@)[i as int].date);
            j = j + 1;
        }
        i = i + 1;
    }
    true
}

/// Parse a whole save file's session section: the records of each block
/// whose header date parses, with each malformed line ignored.
pub fn parse_sessions(content: &str) -> (r: Vec<PomodoroSession>)
    ensures
        sv_seq(r@) == spec_parse(content@),
        forall|i: int| 0 <= i < r@.len() ==> (#[trigger] r@[i]).date.wf(),
{
    proof {
        lemma_parse_dates_wf(content@);
    }
    let lines = split_lines_exec(content);
    let mut in_section = false;
    let mut done: Vec<PomodoroSession> = Vec::new();
    let mut current: Option<PomodoroSession> = None;
    let n = lines.len();
    let ghost ls = split_lines(content@);
    proof {
        assert(lines.deep_view().len() == lines@.len());
        assert(ls.take(0) =~= Seq::<Seq<char>>::empty());
        assert(run_lines(initial_state(), ls.take(0)) == initial_state());
        assert(sv_seq(done@) =~= Seq::<SessionRec>::empty());
        assert(pstate(in_section, done@, current) == initial_state());
    }
    let mut i: usize = 0;
    while i < n
        invariant
            n == lines@.len(),
            i <= n,
            ls == split_lines(content@),
            lines.deep_view() == ls,
            pstate(in_section, done@, current) == run_lines(initial_state(), ls.take(i as int)),
        decreases n - i,
    {
        proof {
            assert(lines@[i as int]@ == lines.deep_view()[i as int]);
            lemma_run_take(initial_state(), ls, i as int);
        }
        step_parser(&mut in_section, &mut done, &mut current, lines[i].as_str());
        i = i + 1;
    }
    proof {
        assert(ls.take(n as int) =~= ls);
    }
    if let Some(c) = current.take() {
        let ghost prev_done = done@;
        done.push(c);
        proof {
            crate::timer::lemma_sv_push(prev_done, c);
            assert(sv_seq(done@) =~= spec_parse(content@));
        }
    }
    proof {
        assert(sv_seq(done@) == spec_parse(content@));
        assert forall|i: int| 0 <= i < done@.len() implies (#[trigger] done@[i]).date.wf() by {
            assert(sv_seq(done@)[i] == done@[i]@);
            assert(spec_parse(content@)[i].date.wf());
        }
    }
    done
}

} // verus!
