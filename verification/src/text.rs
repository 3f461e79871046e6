//! Text as sequences of characters: what trimming, line splitting, prefixes and decimal numbers
//! mean, and the functions that compute them.
use vstd::prelude::*;
use vstd::string::*;

verus! {

/// Appends a character to a string, as `String::push` documents: the string afterwards is the
/// string before with that character behind it.
pub assume_specification[ String::push ](s: &mut String, c: char)
    ensures
        final(s)@ == old(s)@.push(c),
;

// ---------------------------------------------------------------------------------------------
// What text functions mean
// ---------------------------------------------------------------------------------------------

/// The code points that carry the Unicode property `White_Space`.
pub open spec fn is_space(c: char) -> bool {
    ||| '\u{9}' <= c <= '\u{d}'
    ||| c == ' '
    ||| c == '\u{85}'
    ||| c == '\u{a0}'
    ||| c == '\u{1680}'
    ||| '\u{2000}' <= c <= '\u{200a}'
    ||| c == '\u{2028}'
    ||| c == '\u{2029}'
    ||| c == '\u{202f}'
    ||| c == '\u{205f}'
    ||| c == '\u{3000}'
}

/// `s` without its leading white space.
pub open spec fn trim_start_of(s: Seq<char>) -> Seq<char>
    decreases s.len(),
{
    if s.len() > 0 && is_space(s[0]) {
        trim_start_of(s.drop_first())
    } else {
        s
    }
}

/// `s` without its trailing white space.
pub open spec fn trim_end_of(s: Seq<char>) -> Seq<char>
    decreases s.len(),
{
    if s.len() > 0 && is_space(s.last()) {
        trim_end_of(s.drop_last())
    } else {
        s
    }
}

/// `s` without white space at either end.
pub open spec fn trim_of(s: Seq<char>) -> Seq<char> {
    trim_end_of(trim_start_of(s))
}

/// `s` without the carriage returns at its end.
pub open spec fn trim_cr_of(s: Seq<char>) -> Seq<char>
    decreases s.len(),
{
    if s.len() > 0 && s.last() == '\r' {
        trim_cr_of(s.drop_last())
    } else {
        s
    }
}

/// What follows `prefix` in `s`, if `s` starts with it.
pub open spec fn strip(s: Seq<char>, prefix: Seq<char>) -> Option<Seq<char>> {
    if prefix.is_prefix_of(s) {
        Some(s.skip(prefix.len() as int))
    } else {
        None
    }
}

/// The index of the first `c` in `s`, or the length of `s` where there is none.
pub open spec fn find_char(s: Seq<char>, c: char) -> nat
    decreases s.len(),
{
    if s.len() == 0 || s[0] == c {
        0
    } else {
        1 + find_char(s.drop_first(), c)
    }
}

/// The last place of `c` in `s`, and -1 if it has none.
pub open spec fn last_place(s: Seq<char>, c: char) -> int
    decreases s.len(),
{
    if s.len() == 0 {
        -1
    } else if s.last() == c {
        s.len() - 1
    } else {
        last_place(s.drop_last(), c)
    }
}

/// A line without the carriage return that may precede its line feed.
pub open spec fn chop_cr(s: Seq<char>) -> Seq<char> {
    if s.len() > 0 && s.last() == '\r' {
        s.drop_last()
    } else {
        s
    }
}

/// The lines of `s`: a line ends in a line feed or in a carriage return and a line feed, and the
/// ending of the last line is optional.
pub open spec fn lines_of(s: Seq<char>) -> Seq<Seq<char>>
    decreases s.len(),
{
    let end = find_char(s, '\n');
    if s.len() == 0 {
        seq![]
    } else if end >= s.len() {
        seq![s]
    } else {
        seq![chop_cr(s.take(end as int))] + lines_of(s.skip(end as int + 1))
    }
}

/// The parts, in order, with `sep` between each two neighbours.
pub open spec fn join_of(parts: Seq<Seq<char>>, sep: Seq<char>) -> Seq<char>
    decreases parts.len(),
{
    if parts.len() == 0 {
        seq![]
    } else if parts.len() == 1 {
        parts[0]
    } else {
        join_of(parts.drop_last(), sep) + sep + parts.last()
    }
}

/// The texts of a sequence of strings.
pub open spec fn texts(v: Seq<String>) -> Seq<Seq<char>> {
    Seq::new(v.len(), |i: int| v[i]@)
}

/// The text of an optional string.
pub open spec fn opt_text(o: Option<String>) -> Option<Seq<char>> {
    match o {
        Some(s) => Some(s@),
        None => None,
    }
}

pub open spec fn is_digit(c: char) -> bool {
    '0' <= c <= '9'
}

pub open spec fn all_digits(s: Seq<char>) -> bool {
    forall|i: int| 0 <= i < s.len() ==> is_digit(#[trigger] s[i])
}

/// The number that a digit stands for.
pub open spec fn digit_value(c: char) -> nat {
    (c as nat - '0' as nat) as nat
}

/// The digit that stands for a number below ten.
pub open spec fn digit_char(d: nat) -> char {
    ('0' as nat + d) as char
}

/// The number that a sequence of decimal digits stands for.
pub open spec fn number_of(s: Seq<char>) -> nat
    decreases s.len(),
{
    if s.len() == 0 {
        0
    } else {
        number_of(s.drop_last()) * 10 + digit_value(s.last())
    }
}

/// A number in decimal digits, without leading zeros.
pub open spec fn decimal(n: nat) -> Seq<char>
    decreases n,
{
    if n < 10 {
        seq![digit_char(n)]
    } else {
        decimal(n / 10).push(digit_char(n % 10))
    }
}

/// A signed number in decimal digits.
pub open spec fn decimal_signed(n: int) -> Seq<char> {
    if n < 0 {
        seq!['-'] + decimal((-n) as nat)
    } else {
        decimal(n as nat)
    }
}

/// The character with an ASCII capital letter made small.
pub open spec fn ascii_lower(c: char) -> char {
    if 'A' <= c <= 'Z' {
        (c as nat + 32) as char
    } else {
        c
    }
}

/// Two texts that differ at most in the case of ASCII letters.
pub open spec fn same_ignoring_case(s: Seq<char>, t: Seq<char>) -> bool {
    &&& s.len() == t.len()
    &&& forall|i: int| 0 <= i < s.len() ==> ascii_lower(#[trigger] s[i]) == ascii_lower(t[i])
}

/// Whether a text stands at a place in another.
pub open spec fn holds_at(s: Seq<char>, part: Seq<char>, i: int) -> bool {
    0 <= i && i + part.len() <= s.len() && s.subrange(i, i + part.len()) == part
}

/// Whether a text stands somewhere in another.
#[verifier::opaque]
pub open spec fn holds(s: Seq<char>, part: Seq<char>) -> bool {
    exists|i: int| #[trigger] holds_at(s, part, i)
}

// ---------------------------------------------------------------------------------------------
// Lemmas
// ---------------------------------------------------------------------------------------------

/// What follows a text is held by the two together.
pub proof fn lemma_holds_end(before: Seq<char>, part: Seq<char>)
    ensures
        holds(before + part, part),
{
    reveal(holds);
    let s = before + part;
    assert(s.subrange(before.len() as int, s.len() as int) =~= part);
    assert(holds_at(s, part, before.len() as int));
}

/// What is held stays held, whatever follows.
pub proof fn lemma_holds_further(s: Seq<char>, part: Seq<char>, after: Seq<char>)
    requires
        holds(s, part),
    ensures
        holds(s + after, part),
{
    reveal(holds);
    let i = choose|i: int| #[trigger] holds_at(s, part, i);
    assert((s + after).subrange(i, i + part.len()) =~= s.subrange(i, i + part.len()));
    assert(holds_at(s + after, part, i));
}

/// What is held stays held, whatever stands before it.
pub proof fn lemma_holds_behind(before: Seq<char>, s: Seq<char>, part: Seq<char>)
    requires
        holds(s, part),
    ensures
        holds(before + s, part),
{
    reveal(holds);
    let i = choose|i: int| #[trigger] holds_at(s, part, i);
    let place = before.len() + i;
    assert((before + s).subrange(place, place + part.len()) =~= s.subrange(i, i + part.len()));
    assert(holds_at(before + s, part, place));
}

/// The parts, one right behind the other.
pub open spec fn run_together(parts: Seq<Seq<char>>) -> Seq<char>
    decreases parts.len(),
{
    if parts.len() == 0 {
        seq![]
    } else {
        run_together(parts.drop_last()) + parts.last()
    }
}

pub proof fn lemma_run_on(parts: Seq<Seq<char>>, part: Seq<char>)
    ensures
        run_together(parts.push(part)) == run_together(parts) + part,
{
    assert(parts.push(part).drop_last() =~= parts);
}

pub proof fn lemma_run_one(part: Seq<char>)
    ensures
        run_together(seq![part]) == part,
{
    reveal_with_fuel(run_together, 2);
    assert(seq![part].drop_last() =~= seq![]);
    assert(run_together(seq![part]) =~= part);
}

/// Of parts that run together, each is held with its two neighbours behind it.
pub proof fn lemma_holds_neighbours(parts: Seq<Seq<char>>, i: int)
    requires
        0 <= i,
        i + 2 < parts.len(),
    ensures
        holds(run_together(parts), parts[i] + parts[i + 1] + parts[i + 2]),
    decreases parts.len(),
{
    let before = parts.drop_last();
    if i + 2 < before.len() {
        lemma_holds_neighbours(before, i);
        lemma_holds_further(
            run_together(before),
            parts[i] + parts[i + 1] + parts[i + 2],
            parts.last(),
        );
    } else {
        reveal_with_fuel(run_together, 4);
        let two = before.drop_last();
        let one = two.drop_last();
        assert(parts.last() == parts[i + 2]);
        assert(before.last() == parts[i + 1]);
        assert(two.last() == parts[i]);
        lemma_holds_three(run_together(one), parts[i], parts[i + 1], parts[i + 2]);
    }
}

/// Two texts that follow a third are held together.
pub proof fn lemma_holds_two(before: Seq<char>, a: Seq<char>, b: Seq<char>)
    ensures
        holds(before + a + b, a + b),
{
    assert(before + a + b =~= before + (a + b));
    lemma_holds_end(before, a + b);
}

/// Three texts that follow a fourth are held together.
pub proof fn lemma_holds_three(before: Seq<char>, a: Seq<char>, b: Seq<char>, c: Seq<char>)
    ensures
        holds(before + a + b + c, a + b + c),
{
    assert(before + a + b + c =~= before + (a + b + c));
    lemma_holds_end(before, a + b + c);
}

pub proof fn lemma_texts_push(v: Seq<String>, s: String)
    ensures
        texts(v.push(s)) == texts(v).push(s@),
{
    assert(texts(v.push(s)) =~= texts(v).push(s@));
}

pub proof fn lemma_trim_start_skip(s: Seq<char>, i: int)
    requires
        0 <= i <= s.len(),
        forall|k: int| 0 <= k < i ==> is_space(#[trigger] s[k]),
        i < s.len() ==> !is_space(s[i]),
    ensures
        trim_start_of(s) == s.skip(i),
    decreases i,
{
    if i > 0 {
        let t = s.drop_first();
        assert forall|k: int| 0 <= k < i - 1 implies is_space(#[trigger] t[k]) by {
            assert(t[k] == s[k + 1]);
        }
        lemma_trim_start_skip(t, i - 1);
        assert(is_space(s[0]));
        assert(t.skip(i - 1) =~= s.skip(i));
    } else {
        assert(s.skip(0) =~= s);
    }
}

pub proof fn lemma_trim_end_take(s: Seq<char>, j: int)
    requires
        0 <= j <= s.len(),
        forall|k: int| j <= k < s.len() ==> is_space(#[trigger] s[k]),
        j > 0 ==> !is_space(s[j - 1]),
    ensures
        trim_end_of(s) == s.take(j),
    decreases s.len() - j,
{
    if j < s.len() {
        let t = s.drop_last();
        lemma_trim_end_take(t, j);
        assert(is_space(s[s.len() - 1]));
        assert(t.take(j) =~= s.take(j));
    } else {
        assert(s.take(j) =~= s);
    }
}

/// Text that neither starts nor ends in white space is its own trimmed form.
pub proof fn lemma_trim_fixed(s: Seq<char>)
    requires
        s.len() > 0 ==> !is_space(s[0]) && !is_space(s.last()),
    ensures
        trim_of(s) == s,
{
}

/// White space around a text that neither starts nor ends in it is all that trimming removes.
pub proof fn lemma_trim_middle(s: Seq<char>, i: int, j: int)
    requires
        0 <= i < j <= s.len(),
        forall|k: int| 0 <= k < i ==> is_space(#[trigger] s[k]),
        forall|k: int| j <= k < s.len() ==> is_space(#[trigger] s[k]),
        !is_space(s[i]),
        !is_space(s[j - 1]),
    ensures
        trim_of(s) == s.subrange(i, j),
{
    lemma_trim_start_skip(s, i);
    let t = s.skip(i);
    assert forall|k: int| j - i <= k < t.len() implies is_space(#[trigger] t[k]) by {
        assert(t[k] == s[k + i]);
    }
    lemma_trim_end_take(t, j - i);
    assert(t.take(j - i) =~= s.subrange(i, j));
}

/// A text of white space alone trims to nothing.
pub proof fn lemma_trim_blank(s: Seq<char>)
    requires
        forall|k: int| 0 <= k < s.len() ==> is_space(#[trigger] s[k]),
    ensures
        trim_of(s).len() == 0,
{
    lemma_trim_start_skip(s, s.len() as int);
}

/// Where trimming finds its text: the ends of what it leaves.
pub proof fn lemma_trim_bounds(s: Seq<char>) -> (b: (int, int))
    ensures
        0 <= b.0 <= b.1 <= s.len(),
        trim_of(s) == s.subrange(b.0, b.1),
        forall|k: int| 0 <= k < b.0 ==> is_space(#[trigger] s[k]),
        forall|k: int| b.1 <= k < s.len() ==> is_space(#[trigger] s[k]),
        b.0 < b.1 ==> !is_space(s[b.0]) && !is_space(s[b.1 - 1]),
        b.0 == b.1 ==> b.1 == s.len(),
    decreases s.len(),
{
    if s.len() == 0 {
        assert(s.subrange(0, 0) =~= s);
        (0, 0)
    } else if is_space(s[0]) {
        let b = lemma_trim_bounds(s.drop_first());
        let t = s.drop_first();
        assert(t.subrange(b.0, b.1) =~= s.subrange(b.0 + 1, b.1 + 1));
        assert forall|k: int| 0 <= k < b.0 + 1 implies is_space(#[trigger] s[k]) by {
            if k > 0 {
                assert(s[k] == t[k - 1]);
            }
        }
        assert forall|k: int| b.1 + 1 <= k < s.len() implies is_space(#[trigger] s[k]) by {
            assert(s[k] == t[k - 1]);
        }
        (b.0 + 1, b.1 + 1)
    } else {
        let j = lemma_trim_end_bound(s);
        assert(s.take(j) =~= s.subrange(0, j));
        assert(j > 0) by {
            if j == 0 {
                assert(is_space(s[0]));
            }
        }
        (0, j)
    }
}

proof fn lemma_trim_end_bound(s: Seq<char>) -> (j: int)
    ensures
        0 <= j <= s.len(),
        trim_end_of(s) == s.take(j),
        forall|k: int| j <= k < s.len() ==> is_space(#[trigger] s[k]),
        j > 0 ==> !is_space(s[j - 1]),
    decreases s.len(),
{
    if s.len() > 0 && is_space(s.last()) {
        let t = s.drop_last();
        let j = lemma_trim_end_bound(t);
        assert(t.take(j) =~= s.take(j));
        assert forall|k: int| j <= k < s.len() implies is_space(#[trigger] s[k]) by {
            if k < s.len() - 1 {
                assert(s[k] == t[k]);
            }
        }
        j
    } else {
        assert(s.take(s.len() as int) =~= s);
        s.len() as int
    }
}

/// Where `find_char` stops.
pub proof fn lemma_find_char(s: Seq<char>, c: char)
    ensures
        find_char(s, c) <= s.len(),
        find_char(s, c) < s.len() ==> s[find_char(s, c) as int] == c,
        forall|k: int| 0 <= k < find_char(s, c) ==> #[trigger] s[k] != c,
    decreases s.len(),
{
    if s.len() > 0 && s[0] != c {
        let t = s.drop_first();
        lemma_find_char(t, c);
        assert forall|k: int| 0 <= k < find_char(s, c) implies #[trigger] s[k] != c by {
            if k > 0 {
                assert(s[k] == t[k - 1]);
            }
        }
    }
}

/// `find_char` stops at the first place that holds the character.
pub proof fn lemma_find_char_is(s: Seq<char>, c: char, i: int)
    requires
        0 <= i <= s.len(),
        forall|k: int| 0 <= k < i ==> #[trigger] s[k] != c,
        i < s.len() ==> s[i] == c,
    ensures
        find_char(s, c) == i,
{
    lemma_find_char(s, c);
    let f = find_char(s, c) as int;
    if f < i {
        assert(s[f] != c);
    }
    if i < f {
        assert(s[i] != c);
    }
}

/// The last place of a character is the one that none follows.
pub proof fn lemma_last_place(s: Seq<char>, c: char, i: int)
    requires
        0 <= i < s.len(),
        s[i] == c,
        forall|k: int| i < k < s.len() ==> #[trigger] s[k] != c,
    ensures
        last_place(s, c) == i,
    decreases s.len(),
{
    if s.last() != c {
        lemma_last_place(s.drop_last(), c, i);
    }
}

/// The last place of a character is one of the text's.
pub proof fn lemma_last_place_bounds(s: Seq<char>, c: char)
    ensures
        -1 <= last_place(s, c) < s.len(),
        last_place(s, c) >= 0 ==> s[last_place(s, c)] == c,
    decreases s.len(),
{
    if s.len() > 0 {
        lemma_last_place_bounds(s.drop_last(), c);
    }
}

/// A character that does not occur has no last place.
pub proof fn lemma_last_place_absent(s: Seq<char>, c: char)
    requires
        forall|k: int| 0 <= k < s.len() ==> #[trigger] s[k] != c,
    ensures
        last_place(s, c) == -1,
    decreases s.len(),
{
    if s.len() > 0 {
        lemma_last_place_absent(s.drop_last(), c);
    }
}

/// A text that holds no line feed.
pub open spec fn one_line(s: Seq<char>) -> bool {
    forall|i: int| 0 <= i < s.len() ==> #[trigger] s[i] != '\n'
}

/// A line feed ends the first line.
pub proof fn lemma_lines_cons(line: Seq<char>, rest: Seq<char>)
    requires
        one_line(line),
    ensures
        lines_of(line + "\n"@ + rest) == seq![chop_cr(line)] + lines_of(rest),
{
    reveal_strlit("\n");
    let s = line + "\n"@ + rest;
    let n = line.len() as int;
    assert forall|k: int| 0 <= k < n implies #[trigger] s[k] != '\n' by {
        assert(s[k] == line[k]);
    }
    assert(s[n] == '\n');
    lemma_find_char_is(s, '\n', n);
    assert(s.take(n) =~= line);
    assert(s.skip(n + 1) =~= rest);
}

/// A text without line feeds is one line.
pub proof fn lemma_lines_single(line: Seq<char>)
    requires
        one_line(line),
        line.len() > 0,
    ensures
        lines_of(line) == seq![line],
{
    lemma_find_char_is(line, '\n', line.len() as int);
}

/// Joining starts with the first part.
pub proof fn lemma_join_cons(part: Seq<char>, parts: Seq<Seq<char>>, sep: Seq<char>)
    requires
        parts.len() > 0,
    ensures
        join_of(seq![part] + parts, sep) == part + sep + join_of(parts, sep),
    decreases parts.len(),
{
    let all = seq![part] + parts;
    assert(all.drop_last() =~= seq![part] + parts.drop_last());
    assert(all.last() == parts.last());
    if parts.len() == 1 {
        assert(all.drop_last() =~= seq![part]);
        assert(join_of(all.drop_last(), sep) == part);
    } else {
        lemma_join_cons(part, parts.drop_last(), sep);
        assert(join_of(all, sep) =~= part + sep + join_of(parts, sep));
    }
}

/// Whether lines survive being joined by line feeds and split again.
pub open spec fn are_lines(lines: Seq<Seq<char>>) -> bool {
    &&& forall|i: int| 0 <= i < lines.len() ==> one_line(#[trigger] lines[i])
    &&& forall|i: int|
        0 <= i < lines.len() - 1 ==> chop_cr(#[trigger] lines[i]) == lines[i]
    &&& lines.len() > 0 ==> lines.last().len() > 0
}

/// Splitting gives back the lines that were joined.
pub proof fn lemma_lines_join(lines: Seq<Seq<char>>)
    requires
        are_lines(lines),
    ensures
        lines_of(join_of(lines, "\n"@)) == lines,
    decreases lines.len(),
{
    if lines.len() == 0 {
        assert(lines =~= seq![]);
    } else if lines.len() == 1 {
        assert(one_line(lines[0]));
        lemma_lines_single(lines[0]);
        assert(lines =~= seq![lines[0]]);
    } else {
        let rest = lines.drop_first();
        assert forall|i: int| 0 <= i < rest.len() implies one_line(#[trigger] rest[i]) by {
            assert(rest[i] == lines[i + 1]);
        }
        assert forall|i: int| 0 <= i < rest.len() - 1 implies chop_cr(#[trigger] rest[i])
            == rest[i] by {
            assert(rest[i] == lines[i + 1]);
        }
        lemma_lines_join(rest);
        assert(lines =~= seq![lines[0]] + rest);
        lemma_join_cons(lines[0], rest, "\n"@);
        assert(one_line(lines[0]));
        lemma_lines_cons(lines[0], join_of(rest, "\n"@));
        assert(chop_cr(lines[0]) == lines[0]);
    }
}

/// A text without carriage returns that does not end in a line feed is its lines, joined by line
/// feeds.
pub proof fn lemma_join_lines(text: Seq<char>)
    requires
        text.len() > 0,
        text.last() != '\n',
        !text.contains('\r'),
    ensures
        join_of(lines_of(text), "\n"@) == text,
        lines_of(text).len() > 0,
        forall|i: int|
            0 <= i < lines_of(text).len() ==> one_line(#[trigger] lines_of(text)[i])
                && !lines_of(text)[i].contains('\r'),
    decreases text.len(),
{
    reveal_strlit("\n");
    lemma_find_char(text, '\n');
    let end = find_char(text, '\n') as int;
    let all = lines_of(text);
    if end >= text.len() {
        assert(all =~= seq![text]);
        assert(one_line(text));
    } else {
        let head = text.take(end);
        let tail = text.skip(end + 1);
        assert(tail.len() > 0) by {
            if tail.len() == 0 {
                assert(text.last() == text[end]);
            }
        }
        assert(tail.last() == text.last());
        assert(!tail.contains('\r')) by {
            if tail.contains('\r') {
                let k = tail.index_of('\r');
                assert(text[k + end + 1] == '\r');
                assert(text.contains('\r'));
            }
        }
        lemma_join_lines(tail);
        assert(!head.contains('\r')) by {
            if head.contains('\r') {
                let k = head.index_of('\r');
                assert(text[k] == '\r');
                assert(text.contains('\r'));
            }
        }
        assert(chop_cr(head) == head) by {
            if head.len() > 0 && head.last() == '\r' {
                assert(head.contains('\r'));
            }
        }
        assert(one_line(head));
        assert(all == seq![head] + lines_of(tail));
        lemma_join_cons(head, lines_of(tail), "\n"@);
        assert(head + "\n"@ + tail =~= text);
        assert forall|i: int| 0 <= i < all.len() implies one_line(#[trigger] all[i])
            && !all[i].contains('\r') by {
            if i > 0 {
                assert(all[i] == lines_of(tail)[i - 1]);
            }
        }
    }
}

/// Trimming twice is trimming once.
pub proof fn lemma_trim_idempotent(s: Seq<char>)
    ensures
        trim_of(trim_of(s)) == trim_of(s),
{
    let (i, j) = lemma_trim_bounds(s);
    let t = trim_of(s);
    if i < j {
        assert(t[0] == s[i]);
        assert(t.last() == s[j - 1]);
    }
    lemma_trim_fixed(t);
}

pub proof fn lemma_decimal_digits(n: nat)
    ensures
        decimal(n).len() > 0,
        all_digits(decimal(n)),
        number_of(decimal(n)) == n,
    decreases n,
{
    if n < 10 {
        let d = decimal(n);
        assert(d.drop_last() =~= seq![]);
        assert(number_of(d.drop_last()) == 0);
        assert(digit_value(digit_char(n)) == n);
        assert(d.last() == digit_char(n));
    } else {
        lemma_decimal_digits(n / 10);
        let d = decimal(n);
        assert(d.drop_last() =~= decimal(n / 10));
        assert(d.last() == digit_char(n % 10));
        assert(digit_value(digit_char(n % 10)) == n % 10);
        assert forall|i: int| 0 <= i < d.len() implies is_digit(#[trigger] d[i]) by {
            if i < d.len() - 1 {
                assert(d[i] == decimal(n / 10)[i]);
            }
        }
    }
}

/// More digits make no smaller a number.
proof fn lemma_number_grows(s: Seq<char>, n: int)
    requires
        0 <= n <= s.len(),
    ensures
        number_of(s.take(n)) <= number_of(s),
    decreases s.len() - n,
{
    if n < s.len() {
        lemma_number_grows(s.drop_last(), n);
        assert(s.drop_last().take(n) =~= s.take(n));
    } else {
        assert(s.take(n) =~= s);
    }
}

/// Different numbers are written differently.
pub proof fn lemma_decimal_injective(m: nat, n: nat)
    requires
        decimal(m) == decimal(n),
    ensures
        m == n,
{
    lemma_decimal_digits(m);
    lemma_decimal_digits(n);
}

// ---------------------------------------------------------------------------------------------
// The functions
// ---------------------------------------------------------------------------------------------

/// Tells whether `c` is white space.
pub fn is_whitespace(c: char) -> (r: bool)
    ensures
        r == is_space(c),
{
    ('\u{9}' <= c && c <= '\u{d}') || c == ' ' || c == '\u{85}' || c == '\u{a0}' || c == '\u{1680}'
        || ('\u{2000}' <= c && c <= '\u{200a}') || c == '\u{2028}' || c == '\u{2029}'
        || c == '\u{202f}' || c == '\u{205f}' || c == '\u{3000}'
}

/// Returns the characters of `s`, in order.
pub fn chars_of(s: &str) -> (v: Vec<char>)
    ensures
        v@ == s@,
{
    let mut v: Vec<char> = Vec::new();
    for c in it: s.chars()
        invariant
            v@ == s@.take(it.index() as int),
            it.seq() == s@,
    {
        v.push(c);
        assert(s@.take(it.index() as int + 1) =~= s@.take(it.index() as int).push(c));
    }
    assert(s@.take(s@.len() as int) =~= s@);
    v
}

/// Returns the string that consists of the given characters.
pub fn string_of(chars: &[char]) -> (s: String)
    ensures
        s@ == chars@,
{
    let mut s = String::new();
    let mut i: usize = 0;
    while i < chars.len()
        invariant
            i <= chars.len(),
            s@ == chars@.take(i as int),
        decreases chars.len() - i,
    {
        s.push(chars[i]);
        assert(chars@.take(i + 1) =~= chars@.take(i as int).push(chars[i as int]));
        i += 1;
    }
    assert(chars@.take(chars@.len() as int) =~= chars@);
    s
}

/// Tells whether two texts are the same.
pub fn same_text(s: &str, t: &str) -> (r: bool)
    ensures
        r == (s@ == t@),
{
    let a = chars_of(s);
    let b = chars_of(t);
    if a.len() != b.len() {
        return false;
    }
    let mut i: usize = 0;
    while i < a.len()
        invariant
            i <= a.len(),
            a@ == s@,
            b@ == t@,
            a.len() == b.len(),
            forall|k: int| 0 <= k < i ==> a@[k] == b@[k],
        decreases a.len() - i,
    {
        if a[i] != b[i] {
            return false;
        }
        i += 1;
    }
    assert(s@ =~= t@);
    true
}

/// Tells whether two texts are the same but for the case of ASCII letters.
pub fn same_text_ignoring_case(s: &str, t: &str) -> (r: bool)
    ensures
        r == same_ignoring_case(s@, t@),
{
    let a = chars_of(s);
    let b = chars_of(t);
    if a.len() != b.len() {
        return false;
    }
    let mut i: usize = 0;
    while i < a.len()
        invariant
            i <= a.len(),
            a@ == s@,
            b@ == t@,
            a.len() == b.len(),
            forall|k: int| 0 <= k < i ==> ascii_lower(#[trigger] s@[k]) == ascii_lower(t@[k]),
        decreases a.len() - i,
    {
        if to_ascii_lower(a[i]) != to_ascii_lower(b[i]) {
            assert(ascii_lower(s@[i as int]) != ascii_lower(t@[i as int]));
            return false;
        }
        i += 1;
    }
    true
}

fn to_ascii_lower(c: char) -> (r: char)
    ensures
        r == ascii_lower(c),
{
    if 'A' <= c && c <= 'Z' {
        ((c as u8) + 32) as char
    } else {
        c
    }
}

/// Returns `s` without white space at either end.
pub fn trim(s: &str) -> (r: &str)
    ensures
        r@ == trim_of(s@),
{
    let v = chars_of(s);
    let mut i: usize = 0;
    while i < v.len() && is_whitespace(v[i])
        invariant
            i <= v.len(),
            v@ == s@,
            forall|k: int| 0 <= k < i ==> is_space(#[trigger] s@[k]),
        decreases v.len() - i,
    {
        i += 1;
    }
    let mut j: usize = v.len();
    while j > i && is_whitespace(v[j - 1])
        invariant
            i <= j <= v.len(),
            v@ == s@,
            forall|k: int| j <= k < s@.len() ==> is_space(#[trigger] s@[k]),
        decreases j,
    {
        j -= 1;
    }
    proof {
        if i < j {
            lemma_trim_middle(s@, i as int, j as int);
        } else {
            assert forall|k: int| 0 <= k < s@.len() implies is_space(#[trigger] s@[k]) by {}
            lemma_trim_blank(s@);
            assert(s@.subrange(i as int, j as int) =~= trim_of(s@));
        }
    }
    s.substring_char(i, j)
}

/// Returns `s` without the carriage returns at its end.
pub fn trim_cr(s: &str) -> (r: &str)
    ensures
        r@ == trim_cr_of(s@),
{
    let v = chars_of(s);
    let mut j: usize = v.len();
    proof {
        assert(s@.take(j as int) =~= s@);
    }
    while j > 0 && v[j - 1] == '\r'
        invariant
            j <= v.len(),
            v@ == s@,
            trim_cr_of(s@.take(j as int)) == trim_cr_of(s@),
        decreases j,
    {
        assert(s@.take(j as int).drop_last() =~= s@.take(j - 1));
        j -= 1;
    }
    assert(s@.subrange(0, j as int) =~= s@.take(j as int));
    s.substring_char(0, j)
}

/// Tells whether `s` starts with `prefix`.
pub fn starts_with(s: &str, prefix: &str) -> (r: bool)
    ensures
        r == prefix@.is_prefix_of(s@),
{
    let a = chars_of(s);
    let b = chars_of(prefix);
    if b.len() > a.len() {
        return false;
    }
    let mut i: usize = 0;
    while i < b.len()
        invariant
            i <= b.len() <= a.len(),
            a@ == s@,
            b@ == prefix@,
            forall|k: int| 0 <= k < i ==> a@[k] == b@[k],
        decreases b.len() - i,
    {
        if a[i] != b[i] {
            assert(s@.subrange(0, prefix@.len() as int)[i as int] == s@[i as int]);
            return false;
        }
        i += 1;
    }
    assert(prefix@ =~= s@.subrange(0, prefix@.len() as int));
    true
}

/// Tells whether `s` ends with `suffix`.
pub fn ends_with(s: &str, suffix: &str) -> (r: bool)
    ensures
        r == suffix@.is_suffix_of(s@),
{
    let a = chars_of(s);
    let b = chars_of(suffix);
    if b.len() > a.len() {
        return false;
    }
    let skip: usize = a.len() - b.len();
    let mut i: usize = 0;
    while i < b.len()
        invariant
            i <= b.len() <= a.len(),
            skip == a.len() - b.len(),
            a@ == s@,
            b@ == suffix@,
            forall|k: int| 0 <= k < i ==> a@[skip + k] == b@[k],
        decreases b.len() - i,
    {
        if a[skip + i] != b[i] {
            assert(s@.subrange(skip as int, s@.len() as int)[i as int] == s@[skip + i]);
            return false;
        }
        i += 1;
    }
    assert(suffix@ =~= s@.subrange(skip as int, s@.len() as int));
    true
}

/// Returns what follows `prefix` in `s`, if `s` starts with it.
pub fn strip_prefix<'a>(s: &'a str, prefix: &str) -> (r: Option<&'a str>)
    ensures
        (match r {
            Some(rest) => strip(s@, prefix@) == Some(rest@),
            None => strip(s@, prefix@) is None,
        }),
{
    if starts_with(s, prefix) {
        let n = prefix.unicode_len();
        let m = s.unicode_len();
        assert(s@.subrange(n as int, m as int) =~= s@.skip(prefix@.len() as int));
        Some(s.substring_char(n, m))
    } else {
        None
    }
}

/// Returns the first character of `s`.
pub fn first_char(s: &str) -> (r: Option<char>)
    ensures
        r == (if s@.len() == 0 {
            None
        } else {
            Some(s@[0])
        }),
{
    if s.unicode_len() == 0 {
        None
    } else {
        Some(s.get_char(0))
    }
}

/// Returns `s` without its first character.
pub fn without_first(s: &str) -> (r: &str)
    requires
        s@.len() > 0,
    ensures
        r@ == s@.skip(1),
{
    let n = s.unicode_len();
    assert(s@.subrange(1, n as int) =~= s@.skip(1));
    s.substring_char(1, n)
}

/// Returns the first place of `c`, and the length if it has none.
pub fn find(chars: &[char], c: char) -> (r: usize)
    ensures
        r == find_char(chars@, c),
{
    let mut i: usize = 0;
    while i < chars.len() && chars[i] != c
        invariant
            i <= chars.len(),
            forall|k: int| 0 <= k < i ==> #[trigger] chars@[k] != c,
        decreases chars.len() - i,
    {
        i += 1;
    }
    proof {
        lemma_find_char_is(chars@, c, i as int);
    }
    i
}

/// Returns the place behind the last place of `c`, and zero if it has none.
pub fn find_after_last(chars: &[char], c: char) -> (r: usize)
    ensures
        r == last_place(chars@, c) + 1,
{
    let mut i: usize = chars.len();
    while i > 0 && chars[i - 1] != c
        invariant
            i <= chars.len(),
            forall|k: int| i <= k < chars@.len() ==> #[trigger] chars@[k] != c,
        decreases i,
    {
        i -= 1;
    }
    proof {
        if i > 0 {
            lemma_last_place(chars@, c, i - 1);
        } else {
            lemma_last_place_absent(chars@, c);
        }
    }
    i
}

/// Returns the lines of `s`.
pub fn lines(s: &str) -> (r: Vec<String>)
    ensures
        texts(r@) == lines_of(s@),
{
    let v = chars_of(s);
    let mut r: Vec<String> = Vec::new();
    let mut start: usize = 0;
    proof {
        assert(s@.skip(0) =~= s@);
        assert(texts(r@) =~= seq![]);
        assert(seq![] + lines_of(s@) =~= lines_of(s@));
    }
    while start < v.len()
        invariant
            start <= v.len(),
            v@ == s@,
            texts(r@) + lines_of(s@.skip(start as int)) == lines_of(s@),
        decreases v.len() - start,
    {
        let ghost rest = s@.skip(start as int);
        let mut end: usize = start;
        while end < v.len() && v[end] != '\n'
            invariant
                start <= end <= v.len(),
                v@ == s@,
                rest == s@.skip(start as int),
                forall|k: int| 0 <= k < end - start ==> #[trigger] rest[k] != '\n',
            decreases v.len() - end,
        {
            assert(rest[end - start] == v@[end as int]);
            end += 1;
        }
        proof {
            if end < v.len() {
                assert(rest[end - start] == v@[end as int]);
            }
            lemma_find_char_is(rest, '\n', end - start);
        }
        let ghost before = texts(r@);
        if end == v.len() {
            let line = string_of(vstd::slice::slice_subrange(v.as_slice(), start, end));
            assert(line@ =~= rest);
            proof {
                lemma_texts_push(r@, line);
            }
            r.push(line);
            start = end;
            assert(lines_of(s@.skip(start as int)) =~= seq![]);
            assert(before + seq![rest] + seq![] =~= before.push(rest));
        } else {
            let mut stop: usize = end;
            assert(rest.take(end - start) =~= s@.subrange(start as int, end as int));
            if end > start && v[end - 1] == '\r' {
                stop = end - 1;
                assert(rest.take(end - start).last() == v@[end - 1]);
            }
            assert(chop_cr(rest.take(end - start)) =~= s@.subrange(start as int, stop as int));
            let line = string_of(vstd::slice::slice_subrange(v.as_slice(), start, stop));
            proof {
                lemma_texts_push(r@, line);
                assert(rest.skip(end - start + 1) =~= s@.skip(end + 1));
                assert(before + (seq![line@] + lines_of(s@.skip(end + 1))) =~= before.push(line@)
                    + lines_of(s@.skip(end + 1)));
            }
            r.push(line);
            start = end + 1;
        }
    }
    proof {
        assert(lines_of(s@.skip(start as int)) =~= seq![]);
        assert(texts(r@) + seq![] =~= texts(r@));
    }
    r
}

/// Returns the parts with `sep` between each two neighbours.
pub fn join(parts: &[String], sep: &str) -> (r: String)
    ensures
        r@ == join_of(texts(parts@), sep@),
{
    let mut r = String::new();
    let mut i: usize = 0;
    let ghost all = texts(parts@);
    proof {
        assert(all.take(0) =~= seq![]);
    }
    while i < parts.len()
        invariant
            i <= parts.len(),
            all == texts(parts@),
            r@ == join_of(all.take(i as int), sep@),
        decreases parts.len() - i,
    {
        let ghost next = all.take(i + 1);
        assert(next.drop_last() =~= all.take(i as int));
        assert(next.last() == parts@[i as int]@);
        if i > 0 {
            r.append(sep);
        } else {
            assert(r@ =~= seq![]);
        }
        r.append(parts[i].as_str());
        assert(r@ =~= join_of(next, sep@));
        i += 1;
    }
    assert(all.take(all.len() as int) =~= all);
    r
}

/// Returns `before`, `middle` and `after` as one string.
pub fn concat3(before: &str, middle: &str, after: &str) -> (r: String)
    ensures
        r@ == before@ + middle@ + after@,
{
    let mut r = String::new();
    r.append(before);
    r.append(middle);
    r.append(after);
    assert(r@ =~= before@ + middle@ + after@);
    r
}

/// Returns a copy of a list of strings.
pub fn copy_strings(v: &Vec<String>) -> (r: Vec<String>)
    ensures
        texts(r@) == texts(v@),
{
    let mut r: Vec<String> = Vec::new();
    let mut i: usize = 0;
    while i < v.len()
        invariant
            i <= v.len(),
            r@.len() == i,
            forall|k: int| 0 <= k < i ==> (#[trigger] r@[k])@ == v@[k]@,
        decreases v.len() - i,
    {
        r.push(v[i].clone());
        i += 1;
    }
    assert(texts(r@) =~= texts(v@));
    r
}

/// Returns a copy of an optional string.
pub fn copy_option(o: &Option<String>) -> (r: Option<String>)
    ensures
        opt_text(r) == opt_text(*o),
{
    match o {
        Some(s) => Some(s.clone()),
        None => None,
    }
}

/// Tells whether `c` is a decimal digit.
pub fn is_ascii_digit(c: char) -> (r: bool)
    ensures
        r == is_digit(c),
{
    '0' <= c && c <= '9'
}

/// Returns the number that digits stand for, if it fits.
pub fn parse_digits(chars: &[char]) -> (r: Option<u64>)
    requires
        all_digits(chars@),
    ensures
        (match r {
            Some(value) => number_of(chars@) == value,
            None => number_of(chars@) > u64::MAX,
        }),
{
    let mut value: u64 = 0;
    let mut i: usize = 0;
    assert(chars@.take(0) =~= seq![]);
    while i < chars.len()
        invariant
            i <= chars.len(),
            all_digits(chars@),
            value == number_of(chars@.take(i as int)),
        decreases chars.len() - i,
    {
        let ghost next = chars@.take(i + 1);
        assert(next.drop_last() =~= chars@.take(i as int));
        assert(is_digit(chars@[i as int]));
        proof {
            lemma_number_grows(chars@, i + 1);
        }
        let digit: u64 = (chars[i] as u8 - '0' as u8) as u64;
        if value > (u64::MAX - digit) / 10 {
            return None;
        }
        value = value * 10 + digit;
        i += 1;
    }
    assert(chars@.take(chars@.len() as int) =~= chars@);
    Some(value)
}

/// Returns a number in decimal digits.
pub fn decimal_string(n: u64) -> (r: String)
    ensures
        r@ == decimal(n as nat),
    decreases n,
{
    if n < 10 {
        let mut r = String::new();
        r.push(('0' as u8 + n as u8) as char);
        assert(r@ =~= decimal(n as nat));
        r
    } else {
        let mut r = decimal_string(n / 10);
        r.push(('0' as u8 + (n % 10) as u8) as char);
        r
    }
}

/// Returns a signed number in decimal digits.
pub fn decimal_string_signed(n: i64) -> (r: String)
    ensures
        r@ == decimal_signed(n as int),
{
    if n < 0 {
        let mut r = String::new();
        r.push('-');
        let magnitude: u64 = (-(n as i128)) as u64;
        let digits = decimal_string(magnitude);
        r.append(digits.as_str());
        assert(r@ =~= decimal_signed(n as int));
        r
    } else {
        decimal_string(n as u64)
    }
}

/// White space is what separates words: the space, the tabulator and the line breaks among it, and
/// nothing that is printed in ASCII.
pub proof fn law_white_space(c: char)
    ensures
        is_space(' '),
        is_space('\t'),
        is_space('\n'),
        is_space('\r'),
        is_space('\u{a0}'),
        is_space('\u{3000}'),
        '!' <= c <= '~' ==> !is_space(c),
        c < '\t' ==> !is_space(c),
{
}

/// Trimming takes away white space and nothing else, at both ends and nowhere else, and leaves none
/// there.
pub proof fn law_trimming(s: Seq<char>)
    ensures
        exists|before: Seq<char>, after: Seq<char>|
            {
                &&& s == #[trigger] (before + trim_of(s) + after)
                &&& forall|i: int| 0 <= i < before.len() ==> is_space(#[trigger] before[i])
                &&& forall|i: int| 0 <= i < after.len() ==> is_space(#[trigger] after[i])
            },
        trim_of(s).len() > 0 ==> !is_space(trim_of(s)[0]) && !is_space(trim_of(s).last()),
{
    let (i, j) = lemma_trim_bounds(s);
    let before = s.take(i);
    let after = s.skip(j);
    assert(s =~= before + trim_of(s) + after);
    assert forall|k: int| 0 <= k < before.len() implies is_space(#[trigger] before[k]) by {
        assert(before[k] == s[k]);
    }
    assert forall|k: int| 0 <= k < after.len() implies is_space(#[trigger] after[k]) by {
        assert(after[k] == s[j + k]);
    }
    if i < j {
        assert(trim_of(s)[0] == s[i]);
        assert(trim_of(s).last() == s[j - 1]);
    }
}

/// Lines put together with line feeds are taken apart into the same lines, as long as none of them
/// holds a line feed or ends in a carriage return, and the last one is not empty.
pub proof fn law_lines_are_taken_apart(lines: Seq<Seq<char>>)
    requires
        lines.len() > 0,
        lines.last().len() > 0,
        forall|i: int| 0 <= i < lines.len() ==> one_line(#[trigger] lines[i]),
        forall|i: int| 0 <= i < lines.len() ==> chop_cr(#[trigger] lines[i]) == lines[i],
    ensures
        lines_of(join_of(lines, "\n"@)) == lines,
        lines_of(join_of(lines, "\r\n"@)) == lines,
        lines_of(join_of(lines, "\n"@) + "\n"@) == lines,
    decreases lines.len(),
{
    reveal_strlit("\n");
    reveal_strlit("\r\n");
    let first = lines[0];
    let rest = lines.drop_first();
    assert(one_line(first) && chop_cr(first) == first);
    if lines.len() == 1 {
        lemma_lines_single(first);
        assert(lines =~= seq![first]);
        lemma_lines_cons(first, seq![]);
        assert(first + "\n"@ + seq![] =~= first + "\n"@);
        assert(lines_of(Seq::<char>::empty()) =~= seq![]);
        assert(seq![first] + Seq::<Seq<char>>::empty() =~= seq![first]);
    } else {
        assert forall|i: int| 0 <= i < rest.len() implies one_line(#[trigger] rest[i]) by {
            assert(rest[i] == lines[i + 1]);
        }
        assert forall|i: int| 0 <= i < rest.len() implies chop_cr(#[trigger] rest[i])
            == rest[i] by {
            assert(rest[i] == lines[i + 1]);
        }
        assert(rest.last() == lines.last());
        law_lines_are_taken_apart(rest);
        assert(lines =~= seq![first] + rest);
        lemma_join_cons(first, rest, "\n"@);
        lemma_join_cons(first, rest, "\r\n"@);
        lemma_lines_cons(first, join_of(rest, "\n"@));
        let with = first.push('\r');
        assert forall|k: int| 0 <= k < with.len() implies #[trigger] with[k] != '\n' by {
            if k < first.len() {
                assert(with[k] == first[k]);
            }
        }
        lemma_lines_cons(with, join_of(rest, "\r\n"@));
        assert(first + "\r\n"@ + join_of(rest, "\r\n"@) =~= with + "\n"@ + join_of(
            rest,
            "\r\n"@,
        ));
        assert(chop_cr(with) =~= first);
        lemma_lines_cons(first, join_of(rest, "\n"@) + "\n"@);
        assert(first + "\n"@ + join_of(rest, "\n"@) + "\n"@ =~= first + "\n"@ + (join_of(
            rest,
            "\n"@,
        ) + "\n"@));
    }
}

/// A number is written in digits, without a zero in front unless it is zero, and is the number that
/// the digits stand for; below zero with a minus in front.
pub proof fn law_numbers_are_written_in_digits(n: nat)
    ensures
        all_digits(decimal(n)),
        number_of(decimal(n)) == n,
        decimal(n)[0] == '0' <==> n == 0,
        n == 0 ==> decimal(n) == seq!['0'],
        decimal_signed(n as int) == decimal(n),
        n > 0 ==> decimal_signed(-(n as int)) == seq!['-'] + decimal(n),
        number_of(seq!['0']) == 0,
        number_of(seq!['1']) == 1,
        number_of(seq!['9']) == 9,
    decreases n,
{
    reveal_with_fuel(number_of, 2);
    assert(seq!['0'].drop_last() =~= seq![]);
    assert(seq!['1'].drop_last() =~= seq![]);
    assert(seq!['9'].drop_last() =~= seq![]);
    lemma_decimal_digits(n);
    if n >= 10 {
        law_numbers_are_written_in_digits(n / 10);
        lemma_decimal_digits(n / 10);
        assert(decimal(n)[0] == decimal(n / 10)[0]);
    } else {
        assert(decimal(n)[0] == digit_char(n));
    }
}

/// Texts are the same but for case if, place by place, they hold the same character or the same
/// letter of ASCII.
pub proof fn law_the_same_but_for_case(s: Seq<char>, t: Seq<char>)
    ensures
        same_ignoring_case(s, t) <==> s.len() == t.len() && forall|i: int|
            #![trigger s[i]]
            0 <= i < s.len() ==> s[i] == t[i] || ('A' <= s[i] <= 'Z' && t[i] as nat == s[i] as nat
                + 32) || ('a' <= s[i] <= 'z' && s[i] as nat == t[i] as nat + 32),
{
    assert forall|a: char, b: char| (#[trigger] ascii_lower(a) == #[trigger] ascii_lower(b))
        <==> a == b || ('A' <= a <= 'Z' && b as nat == a as nat + 32) || ('a' <= a <= 'z'
        && a as nat == b as nat + 32) by {}
    if same_ignoring_case(s, t) {
        assert forall|i: int| #![trigger s[i]] 0 <= i < s.len() implies s[i] == t[i] || ('A'
            <= s[i] <= 'Z' && t[i] as nat == s[i] as nat + 32) || ('a' <= s[i] <= 'z'
            && s[i] as nat == t[i] as nat + 32) by {
            assert(ascii_lower(s[i]) == ascii_lower(t[i]));
        }
    }
}

} // verus!
