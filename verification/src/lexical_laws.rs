//! What holds of words, lines and numbers in texts.

use vstd::prelude::*;

use crate::lexical;
use crate::text;

verus! {

// ── White space ────────────────────────────────────────────────────────

/// Whether a text is white space only.
pub open spec fn blank(s: Seq<char>) -> bool {
    forall|i: int| 0 <= i < s.len() ==> lexical::whitespace(#[trigger] s[i])
}

/// Whether a text has no white space at its ends.
pub open spec fn tight(s: Seq<char>) -> bool {
    s.len() > 0 ==> !lexical::whitespace(s.first()) && !lexical::whitespace(s.last())
}

/// The characters of the white space of ASCII are white space, and letters,
/// digits and signs are not.
pub proof fn blanks_are_white_space(c: char)
    ensures
        lexical::whitespace(' ') && lexical::whitespace('\n') && lexical::whitespace('\t')
            && lexical::whitespace('\r'),
        'a' <= c <= 'z' || 'A' <= c <= 'Z' || '0' <= c <= '9' ==> !lexical::whitespace(c),
        '!' <= c <= '~' ==> !lexical::whitespace(c),
{
}

/// White space at both ends of a text is taken off, and nothing else.
pub proof fn white_space_is_taken_off(a: Seq<char>, s: Seq<char>, b: Seq<char>)
    requires
        blank(a),
        blank(b),
        tight(s),
    ensures
        lexical::trimmed(a + s + b) == s,
{
    lemma_start_taken(a, s + b);
    assert(a + (s + b) =~= a + s + b);
    if s.len() == 0 {
        assert(s + b =~= b);
        lemma_start_taken(b, s);
        assert(b + s =~= b);
        assert(lexical::trimmed_start(s) == s);
        assert(lexical::trimmed_end(s) == s);
    } else {
        assert((s + b).first() == s.first());
        lemma_end_taken(s, b);
    }
}

/// White space at the start is taken off.
proof fn lemma_start_taken(a: Seq<char>, s: Seq<char>)
    requires
        blank(a),
    ensures
        lexical::trimmed_start(a + s) == lexical::trimmed_start(s),
    decreases a.len(),
{
    if a.len() == 0 {
        assert(a + s =~= s);
    } else {
        assert(lexical::whitespace(a[0]));
        assert((a + s).drop_first() =~= a.drop_first() + s);
        assert(blank(a.drop_first())) by {
            assert forall|i: int| 0 <= i < a.drop_first().len() implies lexical::whitespace(
                #[trigger] a.drop_first()[i],
            ) by {
                assert(lexical::whitespace(a[i + 1]));
            }
        }
        lemma_start_taken(a.drop_first(), s);
    }
}

/// White space at the end is taken off.
proof fn lemma_end_taken(s: Seq<char>, b: Seq<char>)
    requires
        blank(b),
        s.len() > 0,
        !lexical::whitespace(s.last()),
    ensures
        lexical::trimmed_end(s + b) == s,
    decreases b.len(),
{
    if b.len() == 0 {
        assert(s + b =~= s);
    } else {
        assert(lexical::whitespace(b[b.len() - 1]));
        assert((s + b).drop_last() =~= s + b.drop_last());
        assert(blank(b.drop_last())) by {
            assert forall|i: int| 0 <= i < b.drop_last().len() implies lexical::whitespace(
                #[trigger] b.drop_last()[i],
            ) by {
                assert(lexical::whitespace(b[i]));
            }
        }
        lemma_end_taken(s, b.drop_last());
    }
}

/// A character is taken off the ends of a text however often it stands there,
/// and nowhere else.
pub proof fn characters_are_taken_off_the_ends(s: Seq<char>, c: char)
    requires
        s.len() > 0 ==> s.first() != c && s.last() != c,
    ensures
        lexical::without_ends(s, c) == s,
        lexical::without_ends(seq![c] + s, c) == s,
        lexical::without_ends(s.push(c), c) == s,
        lexical::without_ends((seq![c] + s).push(c), c) == s,
{
    reveal_with_fuel(lexical::without_start, 3);
    reveal_with_fuel(lexical::without_end, 3);
    let p = seq![c] + s;
    assert(p.drop_first() =~= s);
    assert(s.push(c).drop_last() =~= s);
    assert(p.push(c).drop_first() =~= s.push(c));
    if s.len() == 0 {
        assert(s.push(c).drop_first() =~= s);
        assert(p.drop_first() =~= Seq::empty());
    } else {
        assert(s.push(c).first() == s.first());
    }
}

// ── Words ──────────────────────────────────────────────────────────────

/// The words of two texts with white space between them are those of both.
pub proof fn words_come_apart_at_white_space(a: Seq<char>, c: char, b: Seq<char>)
    requires
        lexical::whitespace(c),
    ensures
        lexical::words(a.push(c) + b) == lexical::words(a) + lexical::words(b),
    decreases b.len(),
{
    let s = a.push(c) + b;
    if b.len() == 0 {
        assert(s =~= a.push(c));
        assert(a.push(c).drop_last() =~= a);
        assert(lexical::words(a) + lexical::words(b) =~= lexical::words(a));
    } else {
        words_come_apart_at_white_space(a, c, b.drop_last());
        assert(s.drop_last() =~= a.push(c) + b.drop_last());
        let wa = lexical::words(a);
        let wb = lexical::words(b.drop_last());
        if !lexical::whitespace(b.last()) {
            if b.len() == 1 {
                assert(s[s.len() - 2] == c);
                assert(wb =~= Seq::empty());
                assert(lexical::words(s) =~= wa + lexical::words(b));
            } else {
                assert(s[s.len() - 2] == b[b.len() - 2]);
                if !lexical::whitespace(b[b.len() - 2]) {
                    lemma_has_word(b.drop_last());
                }
                assert(lexical::words(s) =~= wa + lexical::words(b));
            }
        } else {
            assert(lexical::words(s) =~= wa + lexical::words(b));
        }
    }
}

/// A text that does not end with white space has a word.
proof fn lemma_has_word(s: Seq<char>)
    requires
        s.len() > 0,
        !lexical::whitespace(s.last()),
    ensures
        lexical::words(s).len() > 0,
    decreases s.len(),
{
}

/// A text without white space is one word, and white space is none.
pub proof fn texts_without_white_space_are_words(s: Seq<char>)
    ensures
        s.len() > 0 && (forall|i: int| 0 <= i < s.len() ==> !lexical::whitespace(#[trigger] s[i]))
            ==> lexical::words(s) == seq![s],
        blank(s) ==> lexical::words(s).len() == 0,
    decreases s.len(),
{
    if s.len() > 0 {
        let rest = s.drop_last();
        texts_without_white_space_are_words(rest);
        if forall|i: int| 0 <= i < s.len() ==> !lexical::whitespace(#[trigger] s[i]) {
            assert forall|i: int| 0 <= i < rest.len() implies !lexical::whitespace(
                #[trigger] rest[i],
            ) by {
                assert(!lexical::whitespace(s[i]));
            }
            assert(!lexical::whitespace(s[s.len() - 1]));
            if s.len() == 1 {
                assert(rest =~= Seq::empty());
                assert(lexical::words(rest) =~= Seq::empty());
                assert(lexical::words(s) =~= seq![seq![s.last()]]);
                assert(seq![s.last()] =~= s);
            } else {
                assert(!lexical::whitespace(s[s.len() - 2]));
                assert(rest.push(s.last()) =~= s);
                assert(lexical::words(s) =~= seq![s]);
            }
        }
        if blank(s) {
            assert forall|i: int| 0 <= i < rest.len() implies lexical::whitespace(
                #[trigger] rest[i],
            ) by {
                assert(lexical::whitespace(s[i]));
            }
            assert(lexical::whitespace(s[s.len() - 1]));
        }
    }
}

// ── Lines ──────────────────────────────────────────────────────────────

/// A text begins with the line that stands before its first line feed, and the
/// rest stands behind that.
pub proof fn lines_end_at_line_feeds(line: Seq<char>, rest: Seq<char>)
    requires
        !line.contains('\n'),
    ensures
        lexical::first_line(line.push('\n') + rest) == line,
        lexical::after_line(line.push('\n') + rest) == rest,
        lexical::first_line(line) == line,
        lexical::after_line(line).len() == 0,
{
    lemma_first_line(line, seq!['\n'] + rest);
    assert(line + (seq!['\n'] + rest) =~= line.push('\n') + rest);
    lemma_first_line(line, Seq::empty());
    assert(line + Seq::empty() =~= line);
    assert((line.push('\n') + rest).skip(line.len() as int + 1) =~= rest);
}

/// A line ends before a line feed or at the end.
proof fn lemma_first_line(line: Seq<char>, rest: Seq<char>)
    requires
        !line.contains('\n'),
        rest.len() > 0 ==> rest[0] == '\n',
    ensures
        lexical::first_line(line + rest) == line,
    decreases line.len(),
{
    if line.len() == 0 {
        assert(line + rest =~= rest);
        assert(lexical::first_line(rest) =~= line);
    } else {
        let tail = line.drop_first();
        assert(!tail.contains('\n')) by {
            if tail.contains('\n') {
                let i = tail.index_of('\n');
                assert(line[i + 1] == '\n');
            }
        }
        lemma_first_line(tail, rest);
        assert((line + rest).drop_first() =~= tail + rest);
        assert((line + rest).first() == line[0]);
        assert(line.contains(line[0]));
        assert(seq![line[0]] + tail =~= line);
    }
}

/// The first line that begins with a pattern is found: where the first line
/// does it is that one, and else it is looked for behind it.
pub proof fn lines_are_looked_through_in_order(line: Seq<char>, rest: Seq<char>, pat: Seq<char>)
    requires
        !line.contains('\n'),
    ensures
        text::begins(line, pat) ==> lexical::line_with(line.push('\n') + rest, pat) == Some(line),
        !text::begins(line, pat) ==> lexical::line_with(line.push('\n') + rest, pat)
            == lexical::line_with(rest, pat),
        lexical::line_with(Seq::empty(), pat) is None,
{
    lines_end_at_line_feeds(line, rest);
}

// ── Numbers ────────────────────────────────────────────────────────────

/// A text denotes a number if and only if it has digits, and nothing else.
pub proof fn only_digits_are_numbers(s: Seq<char>)
    ensures
        lexical::number(s) is Some <==> s.len() > 0 && forall|i: int|
            0 <= i < s.len() ==> '0' <= #[trigger] s[i] <= '9',
{
    lemma_digits(s);
}

/// A text is made of digits if and only if each of its characters is one.
proof fn lemma_digits(s: Seq<char>)
    ensures
        lexical::digits(s) is Some <==> forall|i: int|
            0 <= i < s.len() ==> '0' <= #[trigger] s[i] <= '9',
    decreases s.len(),
{
    if s.len() > 0 {
        let rest = s.drop_last();
        lemma_digits(rest);
        if lexical::digits(s) is Some {
            assert forall|i: int| 0 <= i < s.len() implies '0' <= #[trigger] s[i] <= '9' by {
                if i < rest.len() {
                    assert('0' <= rest[i] <= '9');
                }
            }
        }
        if forall|i: int| 0 <= i < s.len() ==> '0' <= #[trigger] s[i] <= '9' {
            assert forall|i: int| 0 <= i < rest.len() implies '0' <= #[trigger] rest[i] <= '9' by {
                assert('0' <= s[i] <= '9');
            }
            assert('0' <= s[s.len() - 1] <= '9');
        }
    }
}

/// Numbers that are written in decimal notation are read back, with a sign
/// where one may stand; those that do not fit are not read.
pub proof fn numbers_read_back(n: nat, i: i32)
    ensures
        n <= u64::MAX ==> lexical::parsed_u64(text::decimal(n)) == Some(n as u64),
        n <= u64::MAX ==> lexical::parsed_u64(seq!['+'] + text::decimal(n)) == Some(n as u64),
        n > u64::MAX ==> lexical::parsed_u64(text::decimal(n)) is None,
        lexical::parsed_u64(seq!['-'] + text::decimal(n)) is None,
        lexical::parsed_i32(text::decimal_int(i as int)) == Some(i),
        n <= i32::MAX ==> lexical::parsed_i32(seq!['+'] + text::decimal(n)) == Some(n as i32),
        n > i32::MAX ==> lexical::parsed_i32(text::decimal(n)) is None,
{
    lexical::decimal_reads_back(n);
    let d = text::decimal(n);
    assert('0' <= d[0] <= '9');
    assert((seq!['+'] + d).drop_first() =~= d);
    let m = seq!['-'] + d;
    only_digits_are_numbers(m);
    assert(m[0] == '-');
    let k = if i < 0 {
        (-i) as nat
    } else {
        i as nat
    };
    lexical::decimal_reads_back(k);
    let e = text::decimal(k);
    assert('0' <= e[0] <= '9');
    assert((seq!['-'] + e).drop_first() =~= e);
}

// ── Places ─────────────────────────────────────────────────────────────

/// The first place of a pattern is one where it stands, and none is before it.
pub proof fn the_first_place_comes_first(s: Seq<char>, pat: Seq<char>, p: int)
    requires
        text::occurs_at(s, pat, p),
    ensures
        lexical::first(s, pat) is Some,
        lexical::first(s, pat)->0 <= p,
        text::occurs_at(s, pat, lexical::first(s, pat)->0),
{
    lexical::first_iff_occurs(s, pat);
    lemma_first_is_least(s, pat, 0, p);
}

/// No place from a position on is before the first.
proof fn lemma_first_is_least(s: Seq<char>, pat: Seq<char>, i: int, p: int)
    requires
        0 <= i <= p,
        text::occurs_at(s, pat, p),
    ensures
        lexical::first_from(s, pat, i) is Some,
        lexical::first_from(s, pat, i)->0 <= p,
    decreases p - i,
{
    if i < p && !text::occurs_at(s, pat, i) {
        lemma_first_is_least(s, pat, i + 1, p);
    }
}

} // verus!
