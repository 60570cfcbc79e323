//! Words, lines and numbers in text.

use vstd::prelude::*;
use vstd::string::*;

use crate::text;
use crate::text::{chars_of, find_chars, matches_at, text_of};

verus! {

// ── Finding ────────────────────────────────────────────────────────────

/// Where a pattern stands first from a position on.
pub open spec fn first_from(s: Seq<char>, pat: Seq<char>, i: int) -> Option<int>
    decreases s.len() - i + 1,
{
    if i < 0 || i + pat.len() > s.len() {
        None
    } else if text::occurs_at(s, pat, i) {
        Some(i)
    } else {
        first_from(s, pat, i + 1)
    }
}

/// Where a pattern stands first.
pub open spec fn first(s: Seq<char>, pat: Seq<char>) -> Option<int> {
    first_from(s, pat, 0)
}

/// The first place is the place that has none before it.
pub proof fn lemma_first(s: Seq<char>, pat: Seq<char>, i: int, p: int)
    requires
        0 <= i <= p,
        text::occurs_at(s, pat, p),
        forall|j: int| 0 <= j < p ==> !text::occurs_at(s, pat, j),
    ensures
        first_from(s, pat, i) == Some(p),
    decreases p - i,
{
    if i < p {
        assert(!text::occurs_at(s, pat, i));
        lemma_first(s, pat, i + 1, p);
    }
}

/// A pattern that stands nowhere has no first place.
proof fn lemma_no_first(s: Seq<char>, pat: Seq<char>, i: int)
    requires
        !text::occurs(s, pat),
        0 <= i,
    ensures
        first_from(s, pat, i) is None,
    decreases s.len() - i + 1,
{
    if i + pat.len() <= s.len() {
        assert(!text::occurs_at(s, pat, i));
        lemma_no_first(s, pat, i + 1);
    }
}

/// A pattern has a first place if and only if it stands somewhere.
pub proof fn first_iff_occurs(s: Seq<char>, pat: Seq<char>)
    ensures
        first(s, pat) is Some <==> text::occurs(s, pat),
        first(s, pat) is Some ==> text::occurs_at(s, pat, first(s, pat)->0),
{
    lemma_first_from_occurs(s, pat, 0);
    if !text::occurs(s, pat) {
        lemma_no_first(s, pat, 0);
    } else {
        let i = choose|i: int| #[trigger] text::occurs_at(s, pat, i);
        lemma_some_first(s, pat, 0, i);
    }
}

/// A place that is found holds the pattern.
proof fn lemma_first_from_occurs(s: Seq<char>, pat: Seq<char>, i: int)
    ensures
        first_from(s, pat, i) is Some ==> text::occurs_at(s, pat, first_from(s, pat, i)->0),
    decreases s.len() - i + 1,
{
    if 0 <= i && i + pat.len() <= s.len() && !text::occurs_at(s, pat, i) {
        lemma_first_from_occurs(s, pat, i + 1);
    }
}

/// A pattern that stands somewhere is found.
proof fn lemma_some_first(s: Seq<char>, pat: Seq<char>, i: int, p: int)
    requires
        0 <= i <= p,
        text::occurs_at(s, pat, p),
    ensures
        first_from(s, pat, i) is Some,
    decreases p - i,
{
    if i < p && !text::occurs_at(s, pat, i) {
        lemma_some_first(s, pat, i + 1, p);
    }
}

/// Where a pattern stands first, counted in characters.
pub fn find(s: &Vec<char>, pat: &str) -> (r: Option<usize>)
    ensures
        match r {
            Some(i) => first(s@, pat@) == Some(i as int) && i + pat@.len() <= s@.len(),
            None => first(s@, pat@) is None,
        },
{
    let p = chars_of(pat);
    match find_chars(s, &p) {
        Some(i) => {
            proof {
                lemma_first(s@, pat@, 0, i as int);
            }
            Some(i)
        },
        None => {
            proof {
                lemma_no_first(s@, pat@, 0);
            }
            None
        },
    }
}

/// A pattern that is found from a position on stands there or behind it.
pub proof fn lemma_first_from(s: Seq<char>, pat: Seq<char>, i: int)
    ensures
        first_from(s, pat, i) is Some ==> i <= first_from(s, pat, i)->0 && first_from(s, pat, i)->0
            + pat.len() <= s.len(),
    decreases s.len() - i + 1,
{
    if 0 <= i && i + pat.len() <= s.len() && !text::occurs_at(s, pat, i) {
        lemma_first_from(s, pat, i + 1);
    }
}

/// Where a pattern stands first from a position on, counted in characters.
pub fn find_from(s: &Vec<char>, pat: &str, from: usize) -> (r: Option<usize>)
    ensures
        match r {
            Some(i) => first_from(s@, pat@, from as int) == Some(i as int) && from <= i && i
                + pat@.len() <= s@.len(),
            None => first_from(s@, pat@, from as int) is None,
        },
{
    let p = chars_of(pat);
    let mut i: usize = from;
    while i <= s.len() && p.len() <= s.len() - i
        invariant
            p@ == pat@,
            from <= i,
            first_from(s@, pat@, from as int) == first_from(s@, pat@, i as int),
        decreases s.len() - i + 1,
    {
        if matches_at(s, &p, i) {
            return Some(i);
        }
        if i == s.len() {
            assert(first_from(s@, pat@, i + 1) is None);
            return None;
        }
        i += 1;
    }
    None
}

// ── White space ────────────────────────────────────────────────────────

/// Whether a character is white space: whether it has the Unicode property
/// `White_Space`, which these code points have.
pub open spec fn whitespace(c: char) -> bool {
    let n = c as u32;
    ||| 0x09 <= n <= 0x0d
    ||| n == 0x20
    ||| n == 0x85
    ||| n == 0xa0
    ||| n == 0x1680
    ||| 0x2000 <= n <= 0x200a
    ||| n == 0x2028
    ||| n == 0x2029
    ||| n == 0x202f
    ||| n == 0x205f
    ||| n == 0x3000
}

/// Whether a character is white space.
pub fn is_whitespace(c: char) -> (r: bool)
    ensures
        r == whitespace(c),
{
    let n: u32 = c as u32;
    (0x09 <= n && n <= 0x0d) || n == 0x20 || n == 0x85 || n == 0xa0 || n == 0x1680 || (0x2000 <= n
        && n <= 0x200a) || n == 0x2028 || n == 0x2029 || n == 0x202f || n == 0x205f || n == 0x3000
}

/// Where the word ends that goes on at a position.
pub open spec fn word_end(s: Seq<char>, i: int) -> int
    decreases s.len() - i,
{
    if 0 <= i < s.len() && !whitespace(s[i]) {
        word_end(s, i + 1)
    } else {
        i
    }
}

/// A word ends within the text, and not before it began.
pub proof fn lemma_word_end(s: Seq<char>, i: int)
    ensures
        i <= word_end(s, i),
        i <= s.len() ==> word_end(s, i) <= s.len(),
        0 <= i < s.len() && !whitespace(s[i]) ==> i < word_end(s, i),
    decreases s.len() - i,
{
    if 0 <= i < s.len() && !whitespace(s[i]) {
        lemma_word_end(s, i + 1);
    }
}

/// Where the word ends that goes on at a position.
pub fn find_word_end(v: &Vec<char>, from: usize) -> (r: usize)
    requires
        from <= v@.len(),
    ensures
        r == word_end(v@, from as int),
{
    let mut i: usize = from;
    while i < v.len() && !is_whitespace(v[i])
        invariant
            from <= i <= v@.len(),
            word_end(v@, from as int) == word_end(v@, i as int),
        decreases v.len() - i,
    {
        i += 1;
    }
    i
}

/// The longest parts of a text that have no white space, from left to right.
pub open spec fn words(s: Seq<char>) -> Seq<Seq<char>>
    decreases s.len(),
{
    if s.len() == 0 {
        Seq::empty()
    } else {
        let before = words(s.drop_last());
        let c = s.last();
        if whitespace(c) {
            before
        } else if s.len() == 1 || whitespace(s[s.len() - 2]) {
            before.push(seq![c])
        } else {
            before.drop_last().push(before.last().push(c))
        }
    }
}

/// A text without white space at its end.
pub open spec fn trimmed_end(s: Seq<char>) -> Seq<char>
    decreases s.len(),
{
    if s.len() > 0 && whitespace(s.last()) {
        trimmed_end(s.drop_last())
    } else {
        s
    }
}

/// A text without white space at its start.
pub open spec fn trimmed_start(s: Seq<char>) -> Seq<char>
    decreases s.len(),
{
    if s.len() > 0 && whitespace(s.first()) {
        trimmed_start(s.drop_first())
    } else {
        s
    }
}

/// A text without white space at either end.
pub open spec fn trimmed(s: Seq<char>) -> Seq<char> {
    trimmed_end(trimmed_start(s))
}

/// Where the word that a text ends with begins, if it ends with one.
spec fn word_start(s: Seq<char>) -> int
    decreases s.len(),
{
    if s.len() == 0 || whitespace(s.last()) {
        s.len() as int
    } else {
        word_start(s.drop_last())
    }
}

/// The last word of a text that ends with one is what it ends with.
proof fn lemma_last_word(s: Seq<char>)
    requires
        s.len() > 0,
        !whitespace(s.last()),
    ensures
        0 <= word_start(s) < s.len(),
        words(s).len() > 0,
        words(s).last() == s.skip(word_start(s)),
    decreases s.len(),
{
    let rest = s.drop_last();
    if s.len() == 1 || whitespace(s[s.len() - 2]) {
        assert(word_start(s) == rest.len());
        assert(s.skip(word_start(s)) =~= seq![s.last()]);
    } else {
        assert(rest.last() == s[s.len() - 2]);
        lemma_last_word(rest);
        assert(s.skip(word_start(s)) =~= rest.skip(word_start(rest)).push(s.last()));
    }
}

/// The words of a text.
pub fn split_whitespace(s: &Vec<char>) -> (r: Vec<String>)
    ensures
        text::texts(r@) == words(s@),
{
    let mut r: Vec<String> = Vec::new();
    let mut start: usize = 0;
    let mut i: usize = 0;
    assert(text::texts(r@) =~= Seq::empty());
    while i < s.len()
        invariant
            start <= i <= s.len(),
            start == word_start(s@.take(i as int)),
            text::texts(r@) == if start < i {
                words(s@.take(i as int)).drop_last()
            } else {
                words(s@.take(i as int))
            },
        decreases s.len() - i + 1,
    {
        let ghost now = s@.take(i as int);
        let ghost next = s@.take(i + 1);
        assert(next.drop_last() =~= now);
        assert(next.last() == s@[i as int]);
        assert(i > 0 ==> next[next.len() - 2] == now.last());
        if is_whitespace(s[i]) {
            if start < i {
                proof {
                    assert(!whitespace(now.last()));
                    lemma_last_word(now);
                    assert(now.skip(start as int) =~= s@.subrange(start as int, i as int));
                }
                let ghost before = r@;
                r.push(text_of(s, start, i));
                assert(text::texts(r@) =~= text::texts(before).push(
                    s@.subrange(start as int, i as int),
                ));
                assert(words(now) =~= words(now).drop_last().push(words(now).last()));
            }
            start = i + 1;
        } else {
            proof {
                lemma_last_word(next);
                if start < i {
                    assert(!whitespace(now.last()));
                    assert(words(next).drop_last() =~= words(now).drop_last());
                } else {
                    if i > 0 && !whitespace(now.last()) {
                        lemma_last_word(now);
                    }
                    assert(words(next).drop_last() =~= words(now));
                }
            }
        }
        i += 1;
    }
    assert(s@.take(i as int) =~= s@);
    if start < i {
        proof {
            lemma_last_word(s@);
            assert(s@.skip(start as int) =~= s@.subrange(start as int, i as int));
        }
        let ghost before = r@;
        r.push(text_of(s, start, i));
        assert(text::texts(r@) =~= text::texts(before).push(s@.subrange(start as int, i as int)));
        assert(words(s@) =~= words(s@).drop_last().push(words(s@).last()));
    }
    r
}

/// A text without white space at either end.
pub fn trim(s: &str) -> (r: String)
    ensures
        r@ == trimmed(s@),
{
    let v = chars_of(s);
    let mut from: usize = 0;
    assert(v@.skip(0) =~= v@);
    while from < v.len() && is_whitespace(v[from])
        invariant
            from <= v.len(),
            v@ == s@,
            trimmed_start(s@) == trimmed_start(v@.skip(from as int)),
        decreases v.len() - from,
    {
        assert(v@.skip(from as int).drop_first() =~= v@.skip(from + 1));
        from += 1;
    }
    let mut to: usize = v.len();
    assert(trimmed_start(s@) == v@.skip(from as int));
    assert(v@.subrange(from as int, to as int) =~= v@.skip(from as int));
    while to > from && is_whitespace(v[to - 1])
        invariant
            from <= to <= v.len(),
            v@ == s@,
            trimmed_end(trimmed_start(s@)) == trimmed_end(v@.subrange(from as int, to as int)),
        decreases to,
    {
        assert(v@.subrange(from as int, to as int).drop_last() =~= v@.subrange(
            from as int,
            to - 1,
        ));
        to -= 1;
    }
    text_of(&v, from, to)
}

/// A text without a character at its end.
pub open spec fn without_end(s: Seq<char>, c: char) -> Seq<char>
    decreases s.len(),
{
    if s.len() > 0 && s.last() == c {
        without_end(s.drop_last(), c)
    } else {
        s
    }
}

/// A text without a character at its start.
pub open spec fn without_start(s: Seq<char>, c: char) -> Seq<char>
    decreases s.len(),
{
    if s.len() > 0 && s.first() == c {
        without_start(s.drop_first(), c)
    } else {
        s
    }
}

/// A text without a character at either end, however often it stands there.
pub open spec fn without_ends(s: Seq<char>, c: char) -> Seq<char> {
    without_end(without_start(s, c), c)
}

/// A part of a text without a character at either end.
pub fn trim_char(v: &Vec<char>, first: usize, end: usize, c: char) -> (r: String)
    requires
        first <= end <= v.len(),
    ensures
        r@ == without_ends(v@.subrange(first as int, end as int), c),
{
    let ghost part = v@.subrange(first as int, end as int);
    let mut from: usize = first;
    while from < end && v[from] == c
        invariant
            first <= from <= end <= v.len(),
            part == v@.subrange(first as int, end as int),
            without_start(part, c) == without_start(v@.subrange(from as int, end as int), c),
        decreases end - from,
    {
        assert(v@.subrange(from as int, end as int).drop_first() =~= v@.subrange(
            from + 1,
            end as int,
        ));
        from += 1;
    }
    let mut to: usize = end;
    while to > from && v[to - 1] == c
        invariant
            from <= to <= v.len(),
            without_ends(part, c) == without_end(v@.subrange(from as int, to as int), c),
        decreases to,
    {
        assert(v@.subrange(from as int, to as int).drop_last() =~= v@.subrange(
            from as int,
            to - 1,
        ));
        to -= 1;
    }
    text_of(v, from, to)
}

// ── Lines ──────────────────────────────────────────────────────────────

/// The line that a text begins with: what stands before the first line feed.
pub open spec fn first_line(s: Seq<char>) -> Seq<char>
    decreases s.len(),
{
    if s.len() == 0 || s.first() == '\n' {
        Seq::empty()
    } else {
        seq![s.first()] + first_line(s.drop_first())
    }
}

/// What stands after the first line feed.
pub open spec fn after_line(s: Seq<char>) -> Seq<char> {
    if first_line(s).len() < s.len() {
        s.skip(first_line(s).len() as int + 1)
    } else {
        Seq::empty()
    }
}

/// A line is no longer than the text.
proof fn lemma_line_fits(s: Seq<char>)
    ensures
        first_line(s).len() <= s.len(),
        first_line(s) == s.take(first_line(s).len() as int),
        first_line(s).len() < s.len() ==> s[first_line(s).len() as int] == '\n',
    decreases s.len(),
{
    if s.len() > 0 && s.first() != '\n' {
        lemma_line_fits(s.drop_first());
        let n = first_line(s).len() as int;
        let rest = s.drop_first();
        assert(first_line(s) =~= s.take(n)) by {
            assert forall|i: int| 0 <= i < n implies first_line(s)[i] == s[i] by {
                if i > 0 {
                    assert(first_line(rest)[i - 1] == rest.take(n - 1)[i - 1]);
                }
            }
        }
    } else {
        assert(s.take(0) =~= Seq::empty());
    }
}

/// The first line that begins with a pattern.
pub open spec fn line_with(s: Seq<char>, pat: Seq<char>) -> Option<Seq<char>>
    decreases s.len(),
{
    if s.len() == 0 {
        None
    } else if text::begins(first_line(s), pat) {
        Some(first_line(s))
    } else if first_line(s).len() < s.len() {
        line_with(after_line(s), pat)
    } else {
        None
    }
}

/// The first line that begins with a pattern.
pub fn find_line(s: &str, pat: &str) -> (r: Option<Vec<char>>)
    ensures
        match r {
            Some(line) => line_with(s@, pat@) == Some(line@),
            None => line_with(s@, pat@) is None,
        },
{
    let v = chars_of(s);
    let p = chars_of(pat);
    let mut at: usize = 0;
    assert(v@.skip(0) =~= v@);
    while at < v.len()
        invariant
            at <= v.len(),
            p@ == pat@,
            v@ == s@,
            line_with(s@, pat@) == line_with(v@.skip(at as int), pat@),
        decreases v.len() - at,
    {
        let ghost rest = v@.skip(at as int);
        let mut line: Vec<char> = Vec::new();
        let mut end: usize = at;
        assert(rest =~= v@.skip(end as int));
        assert(first_line(rest) =~= line@ + first_line(v@.skip(end as int)));
        while end < v.len() && v[end] != '\n'
            invariant
                at <= end <= v.len(),
                line@.len() == end - at,
                first_line(rest) == line@ + first_line(v@.skip(end as int)),
            decreases v.len() - end,
        {
            let ghost tail = v@.skip(end as int);
            assert(tail.drop_first() =~= v@.skip(end + 1));
            line.push(v[end]);
            end += 1;
            assert(first_line(rest) =~= line@ + first_line(v@.skip(end as int)));
        }
        assert(first_line(v@.skip(end as int)) =~= Seq::empty());
        assert(first_line(rest) =~= line@);
        if text::matches_at(&line, &p, 0) {
            return Some(line);
        }
        if end == v.len() {
            return None;
        }
        assert(after_line(rest) =~= v@.skip(end + 1));
        at = end + 1;
    }
    None
}

// ── Numbers ────────────────────────────────────────────────────────────

/// The value of a text of decimal digits; the empty text counts as zero.
pub open spec fn digits(s: Seq<char>) -> Option<nat>
    decreases s.len(),
{
    if s.len() == 0 {
        Some(0)
    } else if '0' <= s.last() <= '9' {
        match digits(s.drop_last()) {
            Some(n) => Some(n * 10 + (s.last() as nat - '0' as nat) as nat),
            None => None,
        }
    } else {
        None
    }
}

/// The value of a text of at least one decimal digit.
pub open spec fn number(s: Seq<char>) -> Option<nat> {
    if s.len() == 0 {
        None
    } else {
        digits(s)
    }
}

/// A number in decimal notation is made of digits and reads back as the number.
pub proof fn decimal_reads_back(n: nat)
    ensures
        number(text::decimal(n)) == Some(n),
        forall|i: int|
            0 <= i < text::decimal(n).len() ==> '0' <= #[trigger] text::decimal(n)[i] <= '9',
    decreases n,
{
    let s = text::decimal(n);
    assert(s.last() == text::digit(n % 10));
    assert(s.last() as nat - '0' as nat == n % 10);
    if n < 10 {
        assert(s.drop_last() =~= Seq::empty());
        assert(digits(s.drop_last()) == Some(0nat));
    } else {
        decimal_reads_back(n / 10);
        assert(s.drop_last() =~= text::decimal(n / 10));
        assert(digits(s.drop_last()) == Some(n / 10));
    }
    assert(digits(s) == Some(n));
}

/// Different numbers have different decimal notations.
pub proof fn decimal_is_injective(m: nat, n: nat)
    requires
        text::decimal(m) == text::decimal(n),
    ensures
        m == n,
{
    decimal_reads_back(m);
    decimal_reads_back(n);
}

/// Texts that end in decimal numbers behind a character that is no digit are
/// equal only if the numbers are.
pub proof fn last_number_is_read(a: Seq<char>, b: Seq<char>, m: nat, n: nat)
    requires
        a.len() > 0,
        b.len() > 0,
        !('0' <= a.last() <= '9'),
        !('0' <= b.last() <= '9'),
        a + text::decimal(m) == b + text::decimal(n),
    ensures
        m == n,
        a == b,
{
    let x = a + text::decimal(m);
    let y = b + text::decimal(n);
    assert(x.len() == a.len() + text::decimal(m).len());
    assert(y.len() == b.len() + text::decimal(n).len());
    decimal_reads_back(m);
    decimal_reads_back(n);
    if a.len() < b.len() {
        assert(x[b.len() - 1] == text::decimal(m)[b.len() - 1 - a.len()]);
        assert(y[b.len() - 1] == b.last());
    } else if b.len() < a.len() {
        assert(y[a.len() - 1] == text::decimal(n)[a.len() - 1 - b.len()]);
        assert(x[a.len() - 1] == a.last());
    } else {
        assert(a =~= x.take(a.len() as int));
        assert(b =~= y.take(a.len() as int));
        assert(text::decimal(m) =~= x.skip(a.len() as int));
        assert(text::decimal(n) =~= y.skip(a.len() as int));
        decimal_is_injective(m, n);
    }
}

/// The number that a text denotes if it fits in 64 bits without a sign: digits
/// with or without a plus sign before them.
pub open spec fn parsed_u64(s: Seq<char>) -> Option<u64> {
    match number(
        if s.len() > 0 && s.first() == '+' {
            s.drop_first()
        } else {
            s
        },
    ) {
        Some(n) => if n <= u64::MAX {
            Some(n as u64)
        } else {
            None
        },
        None => None,
    }
}

/// The number that a text denotes if it fits in 32 bits with a sign: digits
/// with or without a sign before them.
pub open spec fn parsed_i32(s: Seq<char>) -> Option<i32> {
    let signed = s.len() > 0 && (s.first() == '+' || s.first() == '-');
    match number(
        if signed {
            s.drop_first()
        } else {
            s
        },
    ) {
        Some(n) => {
            let v = if signed && s.first() == '-' {
                -n
            } else {
                n as int
            };
            if i32::MIN <= v <= i32::MAX {
                Some(v as i32)
            } else {
                None
            }
        },
        None => None,
    }
}

/// More digits make no smaller number.
proof fn lemma_digits_grow(s: Seq<char>, k: int)
    requires
        0 <= k <= s.len(),
        digits(s) is Some,
    ensures
        digits(s.take(k)) is Some,
        digits(s.take(k))->0 <= digits(s)->0,
    decreases s.len(),
{
    if k < s.len() {
        lemma_digits_grow(s.drop_last(), k);
        assert(s.drop_last().take(k) =~= s.take(k));
    } else {
        assert(s.take(k) =~= s);
    }
}

/// The value of digits from a position on, if it fits in 64 bits.
fn parse_digits(v: &Vec<char>, from: usize) -> (r: Option<u64>)
    requires
        from <= v.len(),
    ensures
        match r {
            Some(n) => number(v@.skip(from as int)) == Some(n as nat),
            None => match number(v@.skip(from as int)) {
                Some(n) => n > u64::MAX,
                None => true,
            },
        },
{
    let ghost s = v@.skip(from as int);
    if from == v.len() {
        return None;
    }
    let mut n: u64 = 0;
    let mut i: usize = from;
    assert(s.take(0) =~= Seq::empty());
    while i < v.len()
        invariant
            from <= i <= v.len(),
            s == v@.skip(from as int),
            digits(s.take(i - from)) == Some(n as nat),
        decreases v.len() - i,
    {
        let c = v[i];
        let ghost next = s.take(i + 1 - from);
        assert(next.drop_last() =~= s.take(i - from));
        assert(next.last() == c);
        if c < '0' || '9' < c {
            proof {
                if digits(s) is Some {
                    lemma_digits_grow(s, i + 1 - from);
                }
            }
            return None;
        }
        let d: u64 = c as u64 - '0' as u64;
        match n.checked_mul(10) {
            Some(m) => match m.checked_add(d) {
                Some(k) => {
                    n = k;
                },
                None => {
                    proof {
                        if digits(s) is Some {
                            lemma_digits_grow(s, i + 1 - from);
                        }
                    }
                    return None;
                },
            },
            None => {
                proof {
                    if digits(s) is Some {
                        lemma_digits_grow(s, i + 1 - from);
                    }
                }
                return None;
            },
        }
        i += 1;
    }
    assert(s.take(i - from) =~= s);
    Some(n)
}

/// The number that a text denotes, if it fits in 64 bits without a sign.
pub fn parse_u64(s: &str) -> (r: Option<u64>)
    ensures
        r == parsed_u64(s@),
{
    let v = chars_of(s);
    if v.len() > 0 && v[0] == '+' {
        assert(v@.skip(1) =~= s@.drop_first());
        parse_digits(&v, 1)
    } else {
        assert(v@.skip(0) =~= s@);
        parse_digits(&v, 0)
    }
}

/// The number that a text denotes, if it fits in 32 bits with a sign.
pub fn parse_i32(s: &str) -> (r: Option<i32>)
    ensures
        r == parsed_i32(s@),
{
    let v = chars_of(s);
    let signed = v.len() > 0 && (v[0] == '+' || v[0] == '-');
    let n = if signed {
        assert(v@.skip(1) =~= s@.drop_first());
        parse_digits(&v, 1)
    } else {
        assert(v@.skip(0) =~= s@);
        parse_digits(&v, 0)
    };
    match n {
        Some(m) => if signed && v[0] == '-' {
            if m <= 0x8000_0000 {
                Some((-(m as i64)) as i32)
            } else {
                None
            }
        } else if m <= 0x7fff_ffff {
            Some(m as i32)
        } else {
            None
        },
        None => None,
    }
}

// ── Bytes ──────────────────────────────────────────────────────────────

/// How many bytes a character takes in UTF-8.
pub open spec fn char_bytes(c: char) -> nat {
    if (c as u32) < 0x80 {
        1
    } else if (c as u32) < 0x800 {
        2
    } else if (c as u32) < 0x1_0000 {
        3
    } else {
        4
    }
}

/// How many bytes a text takes in UTF-8.
pub open spec fn byte_len(s: Seq<char>) -> nat
    decreases s.len(),
{
    if s.len() == 0 {
        0
    } else {
        byte_len(s.drop_last()) + char_bytes(s.last())
    }
}

/// How many bytes a character takes in UTF-8.
pub fn char_len(c: char) -> (r: usize)
    ensures
        r == char_bytes(c),
{
    let code: u32 = c as u32;
    if code < 0x80 {
        1
    } else if code < 0x800 {
        2
    } else if code < 0x1_0000 {
        3
    } else {
        4
    }
}

/// A shorter start takes fewer bytes.
pub proof fn bytes_grow(s: Seq<char>, i: int, j: int)
    requires
        0 <= i <= j <= s.len(),
    ensures
        byte_len(s.take(i)) + (j - i) <= byte_len(s.take(j)),
    decreases j - i,
{
    if i < j {
        bytes_grow(s, i, j - 1);
        assert(s.take(j).drop_last() =~= s.take(j - 1));
    }
}

} // verus!
