//! What holds of names in SQL text that is not parsed: words that stand by
//! themselves are replaced and no others, and a name stands for a column of a
//! join only where it belongs to one.

use vstd::prelude::*;

use crate::dvm::operators::filter;
use crate::dvm::operators::filter::NamePair;
use crate::dvm::parser::ExprView;
use crate::sql_builder;
use crate::text;

verus! {

// ── Words ──────────────────────────────────────────────────────────────

/// Whether a character makes a word next to it longer.
pub open spec fn continues_word(c: char) -> bool {
    'a' <= c <= 'z' || 'A' <= c <= 'Z' || '0' <= c <= '9' || c == '_'
}

/// The first word that stands by itself outside quotes is replaced, and what
/// stands before it stays; without another such word behind it, what stands
/// there stays as well.
pub proof fn words_by_themselves_are_replaced(
    a: Seq<char>,
    word: Seq<char>,
    b: Seq<char>,
    with: Seq<char>,
)
    requires
        word.len() > 0,
        word[0] != '\'',
        !a.contains('\''),
        forall|k: int| 0 <= k < a.len() ==> !text::occurs_at(a + word + b, word, k),
        a.len() > 0 ==> !continues_word(a.last()),
        b.len() > 0 ==> !continues_word(b[0]),
    ensures
        text::begins(filter::word_replaced(a + word + b, word, with), a + with),
        (forall|k: int| k > a.len() ==> !text::occurs_at(a + word + b, word, k))
            ==> filter::word_replaced(
            a + word + b,
            word,
            with,
        ) == a + with + b,
{
    let s = a + word + b;
    let n = a.len() as int;
    assert(s.subrange(n, n + word.len()) =~= word);
    assert(text::occurs_at(s, word, n));
    assert(s[n] == word[0]);
    lemma_skipped(s, word, with, 0, n);
    let rest = filter::replaced_from(s, word, with, n + word.len(), false);
    let r = filter::word_replaced(s, word, with);
    assert(filter::stands_alone(s, word, n));
    assert(s.subrange(0, n) =~= a);
    assert(r == a + (with + rest));
    assert(r.subrange(0, (a + with).len() as int) =~= a + with);
    if forall|k: int| k > a.len() ==> !text::occurs_at(s, word, k) {
        lemma_kept(s, word, with, n + word.len(), false);
        assert(s.skip(n + word.len()) =~= b);
        assert(a + (with + b) =~= a + with + b);
    }
}

/// Up to a place before which the word does not stand nothing is replaced.
proof fn lemma_skipped(s: Seq<char>, word: Seq<char>, with: Seq<char>, i: int, n: int)
    requires
        word.len() > 0,
        0 <= i <= n < s.len(),
        forall|k: int| i <= k < n ==> s[k] != '\'' && !text::occurs_at(s, word, k),
    ensures
        filter::replaced_from(s, word, with, i, false) == s.subrange(i, n) + filter::replaced_from(
            s,
            word,
            with,
            n,
            false,
        ),
    decreases n - i,
{
    let rest = filter::replaced_from(s, word, with, n, false);
    if i < n {
        lemma_skipped(s, word, with, i + 1, n);
        assert(seq![s[i]] + (s.subrange(i + 1, n) + rest) =~= s.subrange(i, n) + rest);
    } else {
        assert(s.subrange(i, n) + rest =~= rest);
    }
}

/// Where the word stands nowhere by itself nothing is replaced.
proof fn lemma_kept(s: Seq<char>, word: Seq<char>, with: Seq<char>, i: int, quoted: bool)
    requires
        word.len() > 0,
        0 <= i <= s.len(),
        forall|k: int| i <= k < s.len() ==> !filter::stands_alone(s, word, k),
    ensures
        filter::replaced_from(s, word, with, i, quoted) == s.skip(i),
    decreases s.len() - i,
{
    if i < s.len() {
        if s[i] == '\'' {
            lemma_kept(s, word, with, i + 1, !quoted);
        } else {
            lemma_kept(s, word, with, i + 1, quoted);
        }
        assert(!filter::stands_alone(s, word, i));
        assert(seq![s[i]] + s.skip(i + 1) =~= s.skip(i));
    } else {
        assert(s.skip(i) =~= Seq::empty());
    }
}

/// A word that everywhere is a part of a longer one is not replaced.
pub proof fn parts_of_longer_words_are_kept(s: Seq<char>, word: Seq<char>, with: Seq<char>)
    requires
        forall|k: int| #[trigger]
            text::occurs_at(s, word, k) ==> (k > 0 && continues_word(s[k - 1])) || (k + word.len()
                < s.len() && continues_word(s[k + word.len()])),
    ensures
        filter::word_replaced(s, word, with) == s,
{
    if word.len() > 0 {
        lemma_kept(s, word, with, 0, false);
        assert(s.skip(0) =~= s);
    }
}

// ── Names with a prefix ────────────────────────────────────────────────

/// Whether two underscores stand nowhere in a name nor across its start, so
/// that a prefix ends right before it.
pub open spec fn plain_base(b: Seq<char>) -> bool {
    !text::occurs("_"@ + b, "__"@)
}

/// The part of a name behind its prefix is what a join found there.
pub proof fn the_base_stands_behind_the_prefix(p: Seq<char>, b: Seq<char>)
    requires
        plain_base(b),
    ensures
        filter::base_name(p + "__"@ + b) == b,
        text::occurs(p + "__"@ + b, "__"@),
{
    reveal(filter::base_name);
    reveal_strlit("__");
    reveal_strlit("_");
    let s = p + "__"@ + b;
    let n = p.len() as int;
    assert(s.subrange(n, n + 2) =~= "__"@);
    assert(text::occurs_at(s, "__"@, n));
    assert forall|j: int| n < j implies !text::occurs_at(s, "__"@, j) by {
        if text::occurs_at(s, "__"@, j) {
            let t = "_"@ + b;
            let k = j - n - 1;
            assert(t.subrange(k, k + 2) =~= s.subrange(j, j + 2));
            assert(text::occurs_at(t, "__"@, k));
        }
    }
    let i = filter::last_position(s, "__"@);
    assert(text::occurs_at(s, "__"@, i) && forall|j: int|
        i < j ==> !text::occurs_at(s, "__"@, j));
    assert(i == n);
    assert(s.skip(n + 2) =~= b);
}

/// Every name with a prefix is paired with the part behind it, unless that is
/// a column itself; names without a prefix are not paired.
pub proof fn names_with_a_prefix_are_paired(
    a: Seq<Seq<char>>,
    b: Seq<Seq<char>>,
    col: Seq<char>,
    all: Seq<Seq<char>>,
)
    ensures
        filter::name_pairs(a + b, all) == filter::name_pairs(a, all) + filter::name_pairs(b, all),
        text::occurs(col, "__"@) && !all.contains(filter::base_name(col)) ==> filter::name_pairs(
            seq![col],
            all,
        ) == seq![(filter::base_name(col), col)],
        !text::occurs(col, "__"@) ==> filter::name_pairs(seq![col], all).len() == 0,
        all.contains(filter::base_name(col)) ==> filter::name_pairs(seq![col], all).len() == 0,
    decreases b.len(),
{
    reveal_with_fuel(filter::name_pairs, 2);
    assert(seq![col].drop_last() =~= Seq::empty());
    if text::occurs(col, "__"@) && !all.contains(filter::base_name(col)) {
        assert(filter::name_pairs(seq![col], all) =~= seq![(filter::base_name(col), col)]);
    }
    if b.len() == 0 {
        assert(a + b =~= a);
        assert(filter::name_pairs(a, all) + filter::name_pairs(b, all) =~= filter::name_pairs(
            a,
            all,
        ));
    } else {
        names_with_a_prefix_are_paired(a, b.drop_last(), col, all);
        assert((a + b).drop_last() =~= a + b.drop_last());
        assert(filter::name_pairs(a + b, all) =~= filter::name_pairs(a, all) + filter::name_pairs(
            b,
            all,
        ));
    }
}

/// Putting longer names first keeps every pair, however often it stands there.
pub proof fn sorting_keeps_every_pair(pairs: Seq<NamePair>)
    ensures
        filter::longest_first(pairs).to_multiset() == pairs.to_multiset(),
    decreases pairs.len(),
{
    broadcast use vstd::seq_lib::group_to_multiset_ensures;

    if pairs.len() > 0 {
        sorting_keeps_every_pair(pairs.drop_last());
        lemma_inserted_once(filter::longest_first(pairs.drop_last()), pairs.last());
        assert(pairs.drop_last().push(pairs.last()) =~= pairs);
    } else {
        assert(filter::longest_first(pairs) =~= pairs);
    }
}

/// Inserting a pair adds it once, and keeps the others.
proof fn lemma_inserted_once(pairs: Seq<NamePair>, p: NamePair)
    ensures
        filter::insert_pair(pairs, p).to_multiset() == pairs.to_multiset().insert(p),
    decreases pairs.len(),
{
    broadcast use vstd::seq_lib::group_to_multiset_ensures;

    if pairs.len() > 0 && filter::byte_len(pairs.last().0) < filter::byte_len(p.0) {
        let rest = pairs.drop_last();
        lemma_inserted_once(rest, p);
        assert(rest.push(pairs.last()) =~= pairs);
        assert(filter::insert_pair(pairs, p).to_multiset() =~= pairs.to_multiset().insert(p));
    }
}

/// How many columns have a name behind their prefix goes up with each of them.
pub proof fn each_pair_counts_for_its_base(pairs: Seq<NamePair>, p: NamePair, base: Seq<char>)
    ensures
        p.0 == base ==> filter::count_base(pairs.push(p), base) == filter::count_base(pairs, base)
            + 1,
        p.0 != base ==> filter::count_base(pairs.push(p), base) == filter::count_base(pairs, base),
        filter::count_base(Seq::empty(), base) == 0,
{
    assert(pairs.push(p).drop_last() =~= pairs);
}

/// Pairs are applied one after the other: one whose base belongs to it alone
/// replaces the base by its quoted name, and others change nothing.
pub proof fn only_unambiguous_names_are_replaced(s: Seq<char>, pairs: Seq<NamePair>, n: nat)
    requires
        n < pairs.len(),
    ensures
        ({
            let before = filter::pairs_applied(s, pairs, n);
            let now = filter::pairs_applied(s, pairs, n + 1);
            let p = pairs[n as int];
            &&& filter::count_base(pairs, p.0) == 1 ==> now == filter::word_replaced(
                before,
                p.0,
                sql_builder::ident_text(p.1),
            )
            &&& filter::count_base(pairs, p.0) != 1 ==> now == before
        }),
        filter::pairs_applied(s, pairs, 0) == s,
{
}

/// Over the columns of an input with one name behind a prefix, the name stands
/// for the column; over columns none of which has a prefix, text stays as it
/// is; and where two columns have the name behind their prefixes, it stays.
pub proof fn raw_text_names_the_columns_of_the_input(
    sql: Seq<char>,
    p: Seq<char>,
    q: Seq<char>,
    b: Seq<char>,
)
    requires
        plain_base(b),
    ensures
        filter::raw_resolved(sql, Seq::empty()) == sql,
        filter::raw_resolved(sql, seq![p + "__"@ + b]) == filter::word_replaced(
            sql,
            b,
            sql_builder::ident_text(p + "__"@ + b),
        ),
        filter::raw_resolved(sql, seq![p + "__"@ + b, q + "__"@ + b]) == sql,
{
    reveal_strlit("__");
    let col = p + "__"@ + b;
    let other = q + "__"@ + b;
    let none = Seq::<NamePair>::empty();
    the_base_stands_behind_the_prefix(p, b);
    the_base_stands_behind_the_prefix(q, b);
    assert(col.len() == p.len() + 2 + b.len());
    assert(other.len() == q.len() + 2 + b.len());
    reveal_with_fuel(filter::longest_first, 3);
    reveal_with_fuel(filter::insert_pair, 2);
    reveal_with_fuel(filter::count_base, 3);
    reveal_with_fuel(filter::pairs_applied, 3);
    let one = seq![col];
    let x: NamePair = (b, col);
    let y: NamePair = (b, other);
    assert(!one.contains(b)) by {
        if one.contains(b) {
            let i = one.index_of(b);
            assert(one[i] == col);
        }
    }
    names_with_a_prefix_are_paired(Seq::empty(), Seq::empty(), col, one);
    assert(filter::name_pairs(one, one) == seq![x]);
    assert(seq![x].drop_last() =~= none);
    assert(none.push(x) =~= seq![x]);
    assert(filter::longest_first(seq![x]) =~= seq![x]);
    assert(filter::count_base(seq![x], b) == 1);
    let two = seq![col, other];
    assert(!two.contains(b)) by {
        if two.contains(b) {
            let i = two.index_of(b);
            assert(two[i] == col || two[i] == other);
        }
    }
    names_with_a_prefix_are_paired(seq![col], seq![other], col, two);
    names_with_a_prefix_are_paired(seq![col], seq![other], other, two);
    assert(two =~= seq![col] + seq![other]);
    assert(filter::name_pairs(two, two) =~= seq![x, y]);
    assert(seq![x, y].drop_last() =~= seq![x]);
    assert(filter::longest_first(seq![x, y]) =~= seq![x, y]);
    assert(filter::count_base(seq![x, y], b) == 2);
}

/// Literals and stars stay as they are over any input, and text that is not
/// parsed has its names replaced.
pub proof fn only_columns_and_raw_text_are_resolved(e: ExprView, cols: Seq<Seq<char>>)
    ensures
        e is Literal || e is Star ==> filter::resolved(e, cols) == e.sql(),
        e matches ExprView::Raw(sql) ==> filter::resolved(e, cols) == filter::raw_resolved(
            sql,
            cols,
        ),
{
}

} // verus!
