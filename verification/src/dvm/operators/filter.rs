//! Filters.
//!
//! The delta of a filter is the delta of its input, restricted by the
//! predicate.  Both halves of an update are kept or dropped by themselves, so a
//! row that starts to satisfy the predicate is inserted and one that ceases to
//! is deleted.
//!
//! Above a join, columns have the names that the join gave them, and the
//! predicate is rewritten to these.

use vstd::prelude::*;
use vstd::string::*;

use crate::dvm::diff;
use crate::dvm::diff::{col_list, quote_ident};
use crate::dvm::diff::{Delta, DiffContext, DiffEnv, DiffResult, DiffState, Outcome};
use crate::dvm::engine;
use crate::dvm::parser;
use crate::dvm::parser::{Expr, ExprView, OpTree};
use crate::error::{ErrorView, PgTrickleError};
use crate::sql_builder;
use crate::text;
use crate::text::{chars_of, contains, ends_with, join_texts, list_contains};
use crate::text::{matches_at, rfind_chars, text_eq, text_of};

verus! {

// ── Words in SQL text ──────────────────────────────────────────────────

/// Whether a character is part of a word: an ASCII letter or digit, or an
/// underscore.
pub open spec fn word_char(c: char) -> bool {
    'a' <= c <= 'z' || 'A' <= c <= 'Z' || '0' <= c <= '9' || c == '_'
}

/// Whether a word stands by itself at a position, not as a part of a longer
/// one.
pub open spec fn stands_alone(s: Seq<char>, word: Seq<char>, i: int) -> bool {
    &&& text::occurs_at(s, word, i)
    &&& i == 0 || !word_char(s[i - 1])
    &&& i + word.len() >= s.len() || !word_char(s[i + word.len()])
}

/// The text from a position on with the word replaced wherever it stands by
/// itself outside single quotes; `quoted` says whether the position is inside.
pub open spec fn replaced_from(
    s: Seq<char>,
    word: Seq<char>,
    with: Seq<char>,
    i: int,
    quoted: bool,
) -> Seq<char>
    decreases s.len() - i,
{
    if word.len() == 0 || i < 0 || i >= s.len() {
        Seq::empty()
    } else if s[i] == '\'' {
        seq![s[i]] + replaced_from(s, word, with, i + 1, !quoted)
    } else if quoted {
        seq![s[i]] + replaced_from(s, word, with, i + 1, quoted)
    } else if stands_alone(s, word, i) {
        with + replaced_from(s, word, with, i + word.len(), quoted)
    } else {
        seq![s[i]] + replaced_from(s, word, with, i + 1, quoted)
    }
}

/// A text with a word replaced wherever it stands by itself outside single
/// quotes.
pub open spec fn word_replaced(s: Seq<char>, word: Seq<char>, with: Seq<char>) -> Seq<char> {
    if word.len() == 0 {
        s
    } else {
        replaced_from(s, word, with, 0, false)
    }
}

/// Without the word in it, a text stays as it is.
proof fn lemma_word_absent(
    s: Seq<char>,
    word: Seq<char>,
    with: Seq<char>,
    i: int,
    quoted: bool,
)
    requires
        !text::occurs(s, word),
        word.len() > 0,
        0 <= i <= s.len(),
    ensures
        replaced_from(s, word, with, i, quoted) == s.skip(i),
    decreases s.len() - i,
{
    if i < s.len() {
        assert(!text::occurs_at(s, word, i));
        if s[i] == '\'' {
            lemma_word_absent(s, word, with, i + 1, !quoted);
        } else {
            lemma_word_absent(s, word, with, i + 1, quoted);
        }
        assert(seq![s[i]] + s.skip(i + 1) =~= s.skip(i));
    } else {
        assert(s.skip(i) =~= Seq::empty());
    }
}

/// Replacing a word that a text does not have leaves the text as it is.
pub proof fn absent_word_is_kept(s: Seq<char>, word: Seq<char>, with: Seq<char>)
    requires
        !text::occurs(s, word),
    ensures
        word_replaced(s, word, with) == s,
{
    if word.len() > 0 {
        lemma_word_absent(s, word, with, 0, false);
        assert(s.skip(0) =~= s);
    }
}

/// Inside single quotes nothing is replaced up to the closing quote.
pub proof fn quoted_text_is_kept(s: Seq<char>, word: Seq<char>, with: Seq<char>, i: int, end: int)
    requires
        word.len() > 0,
        0 <= i <= end < s.len(),
        s[end] == '\'',
        forall|k: int| i <= k < end ==> s[k] != '\'',
    ensures
        replaced_from(s, word, with, i, true) == s.subrange(i, end + 1) + replaced_from(
            s,
            word,
            with,
            end + 1,
            false,
        ),
    decreases end - i,
{
    let rest = replaced_from(s, word, with, end + 1, false);
    if i == end {
        assert(seq![s[i]] + rest =~= s.subrange(i, end + 1) + rest);
    } else {
        quoted_text_is_kept(s, word, with, i + 1, end);
        assert(seq![s[i]] + (s.subrange(i + 1, end + 1) + rest) =~= s.subrange(i, end + 1)
            + rest);
    }
}

/// Whether a character is part of a word.
fn is_word_char(c: char) -> (r: bool)
    ensures
        r == word_char(c),
{
    ('a' <= c && c <= 'z') || ('A' <= c && c <= 'Z') || ('0' <= c && c <= '9') || c == '_'
}

/// Replaces a word wherever it stands by itself outside single quotes.
///
/// A word stands by itself where no ASCII letter, digit or underscore is next
/// to it.
pub fn replace_word_boundary(text: &str, word: &str, replacement: &str) -> (r: String)
    ensures
        r@ == word_replaced(text@, word@, replacement@),
{
    let w = chars_of(word);
    if w.len() == 0 || !contains(text, word) {
        proof {
            if word@.len() > 0 {
                absent_word_is_kept(text@, word@, replacement@);
            }
        }
        return text.to_string();
    }
    let s = chars_of(text);
    let ghost whole = replaced_from(s@, w@, replacement@, 0, false);
    let mut r = String::new();
    let mut quoted = false;
    let mut i: usize = 0;
    assert(r@ + whole =~= whole);
    while i < s.len()
        invariant
            i <= s.len(),
            w@ == word@,
            w@.len() > 0,
            whole == r@ + replaced_from(s@, w@, replacement@, i as int, quoted),
        decreases s.len() - i,
    {
        let ghost before = r@;
        if s[i] == '\'' {
            quoted = !quoted;
            r.push(s[i]);
            i += 1;
            proof {
                let rest = replaced_from(s@, w@, replacement@, i as int, quoted);
                assert(before + (seq![s@[i - 1]] + rest) =~= r@ + rest);
            }
            continue;
        }
        if !quoted && matches_at(&s, &w, i) {
            let before_ok = i == 0 || !is_word_char(s[i - 1]);
            let after_ok = i + w.len() >= s.len() || !is_word_char(s[i + w.len()]);
            if before_ok && after_ok {
                r.append(replacement);
                i += w.len();
                proof {
                    let rest = replaced_from(s@, w@, replacement@, i as int, quoted);
                    assert(before + (replacement@ + rest) =~= r@ + rest);
                }
                continue;
            }
        }
        r.push(s[i]);
        i += 1;
        proof {
            let rest = replaced_from(s@, w@, replacement@, i as int, quoted);
            assert(before + (seq![s@[i - 1]] + rest) =~= r@ + rest);
        }
    }
    assert(r@ + replaced_from(s@, w@, replacement@, i as int, quoted) =~= r@);
    r
}

// ── Columns in SQL text ────────────────────────────────────────────────

/// A column name before a join gave it a prefix, and the name it has now.
pub type NamePair = (Seq<char>, Seq<char>);

/// The last position at which a pattern stands.
pub open spec fn last_position(s: Seq<char>, pat: Seq<char>) -> int {
    choose|i: int|
        #[trigger] text::occurs_at(s, pat, i) && forall|j: int|
            i < j ==> !text::occurs_at(s, pat, j)
}

/// The part of a name after its last double underscore.
#[verifier::opaque]
pub open spec fn base_name(col: Seq<char>) -> Seq<char> {
    col.skip(last_position(col, "__"@) + 2)
}

/// The names with a prefix whose part after it is no column itself, each after
/// that part.
pub open spec fn name_pairs(cols: Seq<Seq<char>>, all: Seq<Seq<char>>) -> Seq<NamePair>
    decreases cols.len(),
{
    if cols.len() == 0 {
        Seq::empty()
    } else {
        let col = cols.last();
        let before = name_pairs(cols.drop_last(), all);
        if text::occurs(col, "__"@) && !all.contains(base_name(col)) {
            before.push((base_name(col), col))
        } else {
            before
        }
    }
}

/// The length of a text in bytes.
pub open spec fn byte_len(s: Seq<char>) -> usize {
    vstd::utf8::encode_utf8(s).len() as usize
}

/// A pair put behind those whose base name is at least as long.
pub open spec fn insert_pair(pairs: Seq<NamePair>, p: NamePair) -> Seq<NamePair>
    decreases pairs.len(),
{
    if pairs.len() == 0 || byte_len(pairs.last().0) >= byte_len(p.0) {
        pairs.push(p)
    } else {
        insert_pair(pairs.drop_last(), p).push(pairs.last())
    }
}

/// Pairs with longer base names first, and otherwise in their order.
pub open spec fn longest_first(pairs: Seq<NamePair>) -> Seq<NamePair>
    decreases pairs.len(),
{
    if pairs.len() == 0 {
        Seq::empty()
    } else {
        insert_pair(longest_first(pairs.drop_last()), pairs.last())
    }
}

/// How many pairs have a base name.
pub open spec fn count_base(pairs: Seq<NamePair>, base: Seq<char>) -> nat
    decreases pairs.len(),
{
    if pairs.len() == 0 {
        0
    } else {
        count_base(pairs.drop_last(), base) + (if pairs.last().0 == base {
            1nat
        } else {
            0
        })
    }
}

/// A text after the first `n` pairs were applied, one after the other.  A base
/// name that several columns have is left alone.
pub open spec fn pairs_applied(s: Seq<char>, pairs: Seq<NamePair>, n: nat) -> Seq<char>
    decreases n,
{
    if n == 0 || n > pairs.len() {
        s
    } else {
        let before = pairs_applied(s, pairs, (n - 1) as nat);
        let p = pairs[n - 1];
        if count_base(pairs, p.0) == 1 {
            word_replaced(before, p.0, sql_builder::ident_text(p.1))
        } else {
            before
        }
    }
}

/// SQL text with column names replaced by the names that a join gave them.
pub open spec fn raw_resolved(sql: Seq<char>, cols: Seq<Seq<char>>) -> Seq<char> {
    let pairs = longest_first(name_pairs(cols, cols));
    pairs_applied(sql, pairs, pairs.len())
}

/// Inserting keeps pairs with longer base names first.
proof fn lemma_insert_pair(pairs: Seq<NamePair>, p: NamePair)
    requires
        forall|i: int, j: int|
            0 <= i <= j < pairs.len() ==> byte_len((#[trigger] pairs[i]).0) >= byte_len(
                (#[trigger] pairs[j]).0,
            ),
    ensures
        insert_pair(pairs, p).len() == pairs.len() + 1,
        forall|i: int, j: int|
            0 <= i <= j < pairs.len() + 1 ==> byte_len((#[trigger] insert_pair(pairs, p)[i]).0)
                >= byte_len((#[trigger] insert_pair(pairs, p)[j]).0),
        forall|i: int|
            0 <= i < pairs.len() + 1 ==> (#[trigger] insert_pair(pairs, p)[i] == p
                || pairs.contains(insert_pair(pairs, p)[i])),
    decreases pairs.len(),
{
    if pairs.len() == 0 || byte_len(pairs.last().0) >= byte_len(p.0) {
    } else {
        let rest = pairs.drop_last();
        lemma_insert_pair(rest, p);
        let inner = insert_pair(rest, p);
        let outer = insert_pair(pairs, p);
        assert(outer =~= inner.push(pairs.last()));
        assert forall|i: int| 0 <= i < pairs.len() implies byte_len((#[trigger] inner[i]).0)
            >= byte_len(pairs.last().0) by {
            if inner[i] != p {
                let k = choose|k: int| 0 <= k < rest.len() && rest[k] == inner[i];
                assert(pairs[k] == inner[i]);
                assert(byte_len(pairs[k].0) >= byte_len(pairs[pairs.len() - 1].0));
            }
        }
        assert forall|i: int| 0 <= i < pairs.len() + 1 implies (#[trigger] outer[i] == p
            || pairs.contains(outer[i])) by {
            if i < pairs.len() && outer[i] != p {
                let k = choose|k: int| 0 <= k < rest.len() && rest[k] == inner[i];
                assert(pairs[k] == outer[i]);
            }
        }
    }
}

/// Longer base names are replaced first, so that no name is taken for a part
/// of a longer one.
pub proof fn longest_first_is_sorted(pairs: Seq<NamePair>)
    ensures
        longest_first(pairs).len() == pairs.len(),
        forall|i: int, j: int|
            0 <= i <= j < pairs.len() ==> byte_len((#[trigger] longest_first(pairs)[i]).0)
                >= byte_len((#[trigger] longest_first(pairs)[j]).0),
    decreases pairs.len(),
{
    if pairs.len() > 0 {
        longest_first_is_sorted(pairs.drop_last());
        lemma_insert_pair(longest_first(pairs.drop_last()), pairs.last());
    }
}

/// The pairs of a list of string pairs.
pub open spec fn pair_texts(pairs: Seq<(String, String)>) -> Seq<NamePair> {
    Seq::new(pairs.len(), |i: int| (pairs[i].0@, pairs[i].1@))
}

/// The part of a name after its last double underscore, where it has one.
fn find_base_name(col: &str) -> (r: Option<String>)
    ensures
        match r {
            Some(base) => text::occurs(col@, "__"@) && base@ == base_name(col@),
            None => !text::occurs(col@, "__"@),
        },
{
    let c = chars_of(col);
    let len: usize = c.len();
    let pat = chars_of("__");
    proof {
        reveal_strlit("__");
    }
    match rfind_chars(&c, &pat) {
        Some(pos) => {
            proof {
                reveal(base_name);
                assert(text::occurs_at(c@, pat@, pos as int));
                assert(pos + 2 <= c@.len());
                let last = last_position(col@, "__"@);
                assert(text::occurs_at(col@, "__"@, pos as int));
                assert(text::occurs_at(col@, "__"@, last) && forall|j: int|
                    last < j ==> !text::occurs_at(col@, "__"@, j));
                assert(last == pos);
                assert(col@.skip(pos + 2) =~= c@.subrange(pos + 2, c@.len() as int));
            }
            Some(text_of(&c, pos + 2, len))
        },
        None => None,
    }
}

/// The names with a prefix whose part after it is no column itself.
fn find_name_pairs(cols: &[String]) -> (r: Vec<(String, String)>)
    ensures
        pair_texts(r@) == name_pairs(text::texts(cols@), text::texts(cols@)),
{
    let ghost all = text::texts(cols@);
    let mut r: Vec<(String, String)> = Vec::new();
    let mut i: usize = 0;
    assert(pair_texts(r@) =~= Seq::empty());
    while i < cols.len()
        invariant
            i <= cols.len(),
            all == text::texts(cols@),
            pair_texts(r@) == name_pairs(all.take(i as int), all),
        decreases cols.len() - i,
    {
        let ghost before = r@;
        proof {
            assert(all.take(i + 1).drop_last() =~= all.take(i as int));
            assert(all.take(i + 1).last() == cols@[i as int]@);
        }
        match find_base_name(cols[i].as_str()) {
            Some(base) => {
                if !list_contains(cols, base.as_str()) {
                    let ghost pair = (base@, cols@[i as int]@);
                    r.push((base, cols[i].clone()));
                    assert(pair_texts(r@) =~= pair_texts(before).push(pair));
                    assert(name_pairs(all.take(i + 1), all) == name_pairs(
                        all.take(i as int),
                        all,
                    ).push(pair));
                } else {
                    assert(name_pairs(all.take(i + 1), all) == name_pairs(
                        all.take(i as int),
                        all,
                    ));
                }
            },
            None => {},
        }
        i += 1;
    }
    assert(all.take(all.len() as int) =~= all);
    r
}

/// Puts a pair behind those whose base name is at least as long.
fn insert_longest_first(pairs: &mut Vec<(String, String)>, p: (String, String))
    ensures
        pair_texts(final(pairs)@) == insert_pair(pair_texts(old(pairs)@), (p.0@, p.1@)),
{
    let ghost start = pair_texts(pairs@);
    let ghost pair = (p.0@, p.1@);
    let len: usize = p.0.as_str().len();
    let mut i: usize = pairs.len();
    assert(start.take(i as int) =~= start);
    assert(insert_pair(start, pair) =~= insert_pair(start.take(i as int), pair) + start.skip(
        i as int,
    ));
    while i > 0 && pairs[i - 1].0.as_str().len() < len
        invariant
            i <= pairs.len(),
            start == pair_texts(pairs@),
            pair == (p.0@, p.1@),
            len == byte_len(pair.0),
            insert_pair(start, pair) == insert_pair(start.take(i as int), pair) + start.skip(
                i as int,
            ),
        decreases i,
    {
        proof {
            let head = start.take(i as int);
            assert(head.last() == start[i - 1]);
            assert(head.drop_last() =~= start.take(i - 1));
            assert(insert_pair(head.drop_last(), pair).push(head.last()) + start.skip(i as int)
                =~= insert_pair(start.take(i - 1), pair) + start.skip(i - 1));
        }
        i -= 1;
    }
    proof {
        let head = start.take(i as int);
        if i > 0 {
            assert(head.last() == start[i - 1]);
        }
        assert(insert_pair(head, pair) == head.push(pair));
    }
    pairs.insert(i, p);
    assert(pair_texts(pairs@) =~= start.take(i as int).push(pair) + start.skip(i as int));
}

/// Sorts pairs by the length of their base names, longest first.
fn sort_longest_first(pairs: Vec<(String, String)>) -> (r: Vec<(String, String)>)
    ensures
        pair_texts(r@) == longest_first(pair_texts(pairs@)),
{
    let ghost all = pair_texts(pairs@);
    let mut r: Vec<(String, String)> = Vec::new();
    let mut i: usize = 0;
    assert(pair_texts(r@) =~= Seq::empty());
    while i < pairs.len()
        invariant
            i <= pairs.len(),
            all == pair_texts(pairs@),
            pair_texts(r@) == longest_first(all.take(i as int)),
        decreases pairs.len() - i,
    {
        proof {
            assert(all.take(i + 1).drop_last() =~= all.take(i as int));
            assert(all.take(i + 1).last() == all[i as int]);
        }
        insert_longest_first(&mut r, (pairs[i].0.clone(), pairs[i].1.clone()));
        i += 1;
    }
    assert(all.take(all.len() as int) =~= all);
    r
}

/// How many pairs have a base name.
fn count_pairs(pairs: &Vec<(String, String)>, base: &str) -> (r: usize)
    ensures
        r == count_base(pair_texts(pairs@), base@),
{
    let ghost all = pair_texts(pairs@);
    let mut r: usize = 0;
    let mut i: usize = 0;
    while i < pairs.len()
        invariant
            i <= pairs.len(),
            r <= i,
            all == pair_texts(pairs@),
            r == count_base(all.take(i as int), base@),
        decreases pairs.len() - i,
    {
        proof {
            assert(all.take(i + 1).drop_last() =~= all.take(i as int));
            assert(all.take(i + 1).last() == all[i as int]);
        }
        if text_eq(pairs[i].0.as_str(), base) {
            r += 1;
        }
        i += 1;
    }
    assert(all.take(all.len() as int) =~= all);
    r
}

/// Replaces column names in SQL text by the names that a join gave them.
///
/// A name is replaced where it stands by itself outside string literals, and
/// only where it belongs to one column.  Longer names go first.
pub fn replace_column_refs_in_raw(sql: &str, child_cols: &[String]) -> (r: String)
    ensures
        r@ == raw_resolved(sql@, text::texts(child_cols@)),
{
    let pairs = sort_longest_first(find_name_pairs(child_cols));
    let ghost all = pair_texts(pairs@);
    let mut r = sql.to_string();
    let mut i: usize = 0;
    while i < pairs.len()
        invariant
            i <= pairs.len(),
            all == pair_texts(pairs@),
            r@ == pairs_applied(sql@, all, i as nat),
        decreases pairs.len() - i,
    {
        assert(all[i as int] == (pairs@[i as int].0@, pairs@[i as int].1@));
        if count_pairs(&pairs, pairs[i].0.as_str()) == 1 {
            r = replace_word_boundary(
                r.as_str(),
                pairs[i].0.as_str(),
                quote_ident(pairs[i].1.as_str()).as_str(),
            );
        }
        i += 1;
    }
    r
}

// ── Predicates ─────────────────────────────────────────────────────────

/// The first column that ends with a suffix.
pub open spec fn first_ending(cols: Seq<Seq<char>>, suffix: Seq<char>) -> Option<Seq<char>>
    decreases cols.len(),
{
    if cols.len() == 0 {
        None
    } else {
        match first_ending(cols.drop_last(), suffix) {
            Some(c) => Some(c),
            None => if text::ends(cols.last(), suffix) {
                Some(cols.last())
            } else {
                None
            },
        }
    }
}

/// The columns that end with a suffix.
pub open spec fn all_ending(cols: Seq<Seq<char>>, suffix: Seq<char>) -> Seq<Seq<char>>
    decreases cols.len(),
{
    if cols.len() == 0 {
        Seq::empty()
    } else if text::ends(cols.last(), suffix) {
        all_ending(cols.drop_last(), suffix).push(cols.last())
    } else {
        all_ending(cols.drop_last(), suffix)
    }
}

/// A column with a table alias, under the name that the input gives it.
pub open spec fn resolved_qualified(
    table: Seq<char>,
    column: Seq<char>,
    cols: Seq<Seq<char>>,
) -> Seq<char> {
    let joined = diff::side_name(table, column);
    if cols.contains(joined) {
        sql_builder::ident_text(joined)
    } else {
        match first_ending(cols, "__"@ + table + "__"@ + column) {
            Some(c) => sql_builder::ident_text(c),
            None => if cols.contains(column) {
                sql_builder::ident_text(column)
            } else {
                table + "."@ + column
            },
        }
    }
}

/// A column without a table alias, under the name that the input gives it.
pub open spec fn resolved_bare(column: Seq<char>, cols: Seq<Seq<char>>) -> Seq<char> {
    let endings = all_ending(cols, "__"@ + column);
    if !cols.contains(column) && endings.len() == 1 {
        sql_builder::ident_text(endings[0])
    } else {
        sql_builder::ident_text(column)
    }
}

/// The text of a predicate over columns as the input names them.
pub open spec fn resolved(e: ExprView, cols: Seq<Seq<char>>) -> Seq<char>
    decreases e,
{
    match e {
        ExprView::ColumnRef { table_alias: Some(t), column_name } => resolved_qualified(
            t,
            column_name,
            cols,
        ),
        ExprView::ColumnRef { table_alias: None, column_name } => resolved_bare(column_name, cols),
        ExprView::BinaryOp { op, left, right } => {
            "("@ + resolved(*left, cols) + " "@ + op + " "@ + resolved(*right, cols) + ")"@
        },
        ExprView::FuncCall { func_name, args } => {
            func_name + "("@ + text::join(resolved_all(args, cols), ", "@) + ")"@
        },
        ExprView::Star { .. } => e.sql(),
        ExprView::Literal(_) => e.sql(),
        ExprView::Raw(sql) => raw_resolved(sql, cols),
    }
}

/// The texts of expressions over columns as the input names them.
pub open spec fn resolved_all(es: Seq<ExprView>, cols: Seq<Seq<char>>) -> Seq<Seq<char>>
    decreases es,
{
    if es.len() == 0 {
        Seq::empty()
    } else {
        resolved_all(es.drop_last(), cols).push(resolved(es.last(), cols))
    }
}

/// The first column that ends with a suffix.
fn find_ending(cols: &Vec<String>, suffix: &str) -> (r: Option<usize>)
    ensures
        match r {
            Some(i) => i < cols@.len() && first_ending(text::texts(cols@), suffix@) == Some(
                cols@[i as int]@,
            ),
            None => first_ending(text::texts(cols@), suffix@) is None,
        },
{
    let ghost all = text::texts(cols@);
    let mut found: Option<usize> = None;
    let mut i: usize = 0;
    while i < cols.len()
        invariant
            i <= cols.len(),
            all == text::texts(cols@),
            match found {
                Some(k) => k < i && first_ending(all.take(i as int), suffix@) == Some(
                    cols@[k as int]@,
                ),
                None => first_ending(all.take(i as int), suffix@) is None,
            },
        decreases cols.len() - i,
    {
        proof {
            assert(all.take(i + 1).drop_last() =~= all.take(i as int));
            assert(all.take(i + 1).last() == cols@[i as int]@);
        }
        if found.is_none() && ends_with(cols[i].as_str(), suffix) {
            found = Some(i);
        }
        i += 1;
    }
    assert(all.take(all.len() as int) =~= all);
    found
}

/// The columns that end with a suffix.
fn find_endings(cols: &Vec<String>, suffix: &str) -> (r: Vec<String>)
    ensures
        text::texts(r@) == all_ending(text::texts(cols@), suffix@),
{
    let ghost all = text::texts(cols@);
    let mut r: Vec<String> = Vec::new();
    let mut i: usize = 0;
    assert(text::texts(r@) =~= Seq::empty());
    while i < cols.len()
        invariant
            i <= cols.len(),
            all == text::texts(cols@),
            text::texts(r@) == all_ending(all.take(i as int), suffix@),
        decreases cols.len() - i,
    {
        let ghost before = r@;
        proof {
            assert(all.take(i + 1).drop_last() =~= all.take(i as int));
            assert(all.take(i + 1).last() == cols@[i as int]@);
        }
        if ends_with(cols[i].as_str(), suffix) {
            r.push(cols[i].clone());
            assert(text::texts(r@) =~= text::texts(before).push(cols@[i as int]@));
        }
        i += 1;
    }
    assert(all.take(all.len() as int) =~= all);
    r
}

/// A column with a table alias, under the name that the input gives it.
fn resolve_qualified(table: &str, column: &str, cols: &Vec<String>) -> (r: String)
    ensures
        r@ == resolved_qualified(table@, column@, text::texts(cols@)),
{
    let mut joined = table.to_string();
    joined.append("__");
    joined.append(column);
    if list_contains(cols, joined.as_str()) {
        return quote_ident(joined.as_str());
    }
    let mut suffix = "__".to_string();
    suffix.append(table);
    suffix.append("__");
    suffix.append(column);
    match find_ending(cols, suffix.as_str()) {
        Some(i) => quote_ident(cols[i].as_str()),
        None => {
            if list_contains(cols, column) {
                quote_ident(column)
            } else {
                let mut r = table.to_string();
                r.append(".");
                r.append(column);
                r
            }
        },
    }
}

/// A column without a table alias, under the name that the input gives it.
fn resolve_bare(column: &str, cols: &Vec<String>) -> (r: String)
    ensures
        r@ == resolved_bare(column@, text::texts(cols@)),
{
    if list_contains(cols, column) {
        return quote_ident(column);
    }
    let mut suffix = "__".to_string();
    suffix.append(column);
    let endings = find_endings(cols, suffix.as_str());
    assert(text::texts(endings@).len() == endings@.len());
    if endings.len() == 1 {
        return quote_ident(endings[0].as_str());
    }
    quote_ident(column)
}

/// The text of a predicate over columns as the input names them.
///
/// Tries, for a column with a table alias, the name that a join of that table
/// gives it, then that of a join further down, then the bare name; for one
/// without, the bare name, then the only column that ends with it.
pub fn resolve_predicate_for_child(predicate: &Expr, child_cols: &Vec<String>) -> (r: String)
    ensures
        r@ == resolved(predicate@, text::texts(child_cols@)),
    decreases predicate,
{
    match predicate {
        Expr::ColumnRef { table_alias: Some(t), column_name } => resolve_qualified(
            t.as_str(),
            column_name.as_str(),
            child_cols,
        ),
        Expr::ColumnRef { table_alias: None, column_name } => resolve_bare(
            column_name.as_str(),
            child_cols,
        ),
        Expr::BinaryOp { op, left, right } => {
            let mut r = "(".to_string();
            r.append(resolve_predicate_for_child(left, child_cols).as_str());
            r.append(" ");
            r.append(op.as_str());
            r.append(" ");
            r.append(resolve_predicate_for_child(right, child_cols).as_str());
            r.append(")");
            r
        },
        Expr::FuncCall { func_name, args } => {
            let ghost cols = text::texts(child_cols@);
            let mut parts: Vec<String> = Vec::new();
            let mut i: usize = 0;
            assert(text::texts(parts@) =~= Seq::empty());
            while i < args.len()
                invariant
                    i <= args.len(),
                    cols == text::texts(child_cols@),
                    text::texts(parts@) == resolved_all(
                        parser::expr_views(args@.take(i as int)),
                        cols,
                    ),
                    decreases_to!(predicate => args@),
                decreases args.len() - i,
            {
                assert(decreases_to!(args@ => args@[i as int]));
                let ghost before = parts@;
                parts.push(resolve_predicate_for_child(&args[i], child_cols));
                proof {
                    parser::lemma_views_take(args@, i as int);
                    let now = parser::expr_views(args@.take(i + 1));
                    assert(now.drop_last() =~= parser::expr_views(args@.take(i as int)));
                    assert(text::texts(parts@) =~= text::texts(before).push(parts@.last()@));
                }
                i += 1;
            }
            assert(args@.take(args@.len() as int) =~= args@);
            let mut r = func_name.clone();
            r.append("(");
            r.append(join_texts(&parts, ", ").as_str());
            r.append(")");
            r
        },
        Expr::Star { .. } => predicate.to_sql(),
        Expr::Literal(_) => predicate.to_sql(),
        Expr::Raw(sql) => replace_column_refs_in_raw(sql.as_str(), child_cols),
    }
}

// ── Differentiation ────────────────────────────────────────────────────

/// The delta of a filter.
pub open spec fn filter_sql(cols: Seq<char>, child: Seq<char>, predicate: Seq<char>) -> Seq<char> {
    "SELECT __pgt_row_id, __pgt_action, "@ + cols + "\n\
        FROM "@ + child + "\n\
        WHERE "@ + predicate
}

/// The delta of a filter.
fn filter_query(cols: &str, child: &str, predicate: &str) -> (r: String)
    ensures
        r@ == filter_sql(cols@, child@, predicate@),
{
    let mut r = "SELECT __pgt_row_id, __pgt_action, ".to_string();
    r.append(cols);
    r.append("\n\
        FROM ");
    r.append(child);
    r.append("\n\
        WHERE ");
    r.append(predicate);
    r
}

/// The outcome of a filter over the delta of its input.
pub open spec fn filter_outcome(st: DiffState, predicate: ExprView, c: Delta) -> Outcome {
    (
        st.step(
            "filter"@,
            filter_sql(diff::cols_text(c.columns), c.cte_name, resolved(predicate, c.columns)),
        ),
        Ok(
            Delta {
                cte_name: st.fresh("filter"@),
                columns: c.columns,
                is_deduplicated: c.is_deduplicated,
            },
        ),
    )
}

/// The outcome of differentiating an operator as a filter.
pub open spec fn filter_diff(env: DiffEnv, st: DiffState, op: OpTree) -> Outcome
    decreases env.cte_registry.depth(op), op, 0nat,
{
    match op {
        OpTree::Filter { predicate, child } => match engine::tree_diff(env, st, *child) {
            (st1, Ok(c)) => filter_outcome(st1, predicate@, c),
            (st1, Err(e)) => (st1, Err(e)),
        },
        _ => (st, Err(ErrorView::InternalError("diff_filter called on non-Filter node"@))),
    }
}

/// Differentiates a filter.
///
/// Both halves of an update are passed on, so that operators above can net
/// them out.
pub fn diff_filter(ctx: &mut DiffContext, op: &OpTree) -> (r: Result<DiffResult, PgTrickleError>)
    requires
        old(ctx).env().cte_registry.acyclic(),
    ensures
        final(ctx).env() == old(ctx).env(),
        diff::yields(
            *final(ctx),
            r,
            filter_diff(old(ctx).env(), old(ctx).state(), *op),
        ),
    decreases old(ctx).env().cte_registry.depth(*op), op, 0nat,
{
    match op {
        OpTree::Filter { predicate, child } => {
            let c = match ctx.diff_node(child) {
                Ok(d) => d,
                Err(e) => {
                    return Err(e);
                },
            };
            let cte_name = ctx.next_cte_name("filter");
            let sql = filter_query(
                col_list(c.columns.as_slice()).as_str(),
                c.cte_name.as_str(),
                resolve_predicate_for_child(predicate, &c.columns).as_str(),
            );
            ctx.add_cte(cte_name.clone(), sql);
            Ok(
                DiffResult {
                    cte_name,
                    columns: c.columns,
                    is_deduplicated: c.is_deduplicated,
                },
            )
        },
        _ => Err(
            PgTrickleError::InternalError("diff_filter called on non-Filter node".to_string()),
        ),
    }
}

// ── What the queries say ───────────────────────────────────────────────

/// The changes of the input pass with their identifiers and actions if their
/// rows satisfy the predicate.
pub proof fn changes_of_rows_that_satisfy_a_filter_pass(
    cols: Seq<char>,
    child: Seq<char>,
    predicate: Seq<char>,
)
    ensures
        ({
            let t = filter_sql(cols, child, predicate);
            &&& text::occurs(
                t,
                "SELECT __pgt_row_id, __pgt_action, "@ + cols + "\nFROM "@ + child + "\nWHERE "@
                    + predicate,
            )
        }),
{
    reveal_strlit("\nFROM ");
    reveal_strlit("\nWHERE ");
    reveal_strlit("SELECT __pgt_row_id, __pgt_action, ");
    let t = filter_sql(cols, child, predicate);
    let f0 = "SELECT __pgt_row_id, __pgt_action, "@ + cols + "\nFROM "@ + child + "\nWHERE "@
        + predicate;
    let k0 = 0int;
    assert(t.subrange(k0, k0 + f0.len()) =~= f0);
    assert(text::occurs_at(t, f0, k0));
}

} // verus!
