//! What holds of every expression: rewriting goes to all of its columns, its
//! text has the texts of its parts, and the keys of a condition are implied by
//! it.

use vstd::prelude::*;

use crate::dvm::operators::filter;
use crate::dvm::operators::join;
use crate::dvm::operators::join_common;
use crate::dvm::operators::join_common::Sides;
use crate::dvm::parser::{expr_views, sql_all, ExprView, SortExpr, WindowExpr};
use crate::sql_builder;
use crate::text;

verus! {

// ── Rewriting ──────────────────────────────────────────────────────────

/// An expression with each of its leaves replaced: operators and function
/// calls stay, whatever stands in their operands and arguments is replaced.
pub open spec fn mapped(e: ExprView, f: spec_fn(ExprView) -> ExprView) -> ExprView
    decreases e,
{
    match e {
        ExprView::BinaryOp { op, left, right } => ExprView::BinaryOp {
            op,
            left: Box::new(mapped(*left, f)),
            right: Box::new(mapped(*right, f)),
        },
        ExprView::FuncCall { func_name, args } => ExprView::FuncCall {
            func_name,
            args: mapped_all(args, f),
        },
        leaf => f(leaf),
    }
}

/// Expressions with each of their leaves replaced.
pub open spec fn mapped_all(es: Seq<ExprView>, f: spec_fn(ExprView) -> ExprView) -> Seq<ExprView>
    decreases es,
{
    if es.len() == 0 {
        Seq::empty()
    } else {
        mapped_all(es.drop_last(), f).push(mapped(es.last(), f))
    }
}

/// Expressions keep their number when their leaves are replaced, and each is
/// replaced by itself.
proof fn lemma_mapped_all(es: Seq<ExprView>, f: spec_fn(ExprView) -> ExprView)
    ensures
        mapped_all(es, f).len() == es.len(),
        forall|i: int| 0 <= i < es.len() ==> #[trigger] mapped_all(es, f)[i] == mapped(es[i], f),
    decreases es.len(),
{
    if es.len() > 0 {
        lemma_mapped_all(es.drop_last(), f);
    }
}

/// A leaf without its table alias.
pub open spec fn bare_leaf(e: ExprView) -> ExprView {
    match e {
        ExprView::ColumnRef { column_name, .. } => ExprView::ColumnRef {
            table_alias: None,
            column_name,
        },
        other => other,
    }
}

/// Taking off table aliases goes to every column of an expression, in operands
/// and in arguments at any depth, and to nothing else.
pub proof fn stripping_reaches_every_column(e: ExprView)
    ensures
        e.stripped() == mapped(e, |x: ExprView| bare_leaf(x)),
    decreases e,
{
    match e {
        ExprView::BinaryOp { left, right, .. } => {
            stripping_reaches_every_column(*left);
            stripping_reaches_every_column(*right);
        },
        ExprView::FuncCall { args, .. } => {
            stripping_reaches_all(args);
        },
        _ => {},
    }
}

/// Taking off table aliases goes to every column of every expression.
proof fn stripping_reaches_all(es: Seq<ExprView>)
    ensures
        crate::dvm::parser::stripped_all(es) == mapped_all(es, |x: ExprView| bare_leaf(x)),
    decreases es,
{
    if es.len() > 0 {
        stripping_reaches_all(es.drop_last());
        stripping_reaches_every_column(es.last());
    }
}

/// Rewriting for a join goes to every column of a condition, in operands and
/// in arguments at any depth, and leaves the rest as it is.
pub proof fn rewriting_reaches_every_column(e: ExprView, s: Sides)
    ensures
        join_common::rewritten(e, s) == mapped(e, |x: ExprView| join_common::rewritten(x, s)),
        !(e is ColumnRef) && !(e is BinaryOp) && !(e is FuncCall) ==> join_common::rewritten(e, s)
            == e,
    decreases e,
{
    match e {
        ExprView::BinaryOp { left, right, .. } => {
            rewriting_reaches_every_column(*left, s);
            rewriting_reaches_every_column(*right, s);
        },
        ExprView::FuncCall { args, .. } => {
            rewriting_reaches_all(args, s);
        },
        _ => {},
    }
}

/// Rewriting for a join goes to every column of every expression.
proof fn rewriting_reaches_all(es: Seq<ExprView>, s: Sides)
    ensures
        join_common::rewritten_all(es, s) == mapped_all(
            es,
            |x: ExprView| join_common::rewritten(x, s),
        ),
    decreases es,
{
    if es.len() > 0 {
        rewriting_reaches_all(es.drop_last(), s);
        rewriting_reaches_every_column(es.last(), s);
    }
}

/// Whether a text names a column in double quotes, and nothing else.
pub open spec fn names_column(t: Seq<char>, column: Seq<char>) -> bool {
    sql_builder::read_quoted(t, '"') == Some((column, Seq::<char>::empty()))
}

/// A column of a table of either input is named through that input, the left
/// before the right: under its own name where the table stands by itself, and
/// with the name of its table before it where a join gave it that.  A column
/// of no table of the join stays as it is.
pub proof fn columns_are_named_through_their_side(
    table: Seq<char>,
    column: Seq<char>,
    s: Sides,
)
    ensures
        ({
            let e = ExprView::ColumnRef { table_alias: Some(table), column_name: column };
            let r = join_common::rewritten(e, s);
            let on_left = join_common::has_source(s.left, table);
            let on_right = join_common::has_source(s.right, table);
            let side = if on_left {
                s.left
            } else {
                s.right
            };
            &&& on_left ==> r is ColumnRef && r->ColumnRef_table_alias == Some(s.new_left)
            &&& !on_left && on_right ==> r is ColumnRef && r->ColumnRef_table_alias == Some(
                s.new_right,
            )
            &&& on_left || on_right ==> {
                let name = r->ColumnRef_column_name;
                if join_common::simple_child(side) {
                    names_column(name, column)
                } else {
                    names_column(name, table + "__"@ + column)
                }
            }
            &&& !on_left && !on_right ==> r == e
        }),
{
    let side = if join_common::has_source(s.left, table) {
        s.left
    } else {
        s.right
    };
    crate::dvm::tree_laws::simple_trees_have_one_scan(side, table);
    sql_builder::ident_reads_back(column);
    sql_builder::ident_reads_back(table + "__"@ + column);
}

// ── Predicates over an input ───────────────────────────────────────────

/// The text of a predicate over an input is the text of the predicate with
/// each of its leaves replaced, wherever it stands: in operands and in
/// arguments of function calls at any depth.
pub proof fn resolving_reaches_every_column(e: ExprView, cols: Seq<Seq<char>>)
    ensures
        filter::resolved(e, cols) == mapped(
            e,
            |x: ExprView| ExprView::Literal(filter::resolved(x, cols)),
        ).sql(),
    decreases e,
{
    match e {
        ExprView::BinaryOp { left, right, .. } => {
            resolving_reaches_every_column(*left, cols);
            resolving_reaches_every_column(*right, cols);
        },
        ExprView::FuncCall { args, .. } => {
            resolving_reaches_all(args, cols);
        },
        _ => {},
    }
}

/// The texts of predicates are their texts with each leaf replaced.
proof fn resolving_reaches_all(es: Seq<ExprView>, cols: Seq<Seq<char>>)
    ensures
        filter::resolved_all(es, cols) == sql_all(
            mapped_all(es, |x: ExprView| ExprView::Literal(filter::resolved(x, cols))),
        ),
    decreases es,
{
    let f = |x: ExprView| ExprView::Literal(filter::resolved(x, cols));
    if es.len() > 0 {
        resolving_reaches_all(es.drop_last(), cols);
        resolving_reaches_every_column(es.last(), cols);
        let all = mapped_all(es, f);
        assert(all.drop_last() =~= mapped_all(es.drop_last(), f));
        assert(all.last() == mapped(es.last(), f));
    }
}

/// A function call over an input is the call of the function with its
/// arguments over that input.
pub proof fn calls_are_resolved_by_argument(
    func: Seq<char>,
    args: Seq<ExprView>,
    cols: Seq<Seq<char>>,
)
    ensures
        filter::resolved(ExprView::FuncCall { func_name: func, args }, cols) == func + "("@
            + text::join(Seq::new(args.len(), |i: int| filter::resolved(args[i], cols)), ", "@)
            + ")"@,
{
    lemma_resolved_all(args, cols);
    assert(filter::resolved_all(args, cols) =~= Seq::new(
        args.len(),
        |i: int| filter::resolved(args[i], cols),
    ));
}

/// Each of several predicates is resolved by itself.
proof fn lemma_resolved_all(es: Seq<ExprView>, cols: Seq<Seq<char>>)
    ensures
        filter::resolved_all(es, cols).len() == es.len(),
        forall|i: int|
            0 <= i < es.len() ==> #[trigger] filter::resolved_all(es, cols)[i]
                == filter::resolved(es[i], cols),
    decreases es.len(),
{
    if es.len() > 0 {
        lemma_resolved_all(es.drop_last(), cols);
    }
}

/// Whether a column is the first that ends with a suffix.
pub open spec fn first_with_suffix(cols: Seq<Seq<char>>, suffix: Seq<char>, i: int) -> bool {
    &&& 0 <= i < cols.len()
    &&& text::ends(cols[i], suffix)
    &&& forall|j: int| 0 <= j < i ==> !text::ends(#[trigger] cols[j], suffix)
}

/// The first column with a suffix is found.
proof fn lemma_first_ending(cols: Seq<Seq<char>>, suffix: Seq<char>)
    ensures
        match filter::first_ending(cols, suffix) {
            Some(c) => exists|i: int| #[trigger] first_with_suffix(cols, suffix, i) && cols[i] == c,
            None => forall|i: int| 0 <= i < cols.len() ==> !text::ends(#[trigger] cols[i], suffix),
        },
    decreases cols.len(),
{
    if cols.len() > 0 {
        let rest = cols.drop_last();
        lemma_first_ending(rest, suffix);
        match filter::first_ending(rest, suffix) {
            Some(c) => {
                let i = choose|i: int| #[trigger]
                    first_with_suffix(rest, suffix, i) && rest[i] == c;
                assert forall|j: int| 0 <= j < i implies !text::ends(#[trigger] cols[j], suffix) by {
                    assert(rest[j] == cols[j]);
                }
                assert(first_with_suffix(cols, suffix, i));
            },
            None => {
                assert forall|j: int| 0 <= j < rest.len() implies !text::ends(
                    #[trigger] cols[j],
                    suffix,
                ) by {
                    assert(rest[j] == cols[j]);
                }
                if text::ends(cols.last(), suffix) {
                    assert(first_with_suffix(cols, suffix, cols.len() - 1));
                }
            },
        }
    }
}

/// A column with a table alias is resolved to a column of the input where the
/// input has one for it: the one that a join of that table gave the name
/// `table__column`, else the first that a join further up named after that,
/// else the column itself.  Only where the input has none of these does the
/// alias stay.
pub proof fn qualified_columns_are_those_of_the_input(
    table: Seq<char>,
    column: Seq<char>,
    cols: Seq<Seq<char>>,
)
    ensures
        ({
            let e = ExprView::ColumnRef { table_alias: Some(table), column_name: column };
            let r = filter::resolved(e, cols);
            let joined = table + "__"@ + column;
            let further = "__"@ + table + "__"@ + column;
            let below = exists|i: int| first_with_suffix(cols, further, i);
            &&& cols.contains(joined) ==> names_column(r, joined)
            &&& !cols.contains(joined) ==> forall|i: int| #[trigger]
                first_with_suffix(cols, further, i) ==> names_column(r, cols[i])
            &&& !cols.contains(joined) && !below && cols.contains(column) ==> names_column(
                r,
                column,
            )
            &&& !cols.contains(joined) && !below && !cols.contains(column) ==> r == e.sql()
        }),
{
    let joined = table + "__"@ + column;
    let further = "__"@ + table + "__"@ + column;
    sql_builder::ident_reads_back(joined);
    sql_builder::ident_reads_back(column);
    lemma_first_ending(cols, further);
    match filter::first_ending(cols, further) {
        Some(c) => {
            let k = choose|i: int| #[trigger] first_with_suffix(cols, further, i) && cols[i] == c;
            sql_builder::ident_reads_back(c);
            assert forall|i: int| #[trigger] first_with_suffix(cols, further, i) implies cols[i]
                == c by {
                if i < k {
                    assert(!text::ends(cols[i], further));
                } else if k < i {
                    assert(!text::ends(cols[k], further));
                }
            }
        },
        None => {},
    }
}

/// A column without a table alias is resolved to itself where the input has
/// it, and else to the only column of the input that a join named after it.
/// Where several are, the name stays as it is.
pub proof fn bare_columns_are_those_of_the_input(column: Seq<char>, cols: Seq<Seq<char>>)
    ensures
        ({
            let e = ExprView::ColumnRef { table_alias: None, column_name: column };
            let r = filter::resolved(e, cols);
            let suffix = "__"@ + column;
            &&& cols.contains(column) ==> names_column(r, column)
            &&& forall|i: int|
                !cols.contains(column) && #[trigger] only_with_suffix(cols, suffix, i)
                    ==> names_column(r, cols[i])
            &&& !(exists|i: int| only_with_suffix(cols, suffix, i)) ==> names_column(r, column)
        }),
{
    let suffix = "__"@ + column;
    let endings = filter::all_ending(cols, suffix);
    sql_builder::ident_reads_back(column);
    lemma_all_ending(cols, suffix);
    if endings.len() == 1 {
        sql_builder::ident_reads_back(endings[0]);
        let k = choose|k: int| #[trigger] only_with_suffix(cols, suffix, k) && cols[k] == endings[0];
        assert forall|i: int| #[trigger] only_with_suffix(cols, suffix, i) implies cols[i]
            == endings[0] by {
            assert(text::ends(cols[k], suffix));
        }
    }
}

/// Whether a column is the only one that ends with a suffix.
pub open spec fn only_with_suffix(cols: Seq<Seq<char>>, suffix: Seq<char>, i: int) -> bool {
    &&& 0 <= i < cols.len()
    &&& text::ends(cols[i], suffix)
    &&& forall|j: int| 0 <= j < cols.len() && j != i ==> !text::ends(#[trigger] cols[j], suffix)
}

/// There is one column with a suffix if and only if it is the only one.
proof fn lemma_all_ending(cols: Seq<Seq<char>>, suffix: Seq<char>)
    ensures
        filter::all_ending(cols, suffix).len() == 0 <==> forall|i: int|
            0 <= i < cols.len() ==> !text::ends(#[trigger] cols[i], suffix),
        filter::all_ending(cols, suffix).len() == 1 <==> exists|i: int| #[trigger]
            only_with_suffix(cols, suffix, i),
        filter::all_ending(cols, suffix).len() == 1 ==> exists|i: int| #[trigger]
            only_with_suffix(cols, suffix, i) && cols[i] == filter::all_ending(cols, suffix)[0],
    decreases cols.len(),
{
    if cols.len() > 0 {
        let rest = cols.drop_last();
        let n = rest.len() as int;
        lemma_all_ending(rest, suffix);
        let before = filter::all_ending(rest, suffix);
        let now = filter::all_ending(cols, suffix);
        assert forall|j: int| 0 <= j < n implies rest[j] == #[trigger] cols[j] by {}
        if text::ends(cols.last(), suffix) {
            assert(text::ends(cols[n], suffix));
            if before.len() == 0 {
                assert forall|j: int| 0 <= j < n implies !text::ends(#[trigger] cols[j], suffix) by {
                    assert(!text::ends(rest[j], suffix));
                }
                assert(only_with_suffix(cols, suffix, n));
                assert(now[0] == cols[n]);
            } else {
                let j = choose|j: int| 0 <= j < n && text::ends(#[trigger] rest[j], suffix);
                assert(text::ends(cols[j], suffix));
                assert forall|i: int| !#[trigger] only_with_suffix(cols, suffix, i) by {
                    if only_with_suffix(cols, suffix, i) {
                        assert(i == n || i == j);
                        assert(text::ends(cols[j], suffix) && text::ends(cols[n], suffix));
                    }
                }
            }
        } else {
            assert(now == before);
            assert forall|i: int| #[trigger] only_with_suffix(rest, suffix, i) implies
                only_with_suffix(cols, suffix, i) by {
                assert forall|j: int| 0 <= j < cols.len() && j != i implies !text::ends(
                    #[trigger] cols[j],
                    suffix,
                ) by {
                    if j < n {
                        assert(!text::ends(rest[j], suffix));
                    }
                }
            }
            assert forall|i: int| #[trigger] only_with_suffix(cols, suffix, i) implies
                only_with_suffix(rest, suffix, i) by {
                assert forall|j: int| 0 <= j < rest.len() && j != i implies !text::ends(
                    #[trigger] rest[j],
                    suffix,
                ) by {
                    assert(!text::ends(cols[j], suffix));
                }
            }
            if now.len() == 0 {
                assert forall|j: int| 0 <= j < cols.len() implies !text::ends(
                    #[trigger] cols[j],
                    suffix,
                ) by {
                    if j < n {
                        assert(!text::ends(rest[j], suffix));
                    }
                }
            } else {
                let j = choose|j: int| 0 <= j < n && text::ends(#[trigger] rest[j], suffix);
                assert(text::ends(cols[j], suffix));
            }
            if now.len() == 1 {
                let i = choose|i: int| #[trigger]
                    only_with_suffix(rest, suffix, i) && rest[i] == before[0];
                assert(only_with_suffix(cols, suffix, i) && cols[i] == now[0]);
            }
        }
    }
}

// ── Keys of conditions ─────────────────────────────────────────────────

/// What the parts of a condition mean for a left and a right row: the values
/// of texts on either, and whether what is neither an equality nor made of
/// others holds.
pub struct RowPair {
    pub left: spec_fn(Seq<char>) -> int,
    pub right: spec_fn(Seq<char>) -> int,
    pub other: spec_fn(ExprView) -> bool,
}

/// Whether an operator is a conjunction, in capital or small letters.
pub open spec fn conjoins(op: Seq<char>) -> bool {
    &&& op.len() == 3
    &&& op[0] == 'A' || op[0] == 'a'
    &&& op[1] == 'N' || op[1] == 'n'
    &&& op[2] == 'D' || op[2] == 'd'
}

/// Whether an operator is a disjunction, in capital or small letters.
pub open spec fn disjoins(op: Seq<char>) -> bool {
    &&& op.len() == 2
    &&& op[0] == 'O' || op[0] == 'o'
    &&& op[1] == 'R' || op[1] == 'r'
}

/// Whether a condition holds of two rows, where `key` gives the text under
/// which a row knows an operand.
pub open spec fn holds(e: ExprView, rows: RowPair, key: spec_fn(ExprView) -> Seq<char>) -> bool
    decreases e,
{
    match e {
        ExprView::BinaryOp { op, left, right } => {
            if op == "="@ {
                (rows.left)(key(*left)) == (rows.right)(key(*right))
            } else if conjoins(op) {
                holds(*left, rows, key) && holds(*right, rows, key)
            } else if disjoins(op) {
                holds(*left, rows, key) || holds(*right, rows, key)
            } else {
                (rows.other)(e)
            }
        },
        _ => (rows.other)(e),
    }
}

/// Whether a condition is nothing but equalities and conjunctions of them.
pub open spec fn only_equalities(e: ExprView) -> bool
    decreases e,
{
    match e {
        ExprView::BinaryOp { op, left, right } => op == "="@ || (conjoins(op) && only_equalities(
            *left,
        ) && only_equalities(*right)),
        _ => false,
    }
}

/// Whether two rows agree on keys.
pub open spec fn agree_on(keys: join_common::KeyTexts, rows: RowPair) -> bool {
    forall|i: int|
        0 <= i < keys.len() ==> (rows.left)((#[trigger] keys[i]).0) == (rows.right)(keys[i].1)
}

/// Rows agree on the keys of two lists if and only if they agree on both.
proof fn lemma_agree_on_both(
    a: join_common::KeyTexts,
    b: join_common::KeyTexts,
    rows: RowPair,
)
    ensures
        agree_on(a + b, rows) <==> agree_on(a, rows) && agree_on(b, rows),
{
    let all = a + b;
    if agree_on(all, rows) {
        assert forall|i: int| 0 <= i < a.len() implies (rows.left)((#[trigger] a[i]).0) == (
        rows.right)(a[i].1) by {
            assert(all[i] == a[i]);
        }
        assert forall|i: int| 0 <= i < b.len() implies (rows.left)((#[trigger] b[i]).0) == (
        rows.right)(b[i].1) by {
            assert(all[a.len() + i] == b[i]);
        }
    }
    if agree_on(a, rows) && agree_on(b, rows) {
        assert forall|i: int| 0 <= i < all.len() implies (rows.left)((#[trigger] all[i]).0) == (
        rows.right)(all[i].1) by {
            if i < a.len() {
                assert(all[i] == a[i]);
            } else {
                assert(all[i] == b[i - a.len()]);
            }
        }
    }
}

/// A conjunction is told by its letters, whatever their case.
proof fn lemma_conjoins(op: Seq<char>)
    ensures
        join_common::is_and(op) <==> conjoins(op),
{
    reveal_strlit("AND");
    let low = text::lowered("AND"@);
    assert(low.len() == 3 && low[0] == 'a' && low[1] == 'n' && low[2] == 'd');
    let mine = text::lowered(op);
    if conjoins(op) {
        assert(mine[0] == 'a' && mine[1] == 'n' && mine[2] == 'd');
        assert(mine =~= low);
    }
    if join_common::is_and(op) {
        assert(mine.len() == 3);
        assert(mine[0] == 'a' && mine[1] == 'n' && mine[2] == 'd');
    }
}

/// Rows that satisfy a condition agree on all of its keys, so that restricting
/// a side to the keys of the other loses no pair.  A condition that is nothing
/// but equalities is satisfied by all rows that agree on its keys, so that no
/// key is missing.
pub proof fn keys_are_implied_by_the_condition(e: ExprView, rows: RowPair)
    ensures
        ({
            let key = |x: ExprView| x.stripped().sql();
            &&& holds(e, rows, key) ==> agree_on(join::equi_keys(e), rows)
            &&& only_equalities(e) && agree_on(join::equi_keys(e), rows) ==> holds(e, rows, key)
        }),
    decreases e,
{
    match e {
        ExprView::BinaryOp { op, left, right } => {
            lemma_conjoins(op);
            keys_are_implied_by_the_condition(*left, rows);
            keys_are_implied_by_the_condition(*right, rows);
            lemma_agree_on_both(join::equi_keys(*left), join::equi_keys(*right), rows);
            if op == "="@ {
                assert(join::equi_keys(e)[0] == (left.stripped().sql(), right.stripped().sql()));
            }
        },
        _ => {},
    }
}

/// The same of the keys under new names of the inputs.
pub proof fn aliased_keys_are_implied_by_the_condition(e: ExprView, s: Sides, rows: RowPair)
    ensures
        ({
            let key = |x: ExprView| join_common::rewritten(x, s).sql();
            &&& holds(e, rows, key) ==> agree_on(join_common::aliased_keys(e, s), rows)
            &&& only_equalities(e) && agree_on(join_common::aliased_keys(e, s), rows) ==> holds(
                e,
                rows,
                key,
            )
        }),
    decreases e,
{
    match e {
        ExprView::BinaryOp { op, left, right } => {
            lemma_conjoins(op);
            aliased_keys_are_implied_by_the_condition(*left, s, rows);
            aliased_keys_are_implied_by_the_condition(*right, s, rows);
            lemma_agree_on_both(
                join_common::aliased_keys(*left, s),
                join_common::aliased_keys(*right, s),
                rows,
            );
            if op == "="@ {
                assert(join_common::aliased_keys(e, s)[0] == (
                    join_common::rewritten(*left, s).sql(),
                    join_common::rewritten(*right, s).sql(),
                ));
            }
        },
        _ => {},
    }
}

/// A condition whose top is neither an equality nor a conjunction has no keys:
/// no disjunction, no comparison, no function call, no raw text.
pub proof fn only_equalities_and_conjunctions_have_keys(e: ExprView, s: Sides)
    requires
        !(e matches ExprView::BinaryOp { op, .. } && (op == "="@ || conjoins(op))),
    ensures
        join::equi_keys(e).len() == 0,
        join_common::aliased_keys(e, s).len() == 0,
{
    match e {
        ExprView::BinaryOp { op, .. } => {
            lemma_conjoins(op);
        },
        _ => {},
    }
}

/// A condition with its sides exchanged has its keys exchanged.
pub proof fn exchanged_equality_has_exchanged_keys(left: ExprView, right: ExprView)
    ensures
        ({
            let e = ExprView::BinaryOp { op: "="@, left: Box::new(left), right: Box::new(right) };
            let f = ExprView::BinaryOp { op: "="@, left: Box::new(right), right: Box::new(left) };
            &&& join::equi_keys(e).len() == 1
            &&& join::equi_keys(f).len() == 1
            &&& join::equi_keys(e)[0].0 == join::equi_keys(f)[0].1
            &&& join::equi_keys(e)[0].1 == join::equi_keys(f)[0].0
        }),
{
}

/// Filtering the right side by keys is filtering the left side by the keys
/// exchanged; each filter starts with the key of the filtered side.
pub proof fn key_filters_mirror(keys: join_common::KeyTexts, delta: Seq<char>, i: int)
    requires
        0 <= i < keys.len(),
    ensures
        ({
            let exchanged = Seq::new(keys.len(), |k: int| (keys[k].1, keys[k].0));
            let on_left = join::key_filters(keys, delta, join::JoinSide::Left);
            let on_right = join::key_filters(keys, delta, join::JoinSide::Right);
            &&& on_left.len() == keys.len()
            &&& on_right == join::key_filters(exchanged, delta, join::JoinSide::Left)
            &&& text::begins(on_left[i], keys[i].0 + " IN (SELECT DISTINCT "@ + keys[i].1)
            &&& text::begins(on_right[i], keys[i].1 + " IN (SELECT DISTINCT "@ + keys[i].0)
        }),
{
    let exchanged = Seq::new(keys.len(), |k: int| (keys[k].1, keys[k].0));
    let on_left = join::key_filters(keys, delta, join::JoinSide::Left);
    let on_right = join::key_filters(keys, delta, join::JoinSide::Right);
    assert(on_right =~= join::key_filters(exchanged, delta, join::JoinSide::Left));
    let a = keys[i].0 + " IN (SELECT DISTINCT "@ + keys[i].1;
    let b = keys[i].1 + " IN (SELECT DISTINCT "@ + keys[i].0;
    assert(on_left[i].subrange(0, a.len() as int) =~= a);
    assert(on_right[i].subrange(0, b.len() as int) =~= b);
}

// ── Texts ──────────────────────────────────────────────────────────────

/// The text of a binary operator has the texts of its operands and its
/// operator in this order, in brackets.
pub proof fn operators_stand_between_operands(op: Seq<char>, left: ExprView, right: ExprView)
    ensures
        ({
            let e = ExprView::BinaryOp { op, left: Box::new(left), right: Box::new(right) };
            let t = e.sql();
            let l = left.sql();
            let r = right.sql();
            let at_op = l.len() + 2int;
            let at_right = at_op + op.len() + 1;
            &&& t.len() == l.len() + op.len() + r.len() + 4
            &&& t.first() == '('
            &&& t.last() == ')'
            &&& text::occurs_at(t, l, 1)
            &&& t[at_op - 1] == ' '
            &&& text::occurs_at(t, op, at_op)
            &&& t[at_right - 1] == ' '
            &&& text::occurs_at(t, r, at_right)
        }),
{
    let e = ExprView::BinaryOp { op, left: Box::new(left), right: Box::new(right) };
    let t = e.sql();
    let l = left.sql();
    let r = right.sql();
    reveal_strlit("(");
    reveal_strlit(" ");
    reveal_strlit(")");
    assert(t.subrange(1, 1int + l.len()) =~= l);
    assert(t.subrange((l.len() + 2) as int, (l.len() + 2 + op.len()) as int) =~= op);
    let k = (l.len() + op.len() + 3) as int;
    assert(t.subrange(k, k + r.len()) =~= r);
}

/// A column with a table alias is told by the alias, a dot and its name; one
/// without by its name alone.  What was not taken apart stays as it is.
pub proof fn leaves_are_told_by_their_names(table: Seq<char>, column: Seq<char>, raw: Seq<char>)
    ensures
        ({
            let t = (ExprView::ColumnRef { table_alias: Some(table), column_name: column }).sql();
            &&& t.len() == table.len() + 1 + column.len()
            &&& text::begins(t, table)
            &&& t[table.len() as int] == '.'
            &&& text::ends(t, column)
        }),
        (ExprView::ColumnRef { table_alias: None, column_name: column }).sql() == column,
        ExprView::Literal(raw).sql() == raw,
        ExprView::Raw(raw).sql() == raw,
        ({
            let t = (ExprView::Star { table_alias: Some(table) }).sql();
            &&& t.len() == table.len() + 2
            &&& text::begins(t, table)
            &&& t[table.len() as int] == '.'
            &&& t.last() == '*'
        }),
        (ExprView::Star { table_alias: None }).sql() == seq!['*'],
{
    reveal_strlit(".");
    reveal_strlit("*");
    reveal_strlit(".*");
    let t = (ExprView::ColumnRef { table_alias: Some(table), column_name: column }).sql();
    let n = table.len() as int;
    assert(t.subrange(0, n) =~= table);
    assert(t.subrange(n + 1, n + 1 + column.len()) =~= column);
    let u = (ExprView::Star { table_alias: Some(table) }).sql();
    assert(u.subrange(0, n) =~= table);
    assert((ExprView::Star { table_alias: None }).sql() =~= seq!['*']);
}

/// The text of a function call is its name, and in brackets the texts of its
/// arguments in their order.
pub proof fn calls_have_all_arguments(func: Seq<char>, args: Seq<ExprView>)
    ensures
        ({
            let inner = text::join(Seq::new(args.len(), |i: int| args[i].sql()), ", "@);
            (ExprView::FuncCall { func_name: func, args }).sql() == func + seq!['('] + inner + seq![
                ')',
            ]
        }),
{
    reveal_strlit("(");
    reveal_strlit(")");
    lemma_sql_all(args);
    let parts = Seq::new(args.len(), |i: int| args[i].sql());
    assert(sql_all(args) =~= parts);
    let t = (ExprView::FuncCall { func_name: func, args }).sql();
    assert(t =~= func + seq!['('] + text::join(parts, ", "@) + seq![')']);
}

/// Each of several expressions has its own text.
proof fn lemma_sql_all(es: Seq<ExprView>)
    ensures
        sql_all(es).len() == es.len(),
        forall|i: int| 0 <= i < es.len() ==> #[trigger] sql_all(es)[i] == es[i].sql(),
    decreases es.len(),
{
    if es.len() > 0 {
        lemma_sql_all(es.drop_last());
    }
}

/// Reads a sort key: its expression, whether it ascends, and whether nulls
/// come first.
pub open spec fn read_sort_key(t: Seq<char>) -> Option<(Seq<char>, bool, bool)> {
    let nulls = if text::ends(t, " NULLS FIRST"@) {
        Some((t.take(t.len() - 12), true))
    } else if text::ends(t, " NULLS LAST"@) {
        Some((t.take(t.len() - 11), false))
    } else {
        None
    };
    match nulls {
        Some((head, first)) => if text::ends(head, " ASC"@) {
            Some((head.take(head.len() - 4), true, first))
        } else if text::ends(head, " DESC"@) {
            Some((head.take(head.len() - 5), false, first))
        } else {
            None
        },
        None => None,
    }
}

/// The text of a sort key tells its expression, its direction and the place of
/// nulls: an ascending key is followed by `ASC` and a descending one by `DESC`.
pub proof fn sort_key_reads_back(k: SortExpr)
    ensures
        read_sort_key(k.sql()) == Some((k.expr@.sql(), k.ascending, k.nulls_first)),
{
    reveal_strlit(" ASC");
    reveal_strlit(" DESC");
    reveal_strlit(" NULLS FIRST");
    reveal_strlit(" NULLS LAST");
    let t = k.sql();
    let e = k.expr@.sql();
    let dir = if k.ascending {
        " ASC"@
    } else {
        " DESC"@
    };
    let nulls = if k.nulls_first {
        " NULLS FIRST"@
    } else {
        " NULLS LAST"@
    };
    let head = e + dir;
    assert(t =~= head + nulls);
    assert(t.subrange(t.len() - nulls.len(), t.len() as int) =~= nulls);
    assert(t.take(t.len() - nulls.len()) =~= head);
    if !k.nulls_first {
        assert(t.last() == 'T' && t[t.len() - 2] == 'S' && t[t.len() - 3] == 'A');
        if text::ends(t, " NULLS FIRST"@) {
            let u = t.subrange(t.len() - 12, t.len() as int);
            assert(u[9] == t[t.len() - 3]);
            assert(" NULLS FIRST"@[9] == 'R');
        }
    }
    assert(head.subrange(head.len() - dir.len(), head.len() as int) =~= dir);
    assert(head.take(head.len() - dir.len()) =~= e);
    if !k.ascending {
        if text::ends(head, " ASC"@) {
            let u = head.subrange(head.len() - 4, head.len() as int);
            assert(u[1] == head[head.len() - 3]);
            assert(" ASC"@[1] == 'A');
            assert(head[head.len() - 3] == 'E');
        }
    }
}

/// Keys with the same text have the same direction and the same place of
/// nulls.
pub proof fn sort_keys_differ_by_direction(a: SortExpr, b: SortExpr)
    requires
        a.sql() == b.sql(),
    ensures
        a.ascending == b.ascending,
        a.nulls_first == b.nulls_first,
        a.expr@.sql() == b.expr@.sql(),
{
    sort_key_reads_back(a);
    sort_key_reads_back(b);
}

/// The text of a window between its brackets.
pub open spec fn over_text(w: WindowExpr) -> Seq<char> {
    let head = w.func_name@.len() + 1 + text::join(sql_all(expr_views(w.args@)), ", "@).len()
        + ") OVER ("@.len();
    w.sql().subrange(head as int, w.sql().len() - 1)
}

/// A window function is computed over the partitions and in the order of its
/// window: its text has the partitioning before the order, each where it is
/// given and neither where it is not.
pub proof fn windows_partition_then_order(w: WindowExpr)
    ensures
        ({
            let parts = text::join(sql_all(expr_views(w.partition_by@)), ", "@);
            let keys = text::join(
                Seq::new(w.order_by@.len(), |i: int| w.order_by@[i].sql()),
                ", "@,
            );
            let over = over_text(w);
            &&& text::begins(w.sql(), w.func_name@ + "("@)
            &&& w.partition_by@.len() == 0 && w.order_by@.len() == 0 ==> over.len() == 0
            &&& w.partition_by@.len() > 0 && w.order_by@.len() == 0 ==> over == "PARTITION BY "@
                + parts
            &&& w.partition_by@.len() == 0 && w.order_by@.len() > 0 ==> over == "ORDER BY "@ + keys
            &&& w.partition_by@.len() > 0 && w.order_by@.len() > 0 ==> over == "PARTITION BY "@
                + parts + " ORDER BY "@ + keys
        }),
{
    reveal_strlit("(");
    reveal_strlit(")");
    reveal_strlit(" ");
    reveal_strlit(") OVER (");
    reveal_strlit("ORDER BY ");
    reveal_strlit(" ORDER BY ");
    let args = text::join(sql_all(expr_views(w.args@)), ", "@);
    let parts = text::join(sql_all(expr_views(w.partition_by@)), ", "@);
    let keys = text::join(Seq::new(w.order_by@.len(), |i: int| w.order_by@[i].sql()), ", "@);
    assert(w.sort_texts() =~= Seq::new(w.order_by@.len(), |i: int| w.order_by@[i].sql()));
    let inner = text::join(w.over_parts(), " "@);
    let head = w.func_name@ + "("@ + args + ") OVER ("@;
    assert(w.sql() =~= head + inner + ")"@);
    assert(over_text(w) =~= inner);
    let f = w.func_name@ + "("@;
    assert(w.sql().subrange(0, f.len() as int) =~= f);
    reveal_with_fuel(text::join, 3);
    let p = w.partition_by@.len() > 0;
    let o = w.order_by@.len() > 0;
    if p && o {
        assert(w.over_parts() =~= seq!["PARTITION BY "@ + parts, "ORDER BY "@ + keys]);
        assert(w.over_parts().drop_last() =~= seq!["PARTITION BY "@ + parts]);
        assert(inner =~= "PARTITION BY "@ + parts + " ORDER BY "@ + keys);
    } else if p {
        assert(w.over_parts() =~= seq!["PARTITION BY "@ + parts]);
    } else if o {
        assert(w.over_parts() =~= seq!["ORDER BY "@ + keys]);
    } else {
        assert(w.over_parts() =~= Seq::empty());
    }
}

} // verus!
