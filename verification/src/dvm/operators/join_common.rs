//! What the join operators share: snapshots of their inputs, and conditions
//! rewritten to the names under which a delta query knows them.
//!
//! Where an input of a join is a join itself, its snapshot is a subquery whose
//! columns carry the alias of the table they come from (`o__prod_id`), and a
//! condition that names such a column has to use that name.

use vstd::prelude::*;
use vstd::string::*;

use crate::dvm::diff;
use crate::dvm::diff::{quote_ident, rename_cols, wrap_cols};
use crate::dvm::parser;
use crate::dvm::parser::{both, Column, Expr, ExprView, OpTree};
use crate::sql_builder;
use crate::text;
use crate::text::{eq_ignore_case, join_texts, text_eq};

verus! {

// ── Sources ────────────────────────────────────────────────────────────

/// Whether a tree has a table with an alias that a condition above can name.
pub open spec fn has_source(op: OpTree, alias: Seq<char>) -> bool
    decreases op,
{
    match op {
        OpTree::Scan { alias: a, .. } => a@ == alias,
        OpTree::InnerJoin { left, right, .. } => has_source(*left, alias) || has_source(
            *right,
            alias,
        ),
        OpTree::LeftJoin { left, right, .. } => has_source(*left, alias) || has_source(
            *right,
            alias,
        ),
        OpTree::FullJoin { left, right, .. } => has_source(*left, alias) || has_source(
            *right,
            alias,
        ),
        OpTree::Filter { child, .. } => has_source(*child, alias),
        OpTree::Project { child, .. } => has_source(*child, alias),
        OpTree::Subquery { child, .. } => has_source(*child, alias),
        _ => false,
    }
}

/// Whether the columns of a table come out of a tree under their own names:
/// nothing but filters, projections and subqueries stands above it.
pub open spec fn simple_source(op: OpTree, alias: Seq<char>) -> bool
    decreases op,
{
    match op {
        OpTree::Scan { alias: a, .. } => a@ == alias,
        OpTree::Filter { child, .. } => simple_source(*child, alias),
        OpTree::Project { child, .. } => simple_source(*child, alias),
        OpTree::Subquery { child, .. } => simple_source(*child, alias),
        _ => false,
    }
}

/// Whether a tree is a scan below nothing but filters, projections and
/// subqueries.
pub open spec fn simple_child(op: OpTree) -> bool
    decreases op,
{
    match op {
        OpTree::Scan { .. } => true,
        OpTree::Filter { child, .. } => simple_child(*child),
        OpTree::Project { child, .. } => simple_child(*child),
        OpTree::Subquery { child, .. } => simple_child(*child),
        _ => false,
    }
}

/// Whether a tree has a table with an alias that a condition above can name.
pub fn has_source_alias(op: &OpTree, alias: &str) -> (r: bool)
    ensures
        r == has_source(*op, alias@),
    decreases op,
{
    match op {
        OpTree::Scan { alias: a, .. } => text_eq(a.as_str(), alias),
        OpTree::InnerJoin { left, right, .. } => {
            has_source_alias(left, alias) || has_source_alias(right, alias)
        },
        OpTree::LeftJoin { left, right, .. } => {
            has_source_alias(left, alias) || has_source_alias(right, alias)
        },
        OpTree::FullJoin { left, right, .. } => {
            has_source_alias(left, alias) || has_source_alias(right, alias)
        },
        OpTree::Filter { child, .. } => has_source_alias(child, alias),
        OpTree::Project { child, .. } => has_source_alias(child, alias),
        OpTree::Subquery { child, .. } => has_source_alias(child, alias),
        _ => false,
    }
}

/// Whether the columns of a table come out of a tree under their own names.
pub fn is_simple_source(op: &OpTree, alias: &str) -> (r: bool)
    ensures
        r == simple_source(*op, alias@),
    decreases op,
{
    match op {
        OpTree::Scan { alias: a, .. } => text_eq(a.as_str(), alias),
        OpTree::Filter { child, .. } => is_simple_source(child, alias),
        OpTree::Project { child, .. } => is_simple_source(child, alias),
        OpTree::Subquery { child, .. } => is_simple_source(child, alias),
        _ => false,
    }
}

/// Whether a tree is a scan below transparent operators only.
///
/// Filtering by delta keys needs a plain table, so it is done for these only.
pub fn is_simple_child(op: &OpTree) -> (r: bool)
    ensures
        r == simple_child(*op),
    decreases op,
{
    match op {
        OpTree::Scan { .. } => true,
        OpTree::Filter { child, .. } => is_simple_child(child),
        OpTree::Project { child, .. } => is_simple_child(child),
        OpTree::Subquery { child, .. } => is_simple_child(child),
        _ => false,
    }
}

/// A source whose columns keep their names is a source of the tree, and the
/// tree is then a scan below transparent operators.
pub proof fn simple_source_is_source(op: OpTree, alias: Seq<char>)
    requires
        simple_source(op, alias),
    ensures
        has_source(op, alias),
        simple_child(op),
    decreases op,
{
    match op {
        OpTree::Filter { child, .. } => simple_source_is_source(*child, alias),
        OpTree::Project { child, .. } => simple_source_is_source(*child, alias),
        OpTree::Subquery { child, .. } => simple_source_is_source(*child, alias),
        _ => {},
    }
}

/// Below transparent operators only, every source keeps its column names.
pub proof fn sources_of_simple_child(op: OpTree, alias: Seq<char>)
    requires
        simple_child(op),
        has_source(op, alias),
    ensures
        simple_source(op, alias),
    decreases op,
{
    match op {
        OpTree::Filter { child, .. } => sources_of_simple_child(*child, alias),
        OpTree::Project { child, .. } => sources_of_simple_child(*child, alias),
        OpTree::Subquery { child, .. } => sources_of_simple_child(*child, alias),
        _ => {},
    }
}

// ── Conditions ─────────────────────────────────────────────────────────

/// The two inputs of a join, and the names that a query uses for them.
pub struct Sides {
    pub left: OpTree,
    pub new_left: Seq<char>,
    pub right: OpTree,
    pub new_right: Seq<char>,
}

/// A column of a table inside `op`, quoted, as a query names it that knows
/// `op` as `new_alias`.
pub open spec fn column_through(
    op: OpTree,
    new_alias: Seq<char>,
    alias: Seq<char>,
    column_name: Seq<char>,
) -> ExprView {
    ExprView::ColumnRef {
        table_alias: Some(new_alias),
        column_name: sql_builder::ident_text(
            if simple_source(op, alias) {
                column_name
            } else {
                diff::side_name(alias, column_name)
            },
        ),
    }
}

/// An expression over the tables of a join, as a query names them that knows
/// the inputs under new names.
pub open spec fn rewritten(e: ExprView, s: Sides) -> ExprView
    decreases e,
{
    match e {
        ExprView::ColumnRef { table_alias: Some(alias), column_name } => {
            if has_source(s.left, alias) {
                column_through(s.left, s.new_left, alias, column_name)
            } else if has_source(s.right, alias) {
                column_through(s.right, s.new_right, alias, column_name)
            } else {
                e
            }
        },
        ExprView::BinaryOp { op, left, right } => ExprView::BinaryOp {
            op,
            left: Box::new(rewritten(*left, s)),
            right: Box::new(rewritten(*right, s)),
        },
        ExprView::FuncCall { func_name, args } => ExprView::FuncCall {
            func_name,
            args: rewritten_all(args, s),
        },
        _ => e,
    }
}

/// Expressions over the tables of a join, under new names.
pub open spec fn rewritten_all(es: Seq<ExprView>, s: Sides) -> Seq<ExprView>
    decreases es,
{
    if es.len() == 0 {
        Seq::empty()
    } else {
        rewritten_all(es.drop_last(), s).push(rewritten(es.last(), s))
    }
}

/// The text of a condition over the tables of a join, under new names.
pub open spec fn condition_sql(
    e: ExprView,
    left: OpTree,
    new_left: Seq<char>,
    right: OpTree,
    new_right: Seq<char>,
) -> Seq<char> {
    rewritten(e, Sides { left, new_left, right, new_right }).sql()
}

/// Rewrites a join condition to new names of the inputs.
///
/// Over a scan, `o.cust_id` becomes `dl."cust_id"`; over a nested join it
/// becomes `dl."o__cust_id"`.
pub fn rewrite_join_condition(
    condition: &Expr,
    left: &OpTree,
    new_left: &str,
    right: &OpTree,
    new_right: &str,
) -> (r: String)
    ensures
        r@ == condition_sql(condition@, *left, new_left@, *right, new_right@),
{
    rewrite_expr_for_join(condition, left, new_left, right, new_right).to_sql()
}

/// A column of a table inside `op`, quoted, as a query names it that knows
/// `op` as `new_alias`.
fn column_of(op: &OpTree, new_alias: &str, alias: &str, column_name: &String) -> (r: Expr)
    ensures
        r@ == column_through(*op, new_alias@, alias@, column_name@),
{
    let name = if is_simple_source(op, alias) {
        column_name.clone()
    } else {
        let mut n = alias.to_string();
        n.append("__");
        n.append(column_name.as_str());
        n
    };
    Expr::ColumnRef {
        table_alias: Some(new_alias.to_string()),
        column_name: quote_ident(name.as_str()),
    }
}

/// Rewrites an expression to new names of the inputs of a join.
fn rewrite_expr_for_join(
    expr: &Expr,
    left: &OpTree,
    new_left: &str,
    right: &OpTree,
    new_right: &str,
) -> (r: Expr)
    ensures
        r@ == rewritten(
            expr@,
            (Sides { left: *left, new_left: new_left@, right: *right, new_right: new_right@ }),
        ),
    decreases expr,
{
    let ghost s = Sides {
        left: *left,
        new_left: new_left@,
        right: *right,
        new_right: new_right@,
    };
    match expr {
        Expr::ColumnRef { table_alias: Some(alias), column_name } => {
            if has_source_alias(left, alias.as_str()) {
                column_of(left, new_left, alias.as_str(), column_name)
            } else if has_source_alias(right, alias.as_str()) {
                column_of(right, new_right, alias.as_str(), column_name)
            } else {
                expr.clone()
            }
        },
        Expr::BinaryOp { op, left: l, right: r } => Expr::BinaryOp {
            op: op.clone(),
            left: Box::new(rewrite_expr_for_join(l, left, new_left, right, new_right)),
            right: Box::new(rewrite_expr_for_join(r, left, new_left, right, new_right)),
        },
        Expr::FuncCall { func_name, args } => {
            let mut new_args: Vec<Expr> = Vec::new();
            let mut i: usize = 0;
            while i < args.len()
                invariant
                    i <= args.len(),
                    s == (Sides {
                        left: *left,
                        new_left: new_left@,
                        right: *right,
                        new_right: new_right@,
                    }),
                    parser::expr_views(new_args@) == rewritten_all(
                        parser::expr_views(args@.take(i as int)),
                        s,
                    ),
                    decreases_to!(expr => args@),
                decreases args.len() - i,
            {
                assert(decreases_to!(args@ => args@[i as int]));
                let ghost before = new_args@;
                new_args.push(rewrite_expr_for_join(&args[i], left, new_left, right, new_right));
                proof {
                    parser::lemma_views_take(args@, i as int);
                    let now = parser::expr_views(args@.take(i + 1));
                    assert(now.drop_last() =~= parser::expr_views(args@.take(i as int)));
                    assert(new_args@.drop_last() =~= before);
                }
                i += 1;
            }
            assert(args@.take(args@.len() as int) =~= args@);
            Expr::FuncCall { func_name: func_name.clone(), args: new_args }
        },
        _ => expr.clone(),
    }
}

// ── Equality keys ──────────────────────────────────────────────────────

/// Pairs of key texts: one for the left input, one for the right.
pub type KeyTexts = Seq<(Seq<char>, Seq<char>)>;

/// The pairs of a list of string pairs.
pub open spec fn key_texts(keys: Seq<(String, String)>) -> KeyTexts {
    Seq::new(keys.len(), |i: int| (keys[i].0@, keys[i].1@))
}

/// Whether an operator is a conjunction.
pub open spec fn is_and(op: Seq<char>) -> bool {
    text::lowered(op) == text::lowered("AND"@)
}

/// The equalities of a condition, through its conjunctions, with both sides
/// under new names of the inputs.
pub open spec fn aliased_keys(e: ExprView, s: Sides) -> KeyTexts
    decreases e,
{
    match e {
        ExprView::BinaryOp { op, left, right } => {
            if op == "="@ {
                seq![(rewritten(*left, s).sql(), rewritten(*right, s).sql())]
            } else if is_and(op) {
                aliased_keys(*left, s) + aliased_keys(*right, s)
            } else {
                Seq::empty()
            }
        },
        _ => Seq::empty(),
    }
}

/// The equalities of a condition, with both sides under new names of the
/// inputs of the join.
pub fn extract_equijoin_keys_aliased(
    condition: &Expr,
    left: &OpTree,
    new_left: &str,
    right: &OpTree,
    new_right: &str,
) -> (r: Vec<(String, String)>)
    ensures
        key_texts(r@) == aliased_keys(
            condition@,
            (Sides { left: *left, new_left: new_left@, right: *right, new_right: new_right@ }),
        ),
    decreases condition,
{
    match condition {
        Expr::BinaryOp { op, left: l, right: r } => {
            if text_eq(op.as_str(), "=") {
                let mut keys: Vec<(String, String)> = Vec::new();
                keys.push(
                    (
                        rewrite_join_condition(l, left, new_left, right, new_right),
                        rewrite_join_condition(r, left, new_left, right, new_right),
                    ),
                );
                assert(key_texts(keys@) =~= seq![(keys@[0].0@, keys@[0].1@)]);
                keys
            } else if eq_ignore_case(op.as_str(), "AND") {
                let mut keys = extract_equijoin_keys_aliased(l, left, new_left, right, new_right);
                let mut more = extract_equijoin_keys_aliased(r, left, new_left, right, new_right);
                let ghost first = keys@;
                let ghost second = more@;
                keys.append(&mut more);
                assert(key_texts(keys@) =~= key_texts(first) + key_texts(second));
                keys
            } else {
                assert(key_texts(Seq::empty()) =~= Seq::empty());
                Vec::new()
            }
        },
        _ => {
            assert(key_texts(Seq::empty()) =~= Seq::empty());
            Vec::new()
        },
    }
}

// ── Snapshots ──────────────────────────────────────────────────────────

/// A join of two snapshots.
pub open spec fn join_snapshot_sql(
    cols: Seq<char>,
    left_snap: Seq<char>,
    left_alias: Seq<char>,
    join_type: Seq<char>,
    right_snap: Seq<char>,
    right_alias: Seq<char>,
    cond: Seq<char>,
) -> Seq<char> {
    "(SELECT "@ + cols + " FROM "@ + left_snap + " "@ + left_alias + " "@ + join_type + " "@
        + right_snap + " "@ + right_alias + " ON "@ + cond + ")"@
}

/// A join of two snapshots.
fn join_snapshot_query(
    cols: &str,
    left_snap: &str,
    left_alias: &str,
    join_type: &str,
    right_snap: &str,
    right_alias: &str,
    cond: &str,
) -> (r: String)
    ensures
        r@ == join_snapshot_sql(
            cols@,
            left_snap@,
            left_alias@,
            join_type@,
            right_snap@,
            right_alias@,
            cond@,
        ),
{
    let mut r = "(SELECT ".to_string();
    r.append(cols);
    r.append(" FROM ");
    r.append(left_snap);
    r.append(" ");
    r.append(left_alias);
    r.append(" ");
    r.append(join_type);
    r.append(" ");
    r.append(right_snap);
    r.append(" ");
    r.append(right_alias);
    r.append(" ON ");
    r.append(cond);
    r.append(")");
    r
}

/// The rows of a table that satisfy a predicate.
pub open spec fn filter_snapshot_sql(
    child: Seq<char>,
    alias: Seq<char>,
    predicate: Seq<char>,
) -> Seq<char> {
    "(SELECT * FROM "@ + child + " "@ + alias + " WHERE "@ + predicate + ")"@
}

/// The rows of a table that satisfy a predicate.
fn filter_snapshot_query(child: &str, alias: &str, predicate: &str) -> (r: String)
    ensures
        r@ == filter_snapshot_sql(child@, alias@, predicate@),
{
    let mut r = "(SELECT * FROM ".to_string();
    r.append(child);
    r.append(" ");
    r.append(alias);
    r.append(" WHERE ");
    r.append(predicate);
    r.append(")");
    r
}

/// The columns of a join of snapshots, under the names that the join gives
/// them.
pub open spec fn join_columns(left: OpTree, right: OpTree) -> Seq<Seq<char>> {
    diff::renamed(
        sql_builder::ident_text(left.spec_alias()) + "."@,
        left.spec_columns(),
        left.spec_alias(),
    ) + diff::renamed(
        sql_builder::ident_text(right.spec_alias()) + "."@,
        right.spec_columns(),
        right.spec_alias(),
    )
}

/// The snapshot of a join, from the snapshots of its inputs.
pub open spec fn join_snapshot_of(
    join_type: Seq<char>,
    condition: ExprView,
    left: OpTree,
    left_snap: Seq<char>,
    right: OpTree,
    right_snap: Seq<char>,
) -> Seq<char> {
    join_snapshot_sql(
        text::join(join_columns(left, right), ", "@),
        left_snap,
        sql_builder::ident_text(left.spec_alias()),
        join_type,
        right_snap,
        sql_builder::ident_text(right.spec_alias()),
        condition_sql(condition, left, left.spec_alias(), right, right.spec_alias()),
    )
}

/// The current rows of an operator, as they stand in a `FROM` clause.
pub open spec fn snapshot_sql(op: OpTree) -> Seq<char>
    decreases op,
{
    match op {
        OpTree::Scan { schema, table_name, .. } => sql_builder::qualified_text(
            schema@,
            table_name@,
        ),
        OpTree::InnerJoin { condition, left, right } => join_snapshot_of(
            "JOIN"@,
            condition@,
            *left,
            snapshot_sql(*left),
            *right,
            snapshot_sql(*right),
        ),
        OpTree::LeftJoin { condition, left, right } => join_snapshot_of(
            "LEFT JOIN"@,
            condition@,
            *left,
            snapshot_sql(*left),
            *right,
            snapshot_sql(*right),
        ),
        OpTree::FullJoin { condition, left, right } => join_snapshot_of(
            "FULL JOIN"@,
            condition@,
            *left,
            snapshot_sql(*left),
            *right,
            snapshot_sql(*right),
        ),
        OpTree::Filter { predicate, child } => {
            if *child is Scan {
                filter_snapshot_sql(
                    snapshot_sql(*child),
                    sql_builder::ident_text(child.spec_alias()),
                    predicate@.sql(),
                )
            } else {
                snapshot_sql(*child)
            }
        },
        OpTree::Project { child, .. } => snapshot_sql(*child),
        OpTree::Subquery { child, .. } => snapshot_sql(*child),
        _ => "/* unsupported snapshot for "@ + op.spec_kind() + " */"@,
    }
}

/// The current rows of an operator, as they stand in a `FROM` clause.
///
/// A scan gives its table; a join gives a subquery whose columns carry the
/// alias of the side they come from.
pub fn build_snapshot_sql(op: &OpTree) -> (r: String)
    ensures
        r@ == snapshot_sql(*op),
    decreases op,
{
    match op {
        OpTree::Scan { schema, table_name, .. } => crate::sql_builder::qualified(
            schema.as_str(),
            table_name.as_str(),
        ),
        OpTree::InnerJoin { condition, left, right } => {
            let left_snap = build_snapshot_sql(left);
            let right_snap = build_snapshot_sql(right);
            build_join_snapshot("JOIN", condition, left, left_snap, right, right_snap)
        },
        OpTree::LeftJoin { condition, left, right } => {
            let left_snap = build_snapshot_sql(left);
            let right_snap = build_snapshot_sql(right);
            build_join_snapshot("LEFT JOIN", condition, left, left_snap, right, right_snap)
        },
        OpTree::FullJoin { condition, left, right } => {
            let left_snap = build_snapshot_sql(left);
            let right_snap = build_snapshot_sql(right);
            build_join_snapshot("FULL JOIN", condition, left, left_snap, right, right_snap)
        },
        OpTree::Filter { predicate, child } => {
            let child_snap = build_snapshot_sql(child);
            match &**child {
                OpTree::Scan { .. } => {
                    filter_snapshot_query(
                        child_snap.as_str(),
                        quote_ident(child.alias()).as_str(),
                        predicate.to_sql().as_str(),
                    )
                },
                _ => child_snap,
            }
        },
        OpTree::Project { child, .. } => build_snapshot_sql(child),
        OpTree::Subquery { child, .. } => build_snapshot_sql(child),
        _ => {
            let mut r = "/* unsupported snapshot for ".to_string();
            r.append(op.node_kind());
            r.append(" */");
            r
        },
    }
}

/// The snapshot of a join, from the snapshots of its inputs.
fn build_join_snapshot(
    join_type: &str,
    condition: &Expr,
    left: &OpTree,
    left_snap: String,
    right: &OpTree,
    right_snap: String,
) -> (r: String)
    ensures
        r@ == join_snapshot_of(
            join_type@,
            condition@,
            *left,
            left_snap@,
            *right,
            right_snap@,
        ),
{
    let left_alias = left.alias();
    let right_alias = right.alias();
    let left_name = quote_ident(left_alias);
    let right_name = quote_ident(right_alias);
    let mut left_dot = left_name.clone();
    left_dot.append(".");
    let mut right_dot = right_name.clone();
    right_dot.append(".");
    let cols = both(
        rename_cols(left_dot.as_str(), &left.output_columns(), left_alias),
        rename_cols(right_dot.as_str(), &right.output_columns(), right_alias),
    );
    let cond = rewrite_join_condition(condition, left, left_alias, right, right_alias);
    join_snapshot_query(
        join_texts(&cols, ", ").as_str(),
        left_snap.as_str(),
        left_name.as_str(),
        join_type,
        right_snap.as_str(),
        right_name.as_str(),
        cond.as_str(),
    )
}

// ── Row keys ───────────────────────────────────────────────────────────

/// The names of the columns that cannot be null.
pub open spec fn not_null_names(columns: Seq<Column>) -> Seq<Seq<char>>
    decreases columns.len(),
{
    if columns.len() == 0 {
        Seq::empty()
    } else if columns.last().is_nullable {
        not_null_names(columns.drop_last())
    } else {
        not_null_names(columns.drop_last()).push(columns.last().name@)
    }
}

/// The expressions that identify a row of a snapshot known as `alias`: the
/// columns of a table that cannot be null, or all where there are none of
/// these, and the whole row for anything but a table.
pub open spec fn base_keys(op: OpTree, alias: Seq<char>) -> Seq<Seq<char>> {
    match op {
        OpTree::Scan { columns, .. } => diff::wrapped(
            alias + "."@,
            if not_null_names(columns@).len() == 0 {
                parser::column_names(columns@)
            } else {
                not_null_names(columns@)
            },
            "::TEXT"@,
        ),
        _ => seq!["row_to_json("@ + alias + ")::text"@],
    }
}

/// The names of the columns that cannot be null.
fn not_null_columns(columns: &Vec<Column>) -> (r: Vec<String>)
    ensures
        text::texts(r@) == not_null_names(columns@),
{
    let mut r: Vec<String> = Vec::new();
    let mut i: usize = 0;
    assert(text::texts(r@) =~= Seq::empty());
    while i < columns.len()
        invariant
            i <= columns.len(),
            text::texts(r@) == not_null_names(columns@.take(i as int)),
        decreases columns.len() - i,
    {
        let ghost before = r@;
        proof {
            let now = columns@.take(i + 1);
            assert(now.drop_last() =~= columns@.take(i as int));
            assert(now.last() == columns@[i as int]);
        }
        if !columns[i].is_nullable {
            r.push(columns[i].name.clone());
            assert(text::texts(r@) =~= text::texts(before).push(columns@[i as int].name@));
        }
        i += 1;
    }
    assert(columns@.take(columns@.len() as int) =~= columns@);
    r
}

/// The expressions that identify a row of a snapshot known as `alias`.
pub fn build_base_table_key_exprs(op: &OpTree, alias: &str) -> (r: Vec<String>)
    ensures
        text::texts(r@) == base_keys(*op, alias@),
{
    match op {
        OpTree::Scan { columns, .. } => {
            let not_null = not_null_columns(columns);
            let mut before = alias.to_string();
            before.append(".");
            if not_null.len() == 0 {
                wrap_cols(before.as_str(), &parser::names_of(columns), "::TEXT")
            } else {
                wrap_cols(before.as_str(), &not_null, "::TEXT")
            }
        },
        _ => {
            let mut key = "row_to_json(".to_string();
            key.append(alias);
            key.append(")::text");
            let mut r: Vec<String> = Vec::new();
            r.push(key);
            assert(text::texts(r@) =~= base_keys(*op, alias@));
            r
        },
    }
}

// ── Left rows whose match changed ──────────────────────────────────────

/// Whether a row of a table satisfies a condition.
pub open spec fn exists_sql(table: Seq<char>, alias: Seq<char>, cond: Seq<char>) -> Seq<char> {
    "EXISTS (SELECT 1 FROM "@ + table + " "@ + alias + " WHERE "@ + cond + ")"@
}

/// Whether a row of a table satisfies a condition.
pub fn exists_query(table: &str, alias: &str, cond: &str) -> (r: String)
    ensures
        r@ == exists_sql(table@, alias@, cond@),
{
    let mut r = "EXISTS (SELECT 1 FROM ".to_string();
    r.append(table);
    r.append(" ");
    r.append(alias);
    r.append(" WHERE ");
    r.append(cond);
    r.append(")");
    r
}

/// The part of a delta that changes of the right rows drive: left rows that
/// have a match now and had none before, or the other way round.
pub struct StatusPart {
    /// Whether the rows without a match are kept, and not those with one.
    pub negated: bool,
    /// The name of the column with the row id.
    pub row_id: Seq<char>,
    /// The name of the column with the action.
    pub action: Seq<char>,
    /// The row id of a left row.
    pub hash: Seq<char>,
    /// Whether a left row has a match.
    pub now: Seq<char>,
    /// The columns of a left row.
    pub cols: Seq<char>,
    /// The left rows.
    pub left: Seq<char>,
    /// Whether a left row matches a changed right row.
    pub touched: Seq<char>,
    /// Whether a left row had a match before the changes.
    pub before: Seq<char>,
}

impl StatusPart {
    /// The query of the part.
    pub open spec fn text(self) -> Seq<char> {
        "SELECT "@ + self.hash + " AS "@ + self.row_id + ",\n       \
            CASE WHEN "@ + (if self.negated {
            "NOT "@
        } else {
            ""@
        }) + self.now + "\n            \
            THEN 'I' ELSE 'D'\n       \
            END AS "@ + self.action + ",\n       "@ + self.cols + "\n\
            FROM "@ + self.left + " l\n\
            WHERE "@ + self.touched + "\n  \
            AND ("@ + self.now + "\n       \
            <> "@ + self.before + ")"@
    }

    /// The action of a left row that matches a changed right row, by whether
    /// it has a match now and had one before.
    pub open spec fn emits(self, now: bool, before: bool) -> Option<char> {
        if now == before {
            None
        } else if now != self.negated {
            Some('I')
        } else {
            Some('D')
        }
    }
}

/// The other action: a delete for an insert, and an insert for a delete.
pub open spec fn swapped(action: Option<char>) -> Option<char> {
    match action {
        Some('I') => Some('D'),
        Some('D') => Some('I'),
        other => other,
    }
}

/// The query of the part of a delta that changes of the right rows drive.
pub fn build_status_part(
    negated: bool,
    row_id: &str,
    action: &str,
    hash: &str,
    now: &str,
    cols: &str,
    left: &str,
    touched: &str,
    before: &str,
) -> (r: String)
    ensures
        r@ == (StatusPart {
            negated,
            row_id: row_id@,
            action: action@,
            hash: hash@,
            now: now@,
            cols: cols@,
            left: left@,
            touched: touched@,
            before: before@,
        }).text(),
{
    let mut r = "SELECT ".to_string();
    r.append(hash);
    r.append(" AS ");
    r.append(row_id);
    r.append(",\n       \
            CASE WHEN ");
    if negated {
        r.append("NOT ");
    } else {
        r.append("");
    }
    r.append(now);
    r.append("\n            \
            THEN 'I' ELSE 'D'\n       \
            END AS ");
    r.append(action);
    r.append(",\n       ");
    r.append(cols);
    r.append("\n\
            FROM ");
    r.append(left);
    r.append(" l\n\
            WHERE ");
    r.append(touched);
    r.append("\n  \
            AND (");
    r.append(now);
    r.append("\n       \
            <> ");
    r.append(before);
    r.append(")");
    r
}

// ── What the queries say ───────────────────────────────────────────────

/// The current rows of a join are those of its inputs, joined by its condition.
pub proof fn current_rows_of_a_join_are_those_of_its_inputs(
    cols: Seq<char>,
    left_snap: Seq<char>,
    left_alias: Seq<char>,
    join_type: Seq<char>,
    right_snap: Seq<char>,
    right_alias: Seq<char>,
    cond: Seq<char>,
)
    ensures
        ({
            let t = join_snapshot_sql(
                cols,
                left_snap,
                left_alias,
                join_type,
                right_snap,
                right_alias,
                cond,
            );
            &&& text::occurs(
                t,
                "FROM "@ + left_snap + " "@ + left_alias + " "@ + join_type + " "@ + right_snap
                    + " "@ + right_alias + " ON "@ + cond + ")"@,
            )
        }),
{
    reveal_strlit(" ");
    reveal_strlit(")");
    reveal_strlit(" ON ");
    reveal_strlit("FROM ");
    reveal_strlit(" FROM ");
    reveal_strlit("(SELECT ");
    let t = join_snapshot_sql(
        cols,
        left_snap,
        left_alias,
        join_type,
        right_snap,
        right_alias,
        cond,
    );
    let f0 = "FROM "@ + left_snap + " "@ + left_alias + " "@ + join_type + " "@ + right_snap + " "@
        + right_alias + " ON "@ + cond + ")"@;
    let k0 = 9int + cols.len();
    assert(t.subrange(k0, k0 + f0.len()) =~= f0);
    assert(text::occurs_at(t, f0, k0));
}

/// The current rows of a filter are those of its input that satisfy it.
pub proof fn current_rows_of_a_filter_satisfy_it(
    child: Seq<char>,
    alias: Seq<char>,
    predicate: Seq<char>,
)
    ensures
        ({
            let t = filter_snapshot_sql(child, alias, predicate);
            &&& text::occurs(
                t,
                "FROM "@ + child + " "@ + alias + " WHERE "@ + predicate + ")"@,
            )
        }),
{
    reveal_strlit(" ");
    reveal_strlit(")");
    reveal_strlit("FROM ");
    reveal_strlit(" WHERE ");
    reveal_strlit("(SELECT * FROM ");
    let t = filter_snapshot_sql(child, alias, predicate);
    let f0 = "FROM "@ + child + " "@ + alias + " WHERE "@ + predicate + ")"@;
    let k0 = 10int;
    assert(t.subrange(k0, k0 + f0.len()) =~= f0);
    assert(text::occurs_at(t, f0, k0));
}

} // verus!
