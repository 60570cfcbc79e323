//! Queries of the terms of recursive common table expressions.
//!
//! A recursive term is written out as SQL in four ways, which differ in what
//! stands for its tables and for its references to the expression that it
//! defines: the tables and one name ([`generate_query_sql`]), the storage
//! table and a deletion cascade ([`generate_query_sql_cascade`]), inserts of
//! the change buffers and the storage table
//! ([`generate_query_sql_with_change_buffers`]), or the tables and a name for
//! each reference ([`generate_query_sql_targeted`]).

use vstd::prelude::*;
use vstd::string::*;

use crate::dvm::diff;
use crate::dvm::diff::{col_list, quote_ident, wrap_cols, DiffContext, DiffEnv};
use crate::dvm::parser;
use crate::dvm::parser::{names_of, Expr, OpTree};
use crate::error::{ErrorView, PgTrickleError};
use crate::sql_builder;
use crate::sql_builder::qualified;
use crate::text;
use crate::text::{debug_str, join_texts, text_eq};
use crate::text_map;
use crate::text_map::TextMap;

verus! {

// ── SQL text or a failure ──────────────────────────────────────────────

/// SQL text, or the reason why there is none.
pub type Sql = Result<Seq<char>, ErrorView>;

/// The view of generated SQL.
pub open spec fn sql_view(r: Result<String, PgTrickleError>) -> Sql {
    match r {
        Ok(s) => Ok(s@),
        Err(e) => Err(e@),
    }
}

/// The view of SQL that may be left out.
pub open spec fn opt_sql_view(r: Result<Option<String>, PgTrickleError>) -> Result<
    Option<Seq<char>>,
    ErrorView,
> {
    match r {
        Ok(s) => Ok(text::opt_text(s)),
        Err(e) => Err(e@),
    }
}

// ── Self-references ────────────────────────────────────────────────────

/// How often a term refers to the expression that it defines.  A recursive
/// expression within it refers to itself.
pub open spec fn self_refs(op: OpTree) -> nat
    decreases op,
{
    match op {
        OpTree::RecursiveSelfRef { .. } => 1,
        OpTree::InnerJoin { left, right, .. } => self_refs(*left) + self_refs(*right),
        OpTree::LeftJoin { left, right, .. } => self_refs(*left) + self_refs(*right),
        OpTree::FullJoin { left, right, .. } => self_refs(*left) + self_refs(*right),
        OpTree::SemiJoin { left, right, .. } => self_refs(*left) + self_refs(*right),
        OpTree::AntiJoin { left, right, .. } => self_refs(*left) + self_refs(*right),
        OpTree::Filter { child, .. } => self_refs(*child),
        OpTree::Project { child, .. } => self_refs(*child),
        OpTree::Distinct { child } => self_refs(*child),
        OpTree::Subquery { child, .. } => self_refs(*child),
        OpTree::Aggregate { child, .. } => self_refs(*child),
        OpTree::Window { child, .. } => self_refs(*child),
        OpTree::ScalarSubquery { subquery, child, .. } => self_refs(*subquery) + self_refs(*child),
        _ => 0,
    }
}

/// The aliases under which a term refers to the expression that it defines,
/// from left to right.
pub open spec fn self_ref_aliases(op: OpTree) -> Seq<Seq<char>>
    decreases op,
{
    match op {
        OpTree::RecursiveSelfRef { alias, .. } => seq![alias@],
        OpTree::InnerJoin { left, right, .. } => self_ref_aliases(*left) + self_ref_aliases(
            *right,
        ),
        OpTree::LeftJoin { left, right, .. } => self_ref_aliases(*left) + self_ref_aliases(*right),
        OpTree::FullJoin { left, right, .. } => self_ref_aliases(*left) + self_ref_aliases(*right),
        OpTree::SemiJoin { left, right, .. } => self_ref_aliases(*left) + self_ref_aliases(*right),
        OpTree::AntiJoin { left, right, .. } => self_ref_aliases(*left) + self_ref_aliases(*right),
        OpTree::Filter { child, .. } => self_ref_aliases(*child),
        OpTree::Project { child, .. } => self_ref_aliases(*child),
        OpTree::Distinct { child } => self_ref_aliases(*child),
        OpTree::Subquery { child, .. } => self_ref_aliases(*child),
        OpTree::Aggregate { child, .. } => self_ref_aliases(*child),
        OpTree::Window { child, .. } => self_ref_aliases(*child),
        OpTree::ScalarSubquery { subquery, child, .. } => self_ref_aliases(*subquery)
            + self_ref_aliases(*child),
        _ => Seq::empty(),
    }
}

/// There is one alias for each self-reference.
pub proof fn one_alias_per_self_ref(op: OpTree)
    ensures
        self_ref_aliases(op).len() == self_refs(op),
    decreases op,
{
    match op {
        OpTree::InnerJoin { left, right, .. } => {
            one_alias_per_self_ref(*left);
            one_alias_per_self_ref(*right);
        },
        OpTree::LeftJoin { left, right, .. } => {
            one_alias_per_self_ref(*left);
            one_alias_per_self_ref(*right);
        },
        OpTree::FullJoin { left, right, .. } => {
            one_alias_per_self_ref(*left);
            one_alias_per_self_ref(*right);
        },
        OpTree::SemiJoin { left, right, .. } => {
            one_alias_per_self_ref(*left);
            one_alias_per_self_ref(*right);
        },
        OpTree::AntiJoin { left, right, .. } => {
            one_alias_per_self_ref(*left);
            one_alias_per_self_ref(*right);
        },
        OpTree::Filter { child, .. } => one_alias_per_self_ref(*child),
        OpTree::Project { child, .. } => one_alias_per_self_ref(*child),
        OpTree::Distinct { child } => one_alias_per_self_ref(*child),
        OpTree::Subquery { child, .. } => one_alias_per_self_ref(*child),
        OpTree::Aggregate { child, .. } => one_alias_per_self_ref(*child),
        OpTree::Window { child, .. } => one_alias_per_self_ref(*child),
        OpTree::ScalarSubquery { subquery, child, .. } => {
            one_alias_per_self_ref(*subquery);
            one_alias_per_self_ref(*child);
        },
        _ => {},
    }
}

/// The aliases under which a term refers to the expression that it defines.
pub fn collect_self_ref_aliases(op: &OpTree) -> (r: Vec<String>)
    ensures
        text::texts(r@) == self_ref_aliases(*op),
    decreases op,
{
    match op {
        OpTree::RecursiveSelfRef { alias, .. } => {
            let mut r: Vec<String> = Vec::new();
            r.push(alias.clone());
            assert(text::texts(r@) =~= seq![alias@]);
            r
        },
        OpTree::InnerJoin { left, right, .. } => {
            parser::both(collect_self_ref_aliases(left), collect_self_ref_aliases(right))
        },
        OpTree::LeftJoin { left, right, .. } => {
            parser::both(collect_self_ref_aliases(left), collect_self_ref_aliases(right))
        },
        OpTree::FullJoin { left, right, .. } => {
            parser::both(collect_self_ref_aliases(left), collect_self_ref_aliases(right))
        },
        OpTree::SemiJoin { left, right, .. } => {
            parser::both(collect_self_ref_aliases(left), collect_self_ref_aliases(right))
        },
        OpTree::AntiJoin { left, right, .. } => {
            parser::both(collect_self_ref_aliases(left), collect_self_ref_aliases(right))
        },
        OpTree::Filter { child, .. } => collect_self_ref_aliases(child),
        OpTree::Project { child, .. } => collect_self_ref_aliases(child),
        OpTree::Distinct { child } => collect_self_ref_aliases(child),
        OpTree::Subquery { child, .. } => collect_self_ref_aliases(child),
        OpTree::Aggregate { child, .. } => collect_self_ref_aliases(child),
        OpTree::Window { child, .. } => collect_self_ref_aliases(child),
        OpTree::ScalarSubquery { subquery, child, .. } => {
            parser::both(collect_self_ref_aliases(subquery), collect_self_ref_aliases(child))
        },
        _ => {
            let r: Vec<String> = Vec::new();
            assert(text::texts(r@) =~= Seq::empty());
            r
        },
    }
}

/// How often a term refers to the expression that it defines: once for linear
/// recursion.
pub fn count_self_refs(op: &OpTree) -> (r: usize)
    ensures
        r == self_refs(*op),
{
    let aliases = collect_self_ref_aliases(op);
    proof {
        one_alias_per_self_ref(*op);
        assert(text::texts(aliases@).len() == aliases@.len());
    }
    aliases.len()
}

// ── Pieces of queries ──────────────────────────────────────────────────

/// Columns of a table.
pub open spec fn table_select_sql(cols: Seq<char>, table: Seq<char>, alias: Seq<char>) -> Seq<char> {
    "SELECT "@ + cols + "\n\
        FROM "@ + table + " AS "@ + alias
}

/// Columns of a table.
fn table_select_query(cols: &str, table: &str, alias: &str) -> (r: String)
    ensures
        r@ == table_select_sql(cols@, table@, alias@),
{
    let mut r = "SELECT ".to_string();
    r.append(cols);
    r.append("\n\
        FROM ");
    r.append(table);
    r.append(" AS ");
    r.append(alias);
    r
}

/// Rows of a query that satisfy a predicate.
pub open spec fn filter_select_sql(child: Seq<char>, predicate: Seq<char>) -> Seq<char> {
    "SELECT * FROM (\n"@ + child + "\n\
        ) __f\n\
        WHERE "@ + predicate
}

/// Rows of a query that satisfy a predicate.
fn filter_select_query(child: &str, predicate: &str) -> (r: String)
    ensures
        r@ == filter_select_sql(child@, predicate@),
{
    let mut r = "SELECT * FROM (\n".to_string();
    r.append(child);
    r.append("\n\
        ) __f\n\
        WHERE ");
    r.append(predicate);
    r
}

/// Projections of a query.
pub open spec fn project_select_sql(projections: Seq<char>, child: Seq<char>) -> Seq<char> {
    "SELECT "@ + projections + "\n\
        FROM (\n"@ + child + "\n\
        ) __p"@
}

/// Projections of a query.
fn project_select_query(projections: &str, child: &str) -> (r: String)
    ensures
        r@ == project_select_sql(projections@, child@),
{
    let mut r = "SELECT ".to_string();
    r.append(projections);
    r.append("\n\
        FROM (\n");
    r.append(child);
    r.append("\n\
        ) __p");
    r
}

/// Columns of a join.
pub open spec fn join_select_sql(
    cols: Seq<char>,
    left: Seq<char>,
    kind: Seq<char>,
    right: Seq<char>,
    cond: Seq<char>,
) -> Seq<char> {
    "SELECT "@ + cols + "\n\
        FROM "@ + left + "\n"@ + kind + " "@ + right + "\n  \
        ON "@ + cond
}

/// Columns of a join.
fn join_select_query(cols: &str, left: &str, kind: &str, right: &str, cond: &str) -> (r: String)
    ensures
        r@ == join_select_sql(cols@, left@, kind@, right@, cond@),
{
    let mut r = "SELECT ".to_string();
    r.append(cols);
    r.append("\n\
        FROM ");
    r.append(left);
    r.append("\n");
    r.append(kind);
    r.append(" ");
    r.append(right);
    r.append("\n  \
        ON ");
    r.append(cond);
    r
}

/// Columns of a subquery.
pub open spec fn nested_select_sql(cols: Seq<char>, child: Seq<char>, alias: Seq<char>) -> Seq<char> {
    "SELECT "@ + cols + "\n\
        FROM (\n"@ + child + "\n\
        ) AS "@ + alias
}

/// Columns of a subquery.
fn nested_select_query(cols: &str, child: &str, alias: &str) -> (r: String)
    ensures
        r@ == nested_select_sql(cols@, child@, alias@),
{
    let mut r = "SELECT ".to_string();
    r.append(cols);
    r.append("\n\
        FROM (\n");
    r.append(child);
    r.append("\n\
        ) AS ");
    r.append(alias);
    r
}

/// A table under an alias.
pub open spec fn from_table_sql(table: Seq<char>, alias: Seq<char>) -> Seq<char> {
    table + " AS "@ + alias
}

/// A table under an alias.
fn from_table_query(table: &str, alias: &str) -> (r: String)
    ensures
        r@ == from_table_sql(table@, alias@),
{
    let mut r = table.to_string();
    r.append(" AS ");
    r.append(alias);
    r
}

/// A subquery under an alias.
pub open spec fn from_query_sql(child: Seq<char>, alias: Seq<char>) -> Seq<char> {
    "(\n"@ + child + "\n\
        ) AS "@ + alias
}

/// A subquery under an alias.
fn from_query_query(child: &str, alias: &str) -> (r: String)
    ensures
        r@ == from_query_sql(child@, alias@),
{
    let mut r = "(\n".to_string();
    r.append(child);
    r.append("\n\
        ) AS ");
    r.append(alias);
    r
}

/// A projection: an expression under its name, or the bare name where the
/// expression is just that.
pub open spec fn projection(sql: Seq<char>, alias: Seq<char>) -> Seq<char> {
    if sql == alias {
        sql_builder::ident_text(alias)
    } else {
        sql + " AS "@ + sql_builder::ident_text(alias)
    }
}

/// Projections, as far as there are both expressions and names.
pub open spec fn projections(sqls: Seq<Seq<char>>, aliases: Seq<Seq<char>>) -> Seq<Seq<char>> {
    Seq::new(
        if sqls.len() <= aliases.len() {
            sqls.len()
        } else {
            aliases.len()
        },
        |i: int| projection(sqls[i], aliases[i]),
    )
}

/// The projection list of an operator.
pub open spec fn projection_list(expressions: Seq<Expr>, aliases: Seq<String>) -> Seq<char> {
    text::join(
        projections(parser::sql_all(parser::expr_views(expressions)), text::texts(aliases)),
        ", "@,
    )
}

/// Columns behind a quoted alias.
pub open spec fn cols_of(alias: Seq<char>, cols: Seq<Seq<char>>) -> Seq<Seq<char>> {
    diff::wrapped(sql_builder::ident_text(alias) + "."@, cols, ""@)
}

/// The alias of an operator in a `FROM` clause.
pub open spec fn from_alias(op: OpTree) -> Seq<char> {
    match op {
        OpTree::Scan { alias, .. } => alias@,
        OpTree::RecursiveSelfRef { alias, .. } => alias@,
        OpTree::Subquery { alias, .. } => alias@,
        _ => "__sub"@,
    }
}

/// The columns of an operator in a `FROM` clause.
pub open spec fn select_cols(op: OpTree) -> Seq<Seq<char>> {
    cols_of(from_alias(op), op.spec_columns())
}

/// The columns of two operators in a `FROM` clause.
pub open spec fn both_cols(left: OpTree, right: OpTree) -> Seq<char> {
    text::join(select_cols(left) + select_cols(right), ", "@)
}

/// The projection list of an operator.
fn build_projections(expressions: &Vec<Expr>, aliases: &Vec<String>) -> (r: String)
    ensures
        r@ == projection_list(expressions@, aliases@),
{
    let sqls = parser::exprs_sql(expressions);
    assert(text::texts(sqls@).len() == sqls@.len());
    let ghost all = text::texts(sqls@);
    let len: usize = if sqls.len() <= aliases.len() {
        sqls.len()
    } else {
        aliases.len()
    };
    let mut parts: Vec<String> = Vec::new();
    let mut i: usize = 0;
    while i < len
        invariant
            i <= len <= sqls.len(),
            len <= aliases.len(),
            parts@.len() == i,
            forall|k: int|
                0 <= k < i ==> (#[trigger] parts@[k])@ == projection(sqls@[k]@, aliases@[k]@),
        decreases len - i,
    {
        let alias = quote_ident(aliases[i].as_str());
        if text_eq(sqls[i].as_str(), aliases[i].as_str()) {
            parts.push(alias);
        } else {
            let mut part = sqls[i].clone();
            part.append(" AS ");
            part.append(alias.as_str());
            parts.push(part);
        }
        i += 1;
    }
    assert(text::texts(parts@) =~= projections(all, text::texts(aliases@)));
    join_texts(&parts, ", ")
}

/// Columns behind a quoted alias.
fn build_cols_of(alias: &str, cols: &Vec<String>) -> (r: Vec<String>)
    ensures
        text::texts(r@) == cols_of(alias@, text::texts(cols@)),
{
    let mut before = quote_ident(alias);
    before.append(".");
    wrap_cols(before.as_str(), cols, "")
}

/// Adds the columns of an operator in a `FROM` clause to a list.
pub fn collect_select_cols(op: &OpTree, out: &mut Vec<String>)
    ensures
        text::texts(final(out)@) == text::texts(old(out)@) + select_cols(*op),
{
    let alias = match op {
        OpTree::Scan { alias, .. } => alias.as_str(),
        OpTree::RecursiveSelfRef { alias, .. } => alias.as_str(),
        OpTree::Subquery { alias, .. } => alias.as_str(),
        _ => "__sub",
    };
    let ghost before = out@;
    let mut cols = build_cols_of(alias, &op.output_columns());
    let ghost added = cols@;
    out.append(&mut cols);
    assert(text::texts(out@) =~= text::texts(before) + text::texts(added));
}

/// The columns of two operators in a `FROM` clause.
fn build_both_cols(left: &OpTree, right: &OpTree) -> (r: String)
    ensures
        r@ == both_cols(*left, *right),
{
    let mut cols: Vec<String> = Vec::new();
    assert(text::texts(cols@) =~= Seq::empty());
    collect_select_cols(left, &mut cols);
    collect_select_cols(right, &mut cols);
    assert(text::texts(cols@) =~= select_cols(*left) + select_cols(*right));
    join_texts(&cols, ", ")
}

/// The message for an operator that a generator does not know.
pub open spec fn unsupported_text(
    generator: Seq<char>,
    alias: Seq<char>,
    place: Seq<char>,
) -> Seq<char> {
    generator + ": unsupported OpTree variant "@ + text::debug_text(alias) + place
}

/// The error for an operator that a generator does not know.
fn unsupported(generator: &str, op: &OpTree, place: &str) -> (r: PgTrickleError)
    ensures
        r@ == ErrorView::InternalError(unsupported_text(generator@, op.spec_alias(), place@)),
{
    let mut m = generator.to_string();
    m.append(": unsupported OpTree variant ");
    m.append(debug_str(op.alias()).as_str());
    m.append(place);
    PgTrickleError::InternalError(m)
}

// ── Queries of terms ───────────────────────────────────────────────────

/// The failure of a self-reference that nothing stands for.
pub open spec fn no_target() -> ErrorView {
    ErrorView::InternalError("RecursiveSelfRef encountered without replacement target"@)
}

/// A join of two `FROM` items, or the first failure among them.
pub open spec fn joined(
    cols: Seq<char>,
    left: Sql,
    kind: Seq<char>,
    right: Sql,
    cond: Seq<char>,
) -> Sql {
    match left {
        Ok(l) => match right {
            Ok(r) => Ok(join_select_sql(cols, l, kind, r, cond)),
            Err(e) => Err(e),
        },
        Err(e) => Err(e),
    }
}

/// The query of a term in which self-references read `target`.
///
/// A projection of a join names the tables of the join, so the join is not put
/// into a subquery there.
pub open spec fn query(op: OpTree, target: Option<Seq<char>>) -> Sql
    decreases op, 0nat,
{
    match op {
        OpTree::Scan { schema, table_name, alias, columns, .. } => Ok(
            table_select_sql(
                text::join(cols_of(alias@, parser::column_names(columns@)), ", "@),
                sql_builder::qualified_text(schema@, table_name@),
                sql_builder::ident_text(alias@),
            ),
        ),
        OpTree::RecursiveSelfRef { alias, columns, .. } => match target {
            Some(t) => Ok(
                table_select_sql(
                    text::join(cols_of(alias@, text::texts(columns@)), ", "@),
                    t,
                    sql_builder::ident_text(alias@),
                ),
            ),
            None => Err(no_target()),
        },
        OpTree::Filter { predicate, child } => match query(*child, target) {
            Ok(c) => Ok(filter_select_sql(c, predicate@.sql())),
            Err(e) => Err(e),
        },
        OpTree::Project { expressions, aliases, child } => {
            let projs = projection_list(expressions@, aliases@);
            match *child {
                OpTree::InnerJoin { condition, left, right } => joined(
                    projs,
                    from_item(*left, target),
                    "JOIN"@,
                    from_item(*right, target),
                    condition@.sql(),
                ),
                OpTree::LeftJoin { condition, left, right } => joined(
                    projs,
                    from_item(*left, target),
                    "LEFT JOIN"@,
                    from_item(*right, target),
                    condition@.sql(),
                ),
                _ => match query(*child, target) {
                    Ok(c) => Ok(project_select_sql(projs, c)),
                    Err(e) => Err(e),
                },
            }
        },
        OpTree::InnerJoin { condition, left, right } => joined(
            both_cols(*left, *right),
            from_item(*left, target),
            "JOIN"@,
            from_item(*right, target),
            condition@.sql(),
        ),
        OpTree::LeftJoin { condition, left, right } => joined(
            both_cols(*left, *right),
            from_item(*left, target),
            "LEFT JOIN"@,
            from_item(*right, target),
            condition@.sql(),
        ),
        OpTree::Subquery { alias, child, .. } => match query(*child, target) {
            Ok(c) => Ok(
                nested_select_sql(
                    text::join(cols_of(alias@, child.spec_columns()), ", "@),
                    c,
                    sql_builder::ident_text(alias@),
                ),
            ),
            Err(e) => Err(e),
        },
        _ => Err(
            ErrorView::InternalError(
                unsupported_text(
                    "generate_query_sql"@,
                    op.spec_alias(),
                    " in recursive term"@,
                ),
            ),
        ),
    }
}

/// A term as an item of a `FROM` clause.
pub open spec fn from_item(op: OpTree, target: Option<Seq<char>>) -> Sql
    decreases op, 1nat,
{
    match op {
        OpTree::Scan { schema, table_name, alias, .. } => Ok(
            from_table_sql(
                sql_builder::qualified_text(schema@, table_name@),
                sql_builder::ident_text(alias@),
            ),
        ),
        OpTree::RecursiveSelfRef { alias, .. } => match target {
            Some(t) => Ok(from_table_sql(t, sql_builder::ident_text(alias@))),
            None => Err(no_target()),
        },
        OpTree::Subquery { alias, child, .. } => match query(*child, target) {
            Ok(c) => Ok(from_query_sql(c, sql_builder::ident_text(alias@))),
            Err(e) => Err(e),
        },
        _ => match query(op, target) {
            Ok(c) => Ok(from_query_sql(c, "__sub"@)),
            Err(e) => Err(e),
        },
    }
}

/// The query of a term in which self-references read a table or CTE.
///
/// Scans, filters, projections, inner and left joins, subqueries and
/// self-references are known; anything else is refused, and so is a
/// self-reference where there is nothing for it to read.
pub fn generate_query_sql(op: &OpTree, self_ref_replacement: Option<&str>) -> (r: Result<
    String,
    PgTrickleError,
>)
    ensures
        sql_view(r) == query(*op, text_map::found(self_ref_replacement)),
    decreases op, 0nat,
{
    match op {
        OpTree::Scan { schema, table_name, alias, columns, .. } => {
            let cols = build_cols_of(alias.as_str(), &names_of(columns));
            Ok(
                table_select_query(
                    join_texts(&cols, ", ").as_str(),
                    qualified(schema.as_str(), table_name.as_str()).as_str(),
                    quote_ident(alias.as_str()).as_str(),
                ),
            )
        },
        OpTree::RecursiveSelfRef { alias, columns, .. } => match self_ref_replacement {
            Some(t) => {
                let cols = build_cols_of(alias.as_str(), columns);
                Ok(
                    table_select_query(
                        join_texts(&cols, ", ").as_str(),
                        t,
                        quote_ident(alias.as_str()).as_str(),
                    ),
                )
            },
            None => Err(
                PgTrickleError::InternalError(
                    "RecursiveSelfRef encountered without replacement target".to_string(),
                ),
            ),
        },
        OpTree::Filter { predicate, child } => match generate_query_sql(
            child,
            self_ref_replacement,
        ) {
            Ok(c) => Ok(filter_select_query(c.as_str(), predicate.to_sql().as_str())),
            Err(e) => Err(e),
        },
        OpTree::Project { expressions, aliases, child } => {
            let projs = build_projections(expressions, aliases);
            match &**child {
                OpTree::InnerJoin { condition, left, right } => {
                    let l = match generate_from_sql(left, self_ref_replacement) {
                        Ok(s) => s,
                        Err(e) => {
                            return Err(e);
                        },
                    };
                    let r = match generate_from_sql(right, self_ref_replacement) {
                        Ok(s) => s,
                        Err(e) => {
                            return Err(e);
                        },
                    };
                    Ok(
                join_select_query(
                    projs.as_str(),
                    l.as_str(),
                    "JOIN",
                    r.as_str(),
                    condition.to_sql().as_str(),
                ),
            )
                },
                OpTree::LeftJoin { condition, left, right } => {
                    let l = match generate_from_sql(left, self_ref_replacement) {
                        Ok(s) => s,
                        Err(e) => {
                            return Err(e);
                        },
                    };
                    let r = match generate_from_sql(right, self_ref_replacement) {
                        Ok(s) => s,
                        Err(e) => {
                            return Err(e);
                        },
                    };
                    Ok(
                join_select_query(
                    projs.as_str(),
                    l.as_str(),
                    "LEFT JOIN",
                    r.as_str(),
                    condition.to_sql().as_str(),
                ),
            )
                },
                _ => match generate_query_sql(child, self_ref_replacement) {
                    Ok(c) => Ok(project_select_query(projs.as_str(), c.as_str())),
                    Err(e) => Err(e),
                },
            }
        },
        OpTree::InnerJoin { condition, left, right } => {
            let l = match generate_from_sql(left, self_ref_replacement) {
                Ok(s) => s,
                Err(e) => {
                    return Err(e);
                },
            };
            let r = match generate_from_sql(right, self_ref_replacement) {
                Ok(s) => s,
                Err(e) => {
                    return Err(e);
                },
            };
            let cols = build_both_cols(left, right);
            Ok(
                join_select_query(
                    cols.as_str(),
                    l.as_str(),
                    "JOIN",
                    r.as_str(),
                    condition.to_sql().as_str(),
                ),
            )
        },
        OpTree::LeftJoin { condition, left, right } => {
            let l = match generate_from_sql(left, self_ref_replacement) {
                Ok(s) => s,
                Err(e) => {
                    return Err(e);
                },
            };
            let r = match generate_from_sql(right, self_ref_replacement) {
                Ok(s) => s,
                Err(e) => {
                    return Err(e);
                },
            };
            let cols = build_both_cols(left, right);
            Ok(
                join_select_query(
                    cols.as_str(),
                    l.as_str(),
                    "LEFT JOIN",
                    r.as_str(),
                    condition.to_sql().as_str(),
                ),
            )
        },
        OpTree::Subquery { alias, child, .. } => match generate_query_sql(
            child,
            self_ref_replacement,
        ) {
            Ok(c) => {
                let cols = build_cols_of(alias.as_str(), &child.output_columns());
                Ok(
                    nested_select_query(
                        join_texts(&cols, ", ").as_str(),
                        c.as_str(),
                        quote_ident(alias.as_str()).as_str(),
                    ),
                )
            },
            Err(e) => Err(e),
        },
        _ => Err(unsupported("generate_query_sql", op, " in recursive term")),
    }
}

/// A term as an item of a `FROM` clause.
pub fn generate_from_sql(op: &OpTree, self_ref_replacement: Option<&str>) -> (r: Result<
    String,
    PgTrickleError,
>)
    ensures
        sql_view(r) == from_item(*op, text_map::found(self_ref_replacement)),
    decreases op, 1nat,
{
    match op {
        OpTree::Scan { schema, table_name, alias, .. } => Ok(
            from_table_query(
                qualified(schema.as_str(), table_name.as_str()).as_str(),
                quote_ident(alias.as_str()).as_str(),
            ),
        ),
        OpTree::RecursiveSelfRef { alias, .. } => match self_ref_replacement {
            Some(t) => Ok(from_table_query(t, quote_ident(alias.as_str()).as_str())),
            None => Err(
                PgTrickleError::InternalError(
                    "RecursiveSelfRef encountered without replacement target".to_string(),
                ),
            ),
        },
        OpTree::Subquery { alias, child, .. } => match generate_query_sql(
            child,
            self_ref_replacement,
        ) {
            Ok(c) => Ok(from_query_query(c.as_str(), quote_ident(alias.as_str()).as_str())),
            Err(e) => Err(e),
        },
        _ => match generate_query_sql(op, self_ref_replacement) {
            Ok(c) => Ok(from_query_query(c.as_str(), "__sub")),
            Err(e) => Err(e),
        },
    }
}

// ── Deletion cascades ──────────────────────────────────────────────────

/// The query of a term in which tables are read from the storage table and
/// self-references from a cascade of deleted rows.
pub open spec fn cascade_query(op: OpTree, cascade: Seq<char>, storage: Seq<char>) -> Sql
    decreases op, 0nat,
{
    match op {
        OpTree::InnerJoin { condition, left, right } => joined(
            both_cols(*left, *right),
            cascade_item(*left, cascade, storage),
            "JOIN"@,
            cascade_item(*right, cascade, storage),
            condition@.sql(),
        ),
        OpTree::LeftJoin { condition, left, right } => joined(
            both_cols(*left, *right),
            cascade_item(*left, cascade, storage),
            "LEFT JOIN"@,
            cascade_item(*right, cascade, storage),
            condition@.sql(),
        ),
        OpTree::Project { expressions, aliases, child } => match cascade_query(
            *child,
            cascade,
            storage,
        ) {
            Ok(c) => Ok(project_select_sql(projection_list(expressions@, aliases@), c)),
            Err(e) => Err(e),
        },
        OpTree::Filter { predicate, child } => match cascade_query(*child, cascade, storage) {
            Ok(c) => Ok(filter_select_sql(c, predicate@.sql())),
            Err(e) => Err(e),
        },
        _ => Err(
            ErrorView::InternalError(
                unsupported_text("generate_query_sql_cascade"@, op.spec_alias(), ""@),
            ),
        ),
    }
}

/// A term as an item of a `FROM` clause of a deletion cascade.
pub open spec fn cascade_item(op: OpTree, cascade: Seq<char>, storage: Seq<char>) -> Sql
    decreases op, 1nat,
{
    match op {
        OpTree::Scan { alias, .. } => Ok(from_table_sql(storage, sql_builder::ident_text(alias@))),
        OpTree::RecursiveSelfRef { alias, .. } => Ok(
            from_table_sql(cascade, sql_builder::ident_text(alias@)),
        ),
        OpTree::Subquery { alias, child, .. } => match cascade_query(*child, cascade, storage) {
            Ok(c) => Ok(from_query_sql(c, sql_builder::ident_text(alias@))),
            Err(e) => Err(e),
        },
        _ => match cascade_query(op, cascade, storage) {
            Ok(c) => Ok(from_query_sql(c, "__sub"@)),
            Err(e) => Err(e),
        },
    }
}

/// The recursive term of a deletion cascade: stored rows whose parents are in
/// the cascade.
pub fn generate_cascade_propagation(
    recursive: &OpTree,
    cascade_cte: &str,
    st_table: &str,
) -> (r: Result<String, PgTrickleError>)
    ensures
        sql_view(r) == cascade_query(*recursive, cascade_cte@, st_table@),
{
    generate_query_sql_cascade(recursive, cascade_cte, st_table)
}

/// The query of a term over the storage table and a deletion cascade.
pub fn generate_query_sql_cascade(op: &OpTree, cascade_cte: &str, st_table: &str) -> (r: Result<
    String,
    PgTrickleError,
>)
    ensures
        sql_view(r) == cascade_query(*op, cascade_cte@, st_table@),
    decreases op, 0nat,
{
    match op {
        OpTree::InnerJoin { condition, left, right } => {
            let l = match generate_cascade_from(left, cascade_cte, st_table) {
                Ok(s) => s,
                Err(e) => {
                    return Err(e);
                },
            };
            let r = match generate_cascade_from(right, cascade_cte, st_table) {
                Ok(s) => s,
                Err(e) => {
                    return Err(e);
                },
            };
            Ok(
                join_select_query(
                    build_both_cols(left, right).as_str(),
                    l.as_str(),
                    "JOIN",
                    r.as_str(),
                    condition.to_sql().as_str(),
                ),
            )
        },
        OpTree::LeftJoin { condition, left, right } => {
            let l = match generate_cascade_from(left, cascade_cte, st_table) {
                Ok(s) => s,
                Err(e) => {
                    return Err(e);
                },
            };
            let r = match generate_cascade_from(right, cascade_cte, st_table) {
                Ok(s) => s,
                Err(e) => {
                    return Err(e);
                },
            };
            Ok(
                join_select_query(
                    build_both_cols(left, right).as_str(),
                    l.as_str(),
                    "LEFT JOIN",
                    r.as_str(),
                    condition.to_sql().as_str(),
                ),
            )
        },
        OpTree::Project { expressions, aliases, child } => match generate_query_sql_cascade(
            child,
            cascade_cte,
            st_table,
        ) {
            Ok(c) => Ok(
                project_select_query(
                    build_projections(expressions, aliases).as_str(),
                    c.as_str(),
                ),
            ),
            Err(e) => Err(e),
        },
        OpTree::Filter { predicate, child } => match generate_query_sql_cascade(
            child,
            cascade_cte,
            st_table,
        ) {
            Ok(c) => Ok(filter_select_query(c.as_str(), predicate.to_sql().as_str())),
            Err(e) => Err(e),
        },
        _ => Err(unsupported("generate_query_sql_cascade", op, "")),
    }
}

/// A term as an item of a `FROM` clause of a deletion cascade.
pub fn generate_cascade_from(op: &OpTree, cascade_cte: &str, st_table: &str) -> (r: Result<
    String,
    PgTrickleError,
>)
    ensures
        sql_view(r) == cascade_item(*op, cascade_cte@, st_table@),
    decreases op, 1nat,
{
    match op {
        OpTree::Scan { alias, .. } => Ok(
            from_table_query(st_table, quote_ident(alias.as_str()).as_str()),
        ),
        OpTree::RecursiveSelfRef { alias, .. } => Ok(
            from_table_query(cascade_cte, quote_ident(alias.as_str()).as_str()),
        ),
        OpTree::Subquery { alias, child, .. } => match generate_query_sql_cascade(
            child,
            cascade_cte,
            st_table,
        ) {
            Ok(c) => Ok(from_query_query(c.as_str(), quote_ident(alias.as_str()).as_str())),
            Err(e) => Err(e),
        },
        _ => match generate_query_sql_cascade(op, cascade_cte, st_table) {
            Ok(c) => Ok(from_query_query(c.as_str(), "__sub")),
            Err(e) => Err(e),
        },
    }
}

/// Adds the columns of an operator in a deletion cascade to a list.
pub fn collect_cascade_cols(op: &OpTree, out: &mut Vec<String>)
    ensures
        text::texts(final(out)@) == text::texts(old(out)@) + select_cols(*op),
{
    collect_select_cols(op, out);
}

// ── Change buffers ─────────────────────────────────────────────────────

/// The rows that were inserted into a table.
pub open spec fn inserted_rows_sql(
    cols: Seq<char>,
    change_table: Seq<char>,
    record: Seq<char>,
    prev: Seq<char>,
    alias: Seq<char>,
) -> Seq<char> {
    "(SELECT "@ + cols + " FROM "@ + change_table + " c, LATERAL jsonb_populate_record("@ + record
        + ", c.row_data) r WHERE c.action = 'I' AND c.lsn > '"@ + prev + "'::pg_lsn) AS "@ + alias
}

/// The rows that were inserted into a table.
fn inserted_rows_query(
    cols: &str,
    change_table: &str,
    record: &str,
    prev: &str,
    alias: &str,
) -> (r: String)
    ensures
        r@ == inserted_rows_sql(cols@, change_table@, record@, prev@, alias@),
{
    let mut r = "(SELECT ".to_string();
    r.append(cols);
    r.append(" FROM ");
    r.append(change_table);
    r.append(" c, LATERAL jsonb_populate_record(");
    r.append(record);
    r.append(", c.row_data) r WHERE c.action = 'I' AND c.lsn > '");
    r.append(prev);
    r.append("'::pg_lsn) AS ");
    r.append(alias);
    r
}

/// A term as an item of a `FROM` clause: inserted rows for a table, the
/// storage table for a self-reference.
pub open spec fn change_item(env: DiffEnv, op: OpTree, storage: Seq<char>) -> Sql {
    match op {
        OpTree::Scan { table_oid, schema, table_name, alias, columns, .. } => Ok(
            inserted_rows_sql(
                text::join(diff::wrapped("r."@, parser::column_names(columns@), ""@), ", "@),
                env.change_table(table_oid),
                "NULL::"@ + sql_builder::qualified_text(schema@, table_name@),
                env.prev_lsn(table_oid),
                sql_builder::ident_text(alias@),
            ),
        ),
        OpTree::RecursiveSelfRef { alias, .. } => Ok(
            from_table_sql(storage, sql_builder::ident_text(alias@)),
        ),
        _ => match query(op, Some(storage)) {
            Ok(c) => Ok(from_query_sql(c, "__sub"@)),
            Err(e) => Err(e),
        },
    }
}

/// Columns of an item of a `FROM` clause.
pub open spec fn item_select_sql(cols: Seq<char>, item: Seq<char>) -> Seq<char> {
    "SELECT "@ + cols + "\n\
        FROM "@ + item
}

/// Columns of an item of a `FROM` clause.
fn item_select_query(cols: &str, item: &str) -> (r: String)
    ensures
        r@ == item_select_sql(cols@, item@),
{
    let mut r = "SELECT ".to_string();
    r.append(cols);
    r.append("\n\
        FROM ");
    r.append(item);
    r
}

/// Whether a term can be written as a query: whether the operator below its
/// filters, projections and named subqueries is a table, a self-reference or an
/// inner or left join.
pub open spec fn writable(op: OpTree) -> bool
    decreases op,
{
    match op {
        OpTree::Scan { .. } => true,
        OpTree::RecursiveSelfRef { .. } => true,
        OpTree::InnerJoin { .. } => true,
        OpTree::LeftJoin { .. } => true,
        OpTree::Filter { child, .. } => writable(*child),
        OpTree::Project { child, .. } => writable(*child),
        OpTree::Subquery { child, .. } => writable(*child),
        _ => false,
    }
}

/// Whether a term can be written as a query.
fn is_writable(op: &OpTree) -> (r: bool)
    ensures
        r == writable(*op),
    decreases op,
{
    match op {
        OpTree::Scan { .. } => true,
        OpTree::RecursiveSelfRef { .. } => true,
        OpTree::InnerJoin { .. } => true,
        OpTree::LeftJoin { .. } => true,
        OpTree::Filter { child, .. } => is_writable(child),
        OpTree::Project { child, .. } => is_writable(child),
        OpTree::Subquery { child, .. } => is_writable(child),
        _ => false,
    }
}

/// A term that cannot be written as a query has none.
pub proof fn unwritable_has_no_query(op: OpTree, target: Option<Seq<char>>)
    requires
        !writable(op),
    ensures
        query(op, target) is Err,
    decreases op,
{
    match op {
        OpTree::Filter { child, .. } => unwritable_has_no_query(*child, target),
        OpTree::Project { child, .. } => unwritable_has_no_query(*child, target),
        OpTree::Subquery { child, .. } => unwritable_has_no_query(*child, target),
        _ => {},
    }
}

/// The query of a term over inserted rows and the storage table.
pub open spec fn change_rows(env: DiffEnv, op: OpTree, storage: Seq<char>) -> Sql
    decreases op,
{
    match op {
        OpTree::Scan { alias, columns, .. } => match change_item(env, op, storage) {
            Ok(item) => Ok(
                item_select_sql(
                    text::join(cols_of(alias@, parser::column_names(columns@)), ", "@),
                    item,
                ),
            ),
            Err(e) => Err(e),
        },
        OpTree::InnerJoin { condition, left, right } => joined(
            both_cols(*left, *right),
            change_item(env, *left, storage),
            "JOIN"@,
            change_item(env, *right, storage),
            condition@.sql(),
        ),
        OpTree::LeftJoin { condition, left, right } => joined(
            both_cols(*left, *right),
            change_item(env, *left, storage),
            "LEFT JOIN"@,
            change_item(env, *right, storage),
            condition@.sql(),
        ),
        OpTree::Project { expressions, aliases, child } => {
            let projs = projection_list(expressions@, aliases@);
            match *child {
                OpTree::InnerJoin { condition, left, right } => joined(
                    projs,
                    change_item(env, *left, storage),
                    "JOIN"@,
                    change_item(env, *right, storage),
                    condition@.sql(),
                ),
                OpTree::LeftJoin { condition, left, right } => joined(
                    projs,
                    change_item(env, *left, storage),
                    "LEFT JOIN"@,
                    change_item(env, *right, storage),
                    condition@.sql(),
                ),
                _ => match change_rows(env, *child, storage) {
                    Ok(c) => Ok(project_select_sql(projs, c)),
                    Err(e) => Err(e),
                },
            }
        },
        OpTree::Filter { predicate, child } => match change_rows(env, *child, storage) {
            Ok(c) => Ok(filter_select_sql(c, predicate@.sql())),
            Err(e) => Err(e),
        },
        OpTree::Subquery { alias, child, .. } => match change_rows(env, *child, storage) {
            Ok(c) => Ok(
                nested_select_sql(
                    text::join(cols_of(alias@, child.spec_columns()), ", "@),
                    c,
                    sql_builder::ident_text(alias@),
                ),
            ),
            Err(e) => Err(e),
        },
        _ => query(op, Some(storage)),
    }
}

/// The query of a term over inserted rows and the storage table.  There is
/// none if and only if the term has no base table or cannot be written as a
/// query.
pub open spec fn change_query(env: DiffEnv, op: OpTree, storage: Seq<char>) -> Result<
    Option<Seq<char>>,
    ErrorView,
> {
    if op.spec_sources().len() == 0 || !writable(op) {
        Ok(None)
    } else {
        match change_rows(env, op, storage) {
            Ok(s) => Ok(Some(s)),
            Err(e) => Err(e),
        }
    }
}

/// A term as an item of a `FROM` clause over inserted rows.
///
/// The columns of inserted rows have the types of the table.
pub fn generate_change_buffer_from(ctx: &DiffContext, op: &OpTree, st_table: &str) -> (r: Result<
    String,
    PgTrickleError,
>)
    ensures
        sql_view(r) == change_item(ctx.env(), *op, st_table@),
{
    match op {
        OpTree::Scan { table_oid, schema, table_name, alias, columns, .. } => {
            let mut record = "NULL::".to_string();
            record.append(qualified(schema.as_str(), table_name.as_str()).as_str());
            Ok(
                inserted_rows_query(
                    join_texts(&wrap_cols("r.", &names_of(columns), ""), ", ").as_str(),
                    ctx.change_table(*table_oid).as_str(),
                    record.as_str(),
                    ctx.get_prev_lsn(*table_oid).as_str(),
                    quote_ident(alias.as_str()).as_str(),
                ),
            )
        },
        OpTree::RecursiveSelfRef { alias, .. } => Ok(
            from_table_query(st_table, quote_ident(alias.as_str()).as_str()),
        ),
        _ => match generate_query_sql(op, Some(st_table)) {
            Ok(c) => Ok(from_query_query(c.as_str(), "__sub")),
            Err(e) => Err(e),
        },
    }
}

/// The query of a term over inserted rows and the storage table.
fn build_change_rows(ctx: &DiffContext, op: &OpTree, st_table: &str) -> (r: Result<
    String,
    PgTrickleError,
>)
    ensures
        sql_view(r) == change_rows(ctx.env(), *op, st_table@),
    decreases op,
{
    match op {
        OpTree::Scan { alias, columns, .. } => match generate_change_buffer_from(
            ctx,
            op,
            st_table,
        ) {
            Ok(item) => {
                let cols = build_cols_of(alias.as_str(), &names_of(columns));
                Ok(item_select_query(join_texts(&cols, ", ").as_str(), item.as_str()))
            },
            Err(e) => Err(e),
        },
        OpTree::InnerJoin { condition, left, right } => {
            let l = match generate_change_buffer_from(ctx, left, st_table) {
                Ok(s) => s,
                Err(e) => {
                    return Err(e);
                },
            };
            let r = match generate_change_buffer_from(ctx, right, st_table) {
                Ok(s) => s,
                Err(e) => {
                    return Err(e);
                },
            };
            Ok(
                join_select_query(
                    build_both_cols(left, right).as_str(),
                    l.as_str(),
                    "JOIN",
                    r.as_str(),
                    condition.to_sql().as_str(),
                ),
            )
        },
        OpTree::LeftJoin { condition, left, right } => {
            let l = match generate_change_buffer_from(ctx, left, st_table) {
                Ok(s) => s,
                Err(e) => {
                    return Err(e);
                },
            };
            let r = match generate_change_buffer_from(ctx, right, st_table) {
                Ok(s) => s,
                Err(e) => {
                    return Err(e);
                },
            };
            Ok(
                join_select_query(
                    build_both_cols(left, right).as_str(),
                    l.as_str(),
                    "LEFT JOIN",
                    r.as_str(),
                    condition.to_sql().as_str(),
                ),
            )
        },
        OpTree::Project { expressions, aliases, child } => {
            let projs = build_projections(expressions, aliases);
            match &**child {
                OpTree::InnerJoin { condition, left, right } => {
                    let l = match generate_change_buffer_from(ctx, left, st_table) {
                        Ok(s) => s,
                        Err(e) => {
                            return Err(e);
                        },
                    };
                    let r = match generate_change_buffer_from(ctx, right, st_table) {
                        Ok(s) => s,
                        Err(e) => {
                            return Err(e);
                        },
                    };
                    Ok(
                        join_select_query(
                            projs.as_str(),
                            l.as_str(),
                            "JOIN",
                            r.as_str(),
                            condition.to_sql().as_str(),
                        ),
                    )
                },
                OpTree::LeftJoin { condition, left, right } => {
                    let l = match generate_change_buffer_from(ctx, left, st_table) {
                        Ok(s) => s,
                        Err(e) => {
                            return Err(e);
                        },
                    };
                    let r = match generate_change_buffer_from(ctx, right, st_table) {
                        Ok(s) => s,
                        Err(e) => {
                            return Err(e);
                        },
                    };
                    Ok(
                        join_select_query(
                            projs.as_str(),
                            l.as_str(),
                            "LEFT JOIN",
                            r.as_str(),
                            condition.to_sql().as_str(),
                        ),
                    )
                },
                _ => match build_change_rows(ctx, child, st_table) {
                    Ok(c) => Ok(project_select_query(projs.as_str(), c.as_str())),
                    Err(e) => Err(e),
                },
            }
        },
        OpTree::Filter { predicate, child } => match build_change_rows(ctx, child, st_table) {
            Ok(c) => Ok(filter_select_query(c.as_str(), predicate.to_sql().as_str())),
            Err(e) => Err(e),
        },
        OpTree::Subquery { alias, child, .. } => match build_change_rows(ctx, child, st_table) {
            Ok(c) => {
                let cols = build_cols_of(alias.as_str(), &child.output_columns());
                Ok(
                    nested_select_query(
                        join_texts(&cols, ", ").as_str(),
                        c.as_str(),
                        quote_ident(alias.as_str()).as_str(),
                    ),
                )
            },
            Err(e) => Err(e),
        },
        _ => generate_query_sql(op, Some(st_table)),
    }
}

/// The query of a term over inserted rows and the storage table, or none
/// where the term has no base table or cannot be written as a query.
pub fn generate_query_sql_with_change_buffers(
    ctx: &DiffContext,
    op: &OpTree,
    st_table: &str,
) -> (r: Result<Option<String>, PgTrickleError>)
    ensures
        opt_sql_view(r) == change_query(ctx.env(), *op, st_table@),
        r == Ok::<Option<String>, PgTrickleError>(None) <==> op.spec_sources().len() == 0
            || !writable(*op),
{
    if op.source_oids().len() == 0 || !is_writable(op) {
        return Ok(None);
    }
    match build_change_rows(ctx, op, st_table) {
        Ok(s) => Ok(Some(s)),
        Err(e) => Err(e),
    }
}

/// The rows that inserted rows derive together with stored ones.
pub fn generate_seed_from_existing(ctx: &DiffContext, recursive: &OpTree, st_table: &str) -> (r:
    Result<Option<String>, PgTrickleError>)
    ensures
        opt_sql_view(r) == change_query(ctx.env(), *recursive, st_table@),
{
    generate_query_sql_with_change_buffers(ctx, recursive, st_table)
}

// ── A name for each self-reference ─────────────────────────────────────

/// The failure of a self-reference that a map says nothing of.
pub open spec fn no_entry(generator: Seq<char>, alias: Seq<char>) -> ErrorView {
    ErrorView::InternalError(
        generator + ": no replacement for self-ref alias \""@ + alias + "\""@,
    )
}

/// The error for a self-reference that a map says nothing of.
fn missing_entry(generator: &str, alias: &str) -> (r: PgTrickleError)
    ensures
        r@ == no_entry(generator@, alias@),
{
    let mut m = generator.to_string();
    m.append(": no replacement for self-ref alias \"");
    m.append(alias);
    m.append("\"");
    PgTrickleError::InternalError(m)
}

/// The query of a term in which each self-reference reads what a map says.
pub open spec fn targeted_query(op: OpTree, map: Seq<(Seq<char>, Seq<char>)>) -> Sql
    decreases op, 0nat,
{
    match op {
        OpTree::Scan { schema, table_name, alias, columns, .. } => Ok(
            table_select_sql(
                text::join(cols_of(alias@, parser::column_names(columns@)), ", "@),
                sql_builder::qualified_text(schema@, table_name@),
                sql_builder::ident_text(alias@),
            ),
        ),
        OpTree::RecursiveSelfRef { alias, columns, .. } => match text_map::latest(map, alias@) {
            Some(t) => Ok(
                table_select_sql(
                    text::join(cols_of(alias@, text::texts(columns@)), ", "@),
                    t,
                    sql_builder::ident_text(alias@),
                ),
            ),
            None => Err(no_entry("generate_query_sql_targeted"@, alias@)),
        },
        OpTree::Filter { predicate, child } => match targeted_query(*child, map) {
            Ok(c) => Ok(filter_select_sql(c, predicate@.sql())),
            Err(e) => Err(e),
        },
        OpTree::Project { expressions, aliases, child } => match targeted_query(*child, map) {
            Ok(c) => Ok(project_select_sql(projection_list(expressions@, aliases@), c)),
            Err(e) => Err(e),
        },
        OpTree::InnerJoin { condition, left, right } => joined(
            both_cols(*left, *right),
            targeted_item(*left, map),
            "JOIN"@,
            targeted_item(*right, map),
            condition@.sql(),
        ),
        OpTree::LeftJoin { condition, left, right } => joined(
            both_cols(*left, *right),
            targeted_item(*left, map),
            "LEFT JOIN"@,
            targeted_item(*right, map),
            condition@.sql(),
        ),
        OpTree::Subquery { alias, child, .. } => match targeted_query(*child, map) {
            Ok(c) => Ok(
                nested_select_sql(
                    text::join(cols_of(alias@, child.spec_columns()), ", "@),
                    c,
                    sql_builder::ident_text(alias@),
                ),
            ),
            Err(e) => Err(e),
        },
        _ => Err(
            ErrorView::InternalError(
                unsupported_text("generate_query_sql_targeted"@, op.spec_alias(), ""@),
            ),
        ),
    }
}

/// A term as an item of a `FROM` clause in which each self-reference reads
/// what a map says.
pub open spec fn targeted_item(op: OpTree, map: Seq<(Seq<char>, Seq<char>)>) -> Sql
    decreases op, 1nat,
{
    match op {
        OpTree::Scan { schema, table_name, alias, .. } => Ok(
            from_table_sql(
                sql_builder::qualified_text(schema@, table_name@),
                sql_builder::ident_text(alias@),
            ),
        ),
        OpTree::RecursiveSelfRef { alias, .. } => match text_map::latest(map, alias@) {
            Some(t) => Ok(from_table_sql(t, sql_builder::ident_text(alias@))),
            None => Err(no_entry("generate_from_sql_targeted"@, alias@)),
        },
        OpTree::Subquery { alias, child, .. } => match targeted_query(*child, map) {
            Ok(c) => Ok(from_query_sql(c, sql_builder::ident_text(alias@))),
            Err(e) => Err(e),
        },
        _ => match targeted_query(op, map) {
            Ok(c) => Ok(from_query_sql(c, "__sub"@)),
            Err(e) => Err(e),
        },
    }
}

/// The query of a term in which each self-reference reads what a map says.
pub fn generate_query_sql_targeted(op: &OpTree, self_ref_map: &TextMap) -> (r: Result<
    String,
    PgTrickleError,
>)
    ensures
        sql_view(r) == targeted_query(*op, self_ref_map@),
    decreases op, 0nat,
{
    match op {
        OpTree::Scan { schema, table_name, alias, columns, .. } => {
            let cols = build_cols_of(alias.as_str(), &names_of(columns));
            Ok(
                table_select_query(
                    join_texts(&cols, ", ").as_str(),
                    qualified(schema.as_str(), table_name.as_str()).as_str(),
                    quote_ident(alias.as_str()).as_str(),
                ),
            )
        },
        OpTree::RecursiveSelfRef { alias, columns, .. } => match self_ref_map.get(alias.as_str()) {
            Some(t) => {
                let cols = build_cols_of(alias.as_str(), columns);
                Ok(
                    table_select_query(
                        join_texts(&cols, ", ").as_str(),
                        t,
                        quote_ident(alias.as_str()).as_str(),
                    ),
                )
            },
            None => Err(missing_entry("generate_query_sql_targeted", alias.as_str())),
        },
        OpTree::Filter { predicate, child } => match generate_query_sql_targeted(
            child,
            self_ref_map,
        ) {
            Ok(c) => Ok(filter_select_query(c.as_str(), predicate.to_sql().as_str())),
            Err(e) => Err(e),
        },
        OpTree::Project { expressions, aliases, child } => match generate_query_sql_targeted(
            child,
            self_ref_map,
        ) {
            Ok(c) => Ok(
                project_select_query(
                    build_projections(expressions, aliases).as_str(),
                    c.as_str(),
                ),
            ),
            Err(e) => Err(e),
        },
        OpTree::InnerJoin { condition, left, right } => {
            let l = match generate_from_sql_targeted(left, self_ref_map) {
                Ok(s) => s,
                Err(e) => {
                    return Err(e);
                },
            };
            let r = match generate_from_sql_targeted(right, self_ref_map) {
                Ok(s) => s,
                Err(e) => {
                    return Err(e);
                },
            };
            Ok(
                join_select_query(
                    build_both_cols(left, right).as_str(),
                    l.as_str(),
                    "JOIN",
                    r.as_str(),
                    condition.to_sql().as_str(),
                ),
            )
        },
        OpTree::LeftJoin { condition, left, right } => {
            let l = match generate_from_sql_targeted(left, self_ref_map) {
                Ok(s) => s,
                Err(e) => {
                    return Err(e);
                },
            };
            let r = match generate_from_sql_targeted(right, self_ref_map) {
                Ok(s) => s,
                Err(e) => {
                    return Err(e);
                },
            };
            Ok(
                join_select_query(
                    build_both_cols(left, right).as_str(),
                    l.as_str(),
                    "LEFT JOIN",
                    r.as_str(),
                    condition.to_sql().as_str(),
                ),
            )
        },
        OpTree::Subquery { alias, child, .. } => match generate_query_sql_targeted(
            child,
            self_ref_map,
        ) {
            Ok(c) => {
                let cols = build_cols_of(alias.as_str(), &child.output_columns());
                Ok(
                    nested_select_query(
                        join_texts(&cols, ", ").as_str(),
                        c.as_str(),
                        quote_ident(alias.as_str()).as_str(),
                    ),
                )
            },
            Err(e) => Err(e),
        },
        _ => Err(unsupported("generate_query_sql_targeted", op, "")),
    }
}

/// A term as an item of a `FROM` clause in which each self-reference reads
/// what a map says.
pub fn generate_from_sql_targeted(op: &OpTree, self_ref_map: &TextMap) -> (r: Result<
    String,
    PgTrickleError,
>)
    ensures
        sql_view(r) == targeted_item(*op, self_ref_map@),
    decreases op, 1nat,
{
    match op {
        OpTree::Scan { schema, table_name, alias, .. } => Ok(
            from_table_query(
                qualified(schema.as_str(), table_name.as_str()).as_str(),
                quote_ident(alias.as_str()).as_str(),
            ),
        ),
        OpTree::RecursiveSelfRef { alias, .. } => match self_ref_map.get(alias.as_str()) {
            Some(t) => Ok(from_table_query(t, quote_ident(alias.as_str()).as_str())),
            None => Err(missing_entry("generate_from_sql_targeted", alias.as_str())),
        },
        OpTree::Subquery { alias, child, .. } => match generate_query_sql_targeted(
            child,
            self_ref_map,
        ) {
            Ok(c) => Ok(from_query_query(c.as_str(), quote_ident(alias.as_str()).as_str())),
            Err(e) => Err(e),
        },
        _ => match generate_query_sql_targeted(op, self_ref_map) {
            Ok(c) => Ok(from_query_query(c.as_str(), "__sub")),
            Err(e) => Err(e),
        },
    }
}

// ── Seeds for several self-references ──────────────────────────────────

/// The inserted rows of a delta.
pub open spec fn inserts_of_sql(cols: Seq<char>, delta: Seq<char>) -> Seq<char> {
    "(SELECT "@ + cols + " FROM "@ + delta + " WHERE __pgs_action = 'I')"@
}

/// The inserted rows of a delta.
fn inserts_of_query(cols: &str, delta: &str) -> (r: String)
    ensures
        r@ == inserts_of_sql(cols@, delta@),
{
    let mut r = "(SELECT ".to_string();
    r.append(cols);
    r.append(" FROM ");
    r.append(delta);
    r.append(" WHERE __pgs_action = 'I')");
    r
}

/// What each self-reference reads in the seed of position `i`: the inserted
/// rows there, the storage table elsewhere.
pub open spec fn seed_map(
    aliases: Seq<Seq<char>>,
    i: int,
    inserts: Seq<char>,
    storage: Seq<char>,
) -> Seq<(Seq<char>, Seq<char>)> {
    Seq::new(
        aliases.len(),
        |j: int|
            (
                aliases[j],
                if i == j {
                    inserts
                } else {
                    storage
                },
            ),
    )
}

/// The seeds of the first `n` positions, or the first failure among them.
pub open spec fn seeds_upto(
    recursive: OpTree,
    aliases: Seq<Seq<char>>,
    inserts: Seq<char>,
    storage: Seq<char>,
    n: nat,
) -> Result<Seq<Seq<char>>, ErrorView>
    decreases n,
{
    if n == 0 {
        Ok(Seq::empty())
    } else {
        match seeds_upto(recursive, aliases, inserts, storage, (n - 1) as nat) {
            Ok(before) => match targeted_query(
                recursive,
                seed_map(aliases, n - 1, inserts, storage),
            ) {
                Ok(s) => Ok(before.push(s)),
                Err(e) => Err(e),
            },
            Err(e) => Err(e),
        }
    }
}

/// The seeds of a term with several self-references: one for each of them,
/// none where there is at most one.
pub open spec fn nonlinear_seeds(
    recursive: OpTree,
    aliases: Seq<Seq<char>>,
    delta: Seq<char>,
    storage: Seq<char>,
    columns: Seq<Seq<char>>,
) -> Result<Seq<Seq<char>>, ErrorView> {
    if aliases.len() <= 1 {
        Ok(Seq::empty())
    } else {
        seeds_upto(
            recursive,
            aliases,
            inserts_of_sql(diff::cols_text(columns), delta),
            storage,
            aliases.len(),
        )
    }
}

/// The view of seeds.
pub open spec fn seeds_view(r: Result<Vec<String>, PgTrickleError>) -> Result<
    Seq<Seq<char>>,
    ErrorView,
> {
    match r {
        Ok(v) => Ok(text::texts(v@)),
        Err(e) => Err(e@),
    }
}

/// What each self-reference reads in the seed of a position.
fn build_seed_map(aliases: &Vec<String>, i: usize, inserts: &str, storage: &str) -> (r: TextMap)
    ensures
        r@ == seed_map(text::texts(aliases@), i as int, inserts@, storage@),
{
    let ghost all = seed_map(text::texts(aliases@), i as int, inserts@, storage@);
    let mut r = TextMap::new();
    let mut j: usize = 0;
    while j < aliases.len()
        invariant
            j <= aliases.len(),
            all == seed_map(text::texts(aliases@), i as int, inserts@, storage@),
            r@ == all.take(j as int),
        decreases aliases.len() - j,
    {
        if i == j {
            r.insert(aliases[j].clone(), inserts.to_string());
        } else {
            r.insert(aliases[j].clone(), storage.to_string());
        }
        j += 1;
        assert(all.take(j as int) =~= all.take(j - 1).push(all[j - 1]));
    }
    assert(all.take(all.len() as int) =~= all);
    r
}

/// The seeds of a term with several self-references.
///
/// In each seed one self-reference reads the inserted rows and the others the
/// storage table.  A term with at most one self-reference has none.
pub fn generate_nonlinear_seeds(
    recursive: &OpTree,
    self_ref_aliases: &Vec<String>,
    base_delta_cte: &str,
    st_table: &str,
    columns: &[String],
) -> (r: Result<Vec<String>, PgTrickleError>)
    ensures
        seeds_view(r) == nonlinear_seeds(
            *recursive,
            text::texts(self_ref_aliases@),
            base_delta_cte@,
            st_table@,
            text::texts(columns@),
        ),
{
    let ghost aliases = text::texts(self_ref_aliases@);
    let mut seeds: Vec<String> = Vec::new();
    assert(text::texts(seeds@) =~= Seq::empty());
    if self_ref_aliases.len() <= 1 {
        return Ok(seeds);
    }
    let inserts = inserts_of_query(col_list(columns).as_str(), base_delta_cte);
    let mut i: usize = 0;
    while i < self_ref_aliases.len()
        invariant
            i <= self_ref_aliases.len(),
            aliases == text::texts(self_ref_aliases@),
            self_ref_aliases@.len() > 1,
            inserts@ == inserts_of_sql(diff::cols_text(text::texts(columns@)), base_delta_cte@),
            seeds_upto(*recursive, aliases, inserts@, st_table@, i as nat) == Ok::<
                Seq<Seq<char>>,
                ErrorView,
            >(text::texts(seeds@)),
        decreases self_ref_aliases.len() - i,
    {
        let map = build_seed_map(self_ref_aliases, i, inserts.as_str(), st_table);
        let ghost before = seeds@;
        match generate_query_sql_targeted(recursive, &map) {
            Ok(s) => {
                seeds.push(s);
                assert(text::texts(seeds@) =~= text::texts(before).push(s@));
            },
            Err(e) => {
                proof {
                    seeds_fail(
                        *recursive,
                        aliases,
                        inserts@,
                        st_table@,
                        (i + 1) as nat,
                        aliases.len(),
                        e@,
                    );
                }
                return Err(e);
            },
        }
        i += 1;
    }
    Ok(seeds)
}

/// Once the seed of a position fails, so do the seeds of any more positions.
proof fn seeds_fail(
    recursive: OpTree,
    aliases: Seq<Seq<char>>,
    inserts: Seq<char>,
    storage: Seq<char>,
    n: nat,
    m: nat,
    e: ErrorView,
)
    requires
        n <= m,
        seeds_upto(recursive, aliases, inserts, storage, n) == Err::<Seq<Seq<char>>, ErrorView>(e),
    ensures
        seeds_upto(recursive, aliases, inserts, storage, m) == Err::<Seq<Seq<char>>, ErrorView>(e),
    decreases m - n,
{
    if n < m {
        seeds_fail(recursive, aliases, inserts, storage, n, (m - 1) as nat, e);
    }
}

// ── What the queries say ───────────────────────────────────────────────

/// A filter keeps the rows of its input that satisfy it.
pub proof fn filters_keep_rows_that_satisfy_them(
    child: Seq<char>,
    predicate: Seq<char>,
)
    ensures
        ({
            let t = filter_select_sql(child, predicate);
            &&& text::occurs(
                t,
                "FROM (\n"@ + child + "\n)"@,
            )
            &&& text::occurs(
                t,
                "WHERE "@ + predicate,
            )
        }),
{
    reveal_strlit("\n)");
    reveal_strlit("WHERE ");
    reveal_strlit("FROM (\n");
    reveal_strlit("\n) __f\nWHERE ");
    reveal_strlit("SELECT * FROM (\n");
    let t = filter_select_sql(child, predicate);
    let f0 = "FROM (\n"@ + child + "\n)"@;
    let k0 = 9int;
    assert(t.subrange(k0, k0 + f0.len()) =~= f0);
    assert(text::occurs_at(t, f0, k0));
    let f1 = "WHERE "@ + predicate;
    let k1 = 23int + child.len();
    assert(t.subrange(k1, k1 + f1.len()) =~= f1);
    assert(text::occurs_at(t, f1, k1));
}

/// Projections are computed from the rows of their input.
pub proof fn projections_are_computed_from_their_input(
    projections: Seq<char>,
    child: Seq<char>,
)
    ensures
        ({
            let t = project_select_sql(projections, child);
            &&& text::occurs(
                t,
                "SELECT "@ + projections + "\nFROM (\n"@ + child + "\n)"@,
            )
        }),
{
    reveal_strlit("\n)");
    reveal_strlit("\n) __p");
    reveal_strlit("SELECT ");
    reveal_strlit("\nFROM (\n");
    let t = project_select_sql(projections, child);
    let f0 = "SELECT "@ + projections + "\nFROM (\n"@ + child + "\n)"@;
    let k0 = 0int;
    assert(t.subrange(k0, k0 + f0.len()) =~= f0);
    assert(text::occurs_at(t, f0, k0));
}

/// A join is made of both of its inputs by its condition.
pub proof fn joins_are_made_by_their_condition(
    cols: Seq<char>,
    left: Seq<char>,
    kind: Seq<char>,
    right: Seq<char>,
    cond: Seq<char>,
)
    ensures
        ({
            let t = join_select_sql(cols, left, kind, right, cond);
            &&& text::occurs(
                t,
                "SELECT "@ + cols + "\nFROM "@ + left + "\n"@ + kind + " "@ + right + "\n  ON "@
                    + cond,
            )
        }),
{
    reveal_strlit("\n");
    reveal_strlit(" ");
    reveal_strlit("\n  ON ");
    reveal_strlit("\nFROM ");
    reveal_strlit("SELECT ");
    let t = join_select_sql(cols, left, kind, right, cond);
    let f0 = "SELECT "@ + cols + "\nFROM "@ + left + "\n"@ + kind + " "@ + right + "\n  ON "@
        + cond;
    let k0 = 0int;
    assert(t.subrange(k0, k0 + f0.len()) =~= f0);
    assert(text::occurs_at(t, f0, k0));
}

/// A subquery is known by its alias.
pub proof fn subqueries_are_known_by_their_alias(
    cols: Seq<char>,
    child: Seq<char>,
    alias: Seq<char>,
)
    ensures
        ({
            let t = nested_select_sql(cols, child, alias);
            &&& text::occurs(
                t,
                "SELECT "@ + cols + "\nFROM (\n"@ + child + "\n) AS "@ + alias,
            )
        }),
{
    reveal_strlit("\n) AS ");
    reveal_strlit("SELECT ");
    reveal_strlit("\nFROM (\n");
    let t = nested_select_sql(cols, child, alias);
    let f0 = "SELECT "@ + cols + "\nFROM (\n"@ + child + "\n) AS "@ + alias;
    let k0 = 0int;
    assert(t.subrange(k0, k0 + f0.len()) =~= f0);
    assert(text::occurs_at(t, f0, k0));
}

/// The inserted rows of a table are the inserts of its change buffer since the
/// last refresh, with the types of the table.
pub proof fn inserted_rows_are_taken_from_the_change_buffer(
    cols: Seq<char>,
    change_table: Seq<char>,
    record: Seq<char>,
    prev: Seq<char>,
    alias: Seq<char>,
)
    ensures
        ({
            let t = inserted_rows_sql(cols, change_table, record, prev, alias);
            &&& text::occurs(
                t,
                "FROM "@ + change_table + " c, LATERAL jsonb_populate_record("@ + record
                    + ", c.row_data) r WHERE c.action = 'I' AND c.lsn > '"@ + prev
                    + "'::pg_lsn) AS "@ + alias,
            )
        }),
{
    reveal_strlit("FROM ");
    reveal_strlit(" FROM ");
    reveal_strlit("(SELECT ");
    reveal_strlit("'::pg_lsn) AS ");
    reveal_strlit(" c, LATERAL jsonb_populate_record(");
    reveal_strlit(", c.row_data) r WHERE c.action = 'I' AND c.lsn > '");
    let t = inserted_rows_sql(cols, change_table, record, prev, alias);
    let f0 = "FROM "@ + change_table + " c, LATERAL jsonb_populate_record("@ + record
        + ", c.row_data) r WHERE c.action = 'I' AND c.lsn > '"@ + prev + "'::pg_lsn) AS "@ + alias;
    let k0 = 9int + cols.len();
    assert(t.subrange(k0, k0 + f0.len()) =~= f0);
    assert(text::occurs_at(t, f0, k0));
}

/// The inserts of a delta are those with the action of an insert.
pub proof fn inserts_of_a_delta(
    cols: Seq<char>,
    delta: Seq<char>,
)
    ensures
        ({
            let t = inserts_of_sql(cols, delta);
            &&& text::occurs(
                t,
                "FROM "@ + delta + " WHERE __pgs_action = 'I')"@,
            )
        }),
{
    reveal_strlit("FROM ");
    reveal_strlit(" FROM ");
    reveal_strlit("(SELECT ");
    reveal_strlit(" WHERE __pgs_action = 'I')");
    let t = inserts_of_sql(cols, delta);
    let f0 = "FROM "@ + delta + " WHERE __pgs_action = 'I')"@;
    let k0 = 9int + cols.len();
    assert(t.subrange(k0, k0 + f0.len()) =~= f0);
    assert(text::occurs_at(t, f0, k0));
}

} // verus!
