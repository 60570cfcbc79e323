//! What holds of recursive expressions: which strategy is taken, that the
//! query of a term reads every table and self-reference that stands in it, and
//! that inserted rows and deletions are seeded and propagated.

use vstd::prelude::*;

use crate::dvm::diff;
use crate::dvm::diff::{CteKind, DiffEnv, DiffState};
use crate::dvm::engine;
use crate::dvm::operator_laws::{joined_parts_occur, occurs_within};
use crate::dvm::operators::recursive_cte as rc;
use crate::dvm::operators::recursive_sql as rs;
use crate::dvm::parser;
use crate::dvm::parser::{ExprView, OpTree};
use crate::dvm::tree_laws;
use crate::dvm::tree_laws::inputs;
use crate::error::ErrorView;
use crate::sql_builder;
use crate::text;
use crate::text_laws;
use crate::text_map;

verus! {

// ── Pieces of queries ──────────────────────────────────────────────────

/// The pieces of a query occur in it.
proof fn lemma_pieces(
    cols: Seq<char>,
    a: Seq<char>,
    b: Seq<char>,
    kind: Seq<char>,
    cond: Seq<char>,
)
    ensures
        text::occurs(rs::table_select_sql(cols, a, b), rs::from_table_sql(a, b)),
        text::occurs(rs::filter_select_sql(a, cond), a),
        text::ends(rs::filter_select_sql(a, cond), "\nWHERE "@ + cond),
        text::occurs(rs::project_select_sql(cols, a), a),
        text::begins(rs::project_select_sql(cols, a), "SELECT "@ + cols),
        text::occurs(rs::nested_select_sql(cols, a, b), a),
        text::occurs(rs::from_query_sql(a, b), a),
        text::occurs(rs::join_select_sql(cols, a, kind, b, cond), a),
        text::occurs(rs::join_select_sql(cols, a, kind, b, cond), b),
        text::ends(
            rs::join_select_sql(cols, a, kind, b, cond),
            "\nFROM "@ + a + "\n"@ + kind + " "@ + b + "\n  ON "@ + cond,
        ),
        text::begins(rs::join_select_sql(cols, a, kind, b, cond), "SELECT "@ + cols),
        text::occurs(rs::item_select_sql(cols, a), a),
{
    lemma_selects(cols, a, b, cond);
    lemma_join_select(cols, a, b, kind, cond);
}

/// The pieces of queries with one input.
proof fn lemma_selects(cols: Seq<char>, a: Seq<char>, b: Seq<char>, cond: Seq<char>)
    ensures
        text::occurs(rs::table_select_sql(cols, a, b), rs::from_table_sql(a, b)),
        text::occurs(rs::filter_select_sql(a, cond), a),
        text::ends(rs::filter_select_sql(a, cond), "\nWHERE "@ + cond),
        text::occurs(rs::project_select_sql(cols, a), a),
        text::begins(rs::project_select_sql(cols, a), "SELECT "@ + cols),
        text::occurs(rs::nested_select_sql(cols, a, b), a),
        text::occurs(rs::from_query_sql(a, b), a),
        text::occurs(rs::item_select_sql(cols, a), a),
{
    let e = Seq::<char>::empty();
    let h = "SELECT "@ + cols + "\nFROM "@;
    let item = rs::from_table_sql(a, b);
    assert(rs::table_select_sql(cols, a, b) =~= h + item + e);
    text_laws::parts_of_a_text_occur_in_it(h, item, e);
    assert(rs::item_select_sql(cols, a) =~= h + a + e);
    text_laws::parts_of_a_text_occur_in_it(h, a, e);
    reveal_strlit("\n) __f\nWHERE ");
    reveal_strlit("\n) __f");
    reveal_strlit("\nWHERE ");
    assert("\n) __f\nWHERE "@ =~= "\n) __f"@ + "\nWHERE "@);
    let f = "SELECT * FROM (\n"@;
    text_laws::parts_of_a_text_occur_in_it(f, a, "\n) __f\nWHERE "@ + cond);
    assert(rs::filter_select_sql(a, cond) =~= f + a + ("\n) __f\nWHERE "@ + cond));
    text_laws::parts_of_a_text_occur_in_it(f + a + "\n) __f"@, "\nWHERE "@ + cond, e);
    assert(rs::filter_select_sql(a, cond) =~= f + a + "\n) __f"@ + ("\nWHERE "@ + cond));
    let p = "SELECT "@ + cols + "\nFROM (\n"@;
    text_laws::parts_of_a_text_occur_in_it(p, a, "\n) __p"@);
    assert(rs::project_select_sql(cols, a) =~= p + a + "\n) __p"@);
    let s = "SELECT "@ + cols;
    assert(rs::project_select_sql(cols, a).subrange(0, s.len() as int) =~= s);
    text_laws::parts_of_a_text_occur_in_it(p, a, "\n) AS "@ + b);
    assert(rs::nested_select_sql(cols, a, b) =~= p + a + ("\n) AS "@ + b));
    text_laws::parts_of_a_text_occur_in_it("(\n"@, a, "\n) AS "@ + b);
    assert(rs::from_query_sql(a, b) =~= "(\n"@ + a + ("\n) AS "@ + b));
}

/// The pieces of a join.
proof fn lemma_join_select(
    cols: Seq<char>,
    a: Seq<char>,
    b: Seq<char>,
    kind: Seq<char>,
    cond: Seq<char>,
)
    ensures
        text::occurs(rs::join_select_sql(cols, a, kind, b, cond), a),
        text::occurs(rs::join_select_sql(cols, a, kind, b, cond), b),
        text::ends(
            rs::join_select_sql(cols, a, kind, b, cond),
            "\nFROM "@ + a + "\n"@ + kind + " "@ + b + "\n  ON "@ + cond,
        ),
        text::begins(rs::join_select_sql(cols, a, kind, b, cond), "SELECT "@ + cols),
{
    let e = Seq::<char>::empty();
    let t = rs::join_select_sql(cols, a, kind, b, cond);
    let s = "SELECT "@ + cols;
    let x = s + "\nFROM "@;
    let y = x + a + "\n"@ + kind + " "@;
    assert(t =~= x + a + ("\n"@ + kind + " "@ + b + "\n  ON "@ + cond));
    text_laws::parts_of_a_text_occur_in_it(x, a, "\n"@ + kind + " "@ + b + "\n  ON "@ + cond);
    assert(t =~= y + b + ("\n  ON "@ + cond));
    text_laws::parts_of_a_text_occur_in_it(y, b, "\n  ON "@ + cond);
    let tail = "\nFROM "@ + a + "\n"@ + kind + " "@ + b + "\n  ON "@ + cond;
    assert(t =~= s + tail);
    text_laws::parts_of_a_text_occur_in_it(s, tail, e);
}

// ── What a query reads ─────────────────────────────────────────────────

/// Whether a path leads through operators that a query is written for.
pub open spec fn leads(op: OpTree, path: Seq<int>) -> bool
    decreases path.len(),
{
    path.len() > 0 ==> {
        &&& op is Filter || op is Project || op is InnerJoin || op is LeftJoin || op is Subquery
        &&& 0 <= path[0] < inputs(op).len()
        &&& leads(inputs(op)[path[0]], path.drop_first())
    }
}

/// What a query reads for a table or a self-reference.
pub open spec fn read_for(node: OpTree, target: Seq<char>) -> Seq<char> {
    match node {
        OpTree::Scan { schema, table_name, alias, .. } => sql_builder::qualified_text(
            schema@,
            table_name@,
        ) + " AS "@ + sql_builder::ident_text(alias@),
        OpTree::RecursiveSelfRef { alias, .. } => target + " AS "@ + sql_builder::ident_text(
            alias@,
        ),
        _ => Seq::empty(),
    }
}

/// The query of a term reads every table that stands in it, and the target for
/// every self-reference, on the left and on the right of every join.
pub proof fn queries_read_every_table(op: OpTree, path: Seq<int>, target: Seq<char>)
    requires
        leads(op, path),
        tree_laws::node_at(op, path) matches Some(n) && (n is Scan || n is RecursiveSelfRef),
        rs::query(op, Some(target)) is Ok,
    ensures
        text::occurs(
            rs::query(op, Some(target))->Ok_0,
            read_for(tree_laws::node_at(op, path)->0, target),
        ),
    decreases path.len(), 1nat,
{
    if path.len() == 0 {
        lemma_leaf_reads(op, target);
    } else {
        match op {
            OpTree::Project { .. } => {
                lemma_project_reads(op, path, target);
            },
            OpTree::InnerJoin { condition, left, right } => {
                lemma_either_side(
                    *left,
                    *right,
                    rs::both_cols(*left, *right),
                    "JOIN"@,
                    condition@,
                    path,
                    target,
                    rs::query(op, Some(target))->Ok_0,
                    read_for(tree_laws::node_at(op, path)->0, target),
                );
            },
            OpTree::LeftJoin { condition, left, right } => {
                lemma_either_side(
                    *left,
                    *right,
                    rs::both_cols(*left, *right),
                    "LEFT JOIN"@,
                    condition@,
                    path,
                    target,
                    rs::query(op, Some(target))->Ok_0,
                    read_for(tree_laws::node_at(op, path)->0, target),
                );
            },
            _ => {
                lemma_wrapper_reads(op, path, target);
            },
        }
    }
}

/// The query of a table or a self-reference reads it.
proof fn lemma_leaf_reads(op: OpTree, target: Seq<char>)
    requires
        op is Scan || op is RecursiveSelfRef,
    ensures
        rs::query(op, Some(target)) is Ok,
        text::occurs(rs::query(op, Some(target))->Ok_0, read_for(op, target)),
{
    match op {
        OpTree::Scan { schema, table_name, alias, columns, .. } => {
            lemma_selects(
                text::join(rs::cols_of(alias@, parser::column_names(columns@)), ", "@),
                sql_builder::qualified_text(schema@, table_name@),
                sql_builder::ident_text(alias@),
                ""@,
            );
        },
        OpTree::RecursiveSelfRef { alias, columns, .. } => {
            lemma_selects(
                text::join(rs::cols_of(alias@, text::texts(columns@)), ", "@),
                target,
                sql_builder::ident_text(alias@),
                ""@,
            );
        },
        _ => {},
    }
}

/// A filter or a subquery reads what its input reads.
proof fn lemma_wrapper_reads(op: OpTree, path: Seq<int>, target: Seq<char>)
    requires
        path.len() > 0,
        op is Filter || op is Subquery,
        leads(op, path),
        tree_laws::node_at(op, path) matches Some(n) && (n is Scan || n is RecursiveSelfRef),
        rs::query(op, Some(target)) is Ok,
    ensures
        text::occurs(
            rs::query(op, Some(target))->Ok_0,
            read_for(tree_laws::node_at(op, path)->0, target),
        ),
    decreases path.len(), 0nat,
{
    let t = Some(target);
    let q = rs::query(op, t)->Ok_0;
    let f = read_for(tree_laws::node_at(op, path)->0, target);
    match op {
        OpTree::Filter { predicate, child } => {
            queries_read_every_table(*child, path.drop_first(), target);
            let c = rs::query(*child, t)->Ok_0;
            lemma_selects(""@, c, ""@, predicate@.sql());
            occurs_within(q, c, f);
        },
        OpTree::Subquery { alias, child, .. } => {
            queries_read_every_table(*child, path.drop_first(), target);
            let c = rs::query(*child, t)->Ok_0;
            lemma_selects(
                text::join(rs::cols_of(alias@, child.spec_columns()), ", "@),
                c,
                sql_builder::ident_text(alias@),
                ""@,
            );
            occurs_within(q, c, f);
        },
        _ => {},
    }
}

/// A projection reads what its input reads.
#[verifier::rlimit(40)]
proof fn lemma_project_reads(op: OpTree, path: Seq<int>, target: Seq<char>)
    requires
        path.len() > 0,
        op is Project,
        leads(op, path),
        tree_laws::node_at(op, path) matches Some(n) && (n is Scan || n is RecursiveSelfRef),
        rs::query(op, Some(target)) is Ok,
    ensures
        text::occurs(
            rs::query(op, Some(target))->Ok_0,
            read_for(tree_laws::node_at(op, path)->0, target),
        ),
    decreases path.len(), 0nat,
{
    let t = Some(target);
    let q = rs::query(op, t)->Ok_0;
    let f = read_for(tree_laws::node_at(op, path)->0, target);
    let rest = path.drop_first();
    match op {
        OpTree::Project { expressions, aliases, child } => {
            let projs = rs::projection_list(expressions@, aliases@);
            assert(inputs(op)[path[0]] == *child);
            assert(leads(*child, rest));
            assert(tree_laws::node_at(*child, rest) == tree_laws::node_at(op, path));
            match *child {
                OpTree::InnerJoin { condition, left, right } => {
                    assert(rest.len() > 0);
                    assert(inputs(*child)[rest[0]] == if rest[0] == 0 {
                        *left
                    } else {
                        *right
                    });
                    lemma_either_side(
                        *left,
                        *right,
                        projs,
                        "JOIN"@,
                        condition@,
                        rest,
                        target,
                        q,
                        f,
                    );
                },
                OpTree::LeftJoin { condition, left, right } => {
                    assert(rest.len() > 0);
                    assert(inputs(*child)[rest[0]] == if rest[0] == 0 {
                        *left
                    } else {
                        *right
                    });
                    lemma_either_side(
                        *left,
                        *right,
                        projs,
                        "LEFT JOIN"@,
                        condition@,
                        rest,
                        target,
                        q,
                        f,
                    );
                },
                _ => {
                    queries_read_every_table(*child, rest, target);
                    let c = rs::query(*child, t)->Ok_0;
                    lemma_selects(projs, c, ""@, ""@);
                    occurs_within(q, c, f);
                },
            }
        },
        _ => {},
    }
}

/// A join of two items reads what either reads.
proof fn lemma_either_side(
    left: OpTree,
    right: OpTree,
    cols: Seq<char>,
    kind: Seq<char>,
    condition: ExprView,
    path: Seq<int>,
    target: Seq<char>,
    q: Seq<char>,
    f: Seq<char>,
)
    requires
        path.len() > 0,
        path[0] == 0 || path[0] == 1,
        ({
            let side = if path[0] == 0 {
                left
            } else {
                right
            };
            &&& leads(side, path.drop_first())
            &&& tree_laws::node_at(side, path.drop_first()) matches Some(n)
            &&& n is Scan || n is RecursiveSelfRef
            &&& f == read_for(n, target)
        }),
        rs::joined(
            cols,
            rs::from_item(left, Some(target)),
            kind,
            rs::from_item(right, Some(target)),
            condition.sql(),
        ) == Ok::<Seq<char>, ErrorView>(q),
    ensures
        text::occurs(q, f),
    decreases path.len(), 0nat,
{
    let a = rs::from_item(left, Some(target))->Ok_0;
    let b = rs::from_item(right, Some(target))->Ok_0;
    lemma_pieces(cols, a, b, kind, condition.sql());
    if path[0] == 0 {
        lemma_item_reads(left, path.drop_first(), target);
        occurs_within(q, a, f);
    } else {
        lemma_item_reads(right, path.drop_first(), target);
        occurs_within(q, b, f);
    }
}

/// An item of a `FROM` clause reads every table that stands in it.
proof fn lemma_item_reads(op: OpTree, path: Seq<int>, target: Seq<char>)
    requires
        leads(op, path),
        tree_laws::node_at(op, path) matches Some(n) && (n is Scan || n is RecursiveSelfRef),
        rs::from_item(op, Some(target)) is Ok,
    ensures
        text::occurs(
            rs::from_item(op, Some(target))->Ok_0,
            read_for(tree_laws::node_at(op, path)->0, target),
        ),
    decreases path.len(), 2nat,
{
    let t = Some(target);
    let i = rs::from_item(op, t)->Ok_0;
    let f = read_for(tree_laws::node_at(op, path)->0, target);
    match op {
        OpTree::Scan { .. } => {
            assert(i.subrange(0, i.len() as int) =~= f);
            assert(text::occurs_at(i, f, 0));
        },
        OpTree::RecursiveSelfRef { .. } => {
            assert(i.subrange(0, i.len() as int) =~= f);
            assert(text::occurs_at(i, f, 0));
        },
        OpTree::Subquery { alias, child, .. } => {
            queries_read_every_table(*child, path.drop_first(), target);
            let c = rs::query(*child, t)->Ok_0;
            lemma_pieces(""@, c, sql_builder::ident_text(alias@), ""@, ""@);
            occurs_within(i, c, f);
        },
        _ => {
            queries_read_every_table(op, path, target);
            let c = rs::query(op, t)->Ok_0;
            lemma_pieces(""@, c, "__sub"@, ""@, ""@);
            occurs_within(i, c, f);
        },
    }
}

/// The query of a term is made of the queries of its inputs: a filter keeps
/// what satisfies it, a projection computes its columns, a join joins its
/// inputs by its condition and in its kind.
pub proof fn queries_are_made_of_their_inputs(op: OpTree, target: Option<Seq<char>>)
    requires
        rs::query(op, target) is Ok,
    ensures
        op matches OpTree::Filter { predicate, child } ==> rs::query(*child, target) is Ok
            && text::occurs(rs::query(op, target)->Ok_0, rs::query(*child, target)->Ok_0)
            && text::ends(rs::query(op, target)->Ok_0, "\nWHERE "@ + predicate@.sql()),
        op matches OpTree::Project { expressions, aliases, .. } ==> text::begins(
            rs::query(op, target)->Ok_0,
            "SELECT "@ + rs::projection_list(expressions@, aliases@),
        ),
        op matches OpTree::InnerJoin { condition, left, right } ==> joins_items(
            rs::query(op, target)->Ok_0,
            rs::from_item(*left, target),
            "JOIN"@,
            rs::from_item(*right, target),
            condition@,
        ),
        op matches OpTree::LeftJoin { condition, left, right } ==> joins_items(
            rs::query(op, target)->Ok_0,
            rs::from_item(*left, target),
            "LEFT JOIN"@,
            rs::from_item(*right, target),
            condition@,
        ),
{
    match op {
        OpTree::Filter { predicate, child } => {
            let c = rs::query(*child, target)->Ok_0;
            lemma_pieces(""@, c, ""@, ""@, predicate@.sql());
        },
        OpTree::Project { expressions, aliases, child } => {
            let projs = rs::projection_list(expressions@, aliases@);
            match *child {
                OpTree::InnerJoin { condition, left, right } => {
                    lemma_pieces(
                        projs,
                        rs::from_item(*left, target)->Ok_0,
                        rs::from_item(*right, target)->Ok_0,
                        "JOIN"@,
                        condition@.sql(),
                    );
                },
                OpTree::LeftJoin { condition, left, right } => {
                    lemma_pieces(
                        projs,
                        rs::from_item(*left, target)->Ok_0,
                        rs::from_item(*right, target)->Ok_0,
                        "LEFT JOIN"@,
                        condition@.sql(),
                    );
                },
                _ => {
                    lemma_pieces(projs, rs::query(*child, target)->Ok_0, ""@, ""@, ""@);
                },
            }
        },
        OpTree::InnerJoin { condition, left, right } => {
            lemma_pieces(
                rs::both_cols(*left, *right),
                rs::from_item(*left, target)->Ok_0,
                rs::from_item(*right, target)->Ok_0,
                "JOIN"@,
                condition@.sql(),
            );
        },
        OpTree::LeftJoin { condition, left, right } => {
            lemma_pieces(
                rs::both_cols(*left, *right),
                rs::from_item(*left, target)->Ok_0,
                rs::from_item(*right, target)->Ok_0,
                "LEFT JOIN"@,
                condition@.sql(),
            );
        },
        _ => {},
    }
}

/// Whether a query joins two items by a condition.
pub open spec fn joins_items(
    q: Seq<char>,
    left: rs::Sql,
    kind: Seq<char>,
    right: rs::Sql,
    condition: ExprView,
) -> bool {
    &&& left is Ok
    &&& right is Ok
    &&& text::ends(
        q,
        "\nFROM "@ + left->Ok_0 + "\n"@ + kind + " "@ + right->Ok_0 + "\n  ON "@ + condition.sql(),
    )
}

/// A self-reference without a target has no query, and one with a target has.
pub proof fn self_references_need_a_target(op: OpTree)
    requires
        op is RecursiveSelfRef,
    ensures
        rs::query(op, None) is Err,
        forall|t: Seq<char>| #[trigger] rs::query(op, Some(t)) is Ok,
{
}

/// Each projected column is computed from its expression, under its name.
pub proof fn every_projection_has_its_name(
    sqls: Seq<Seq<char>>,
    aliases: Seq<Seq<char>>,
    i: int,
)
    requires
        0 <= i < sqls.len(),
        sqls.len() == aliases.len(),
    ensures
        rs::projections(sqls, aliases).len() == sqls.len(),
        sqls[i] != aliases[i] ==> rs::projections(sqls, aliases)[i] == sqls[i] + " AS "@
            + sql_builder::ident_text(aliases[i]),
        sqls[i] == aliases[i] ==> sql_builder::read_quoted(
            rs::projections(sqls, aliases)[i],
            '"',
        ) == Some((aliases[i], Seq::<char>::empty())),
{
    sql_builder::ident_reads_back(aliases[i]);
}

// ── Deletion cascades ──────────────────────────────────────────────────

/// What a deletion cascade reads for a table or a self-reference.
pub open spec fn cascade_reads_for(
    node: OpTree,
    cascade: Seq<char>,
    storage: Seq<char>,
) -> Seq<char> {
    match node {
        OpTree::Scan { alias, .. } => storage + " AS "@ + sql_builder::ident_text(alias@),
        OpTree::RecursiveSelfRef { alias, .. } => cascade + " AS "@ + sql_builder::ident_text(
            alias@,
        ),
        _ => Seq::empty(),
    }
}

/// A cascade reads the storage table for every table of the term and itself
/// for every self-reference, on the left and on the right of every join: so
/// deletions reach every stored row that derives from them.
#[verifier::rlimit(60)]
pub proof fn cascades_read_storage_and_themselves(
    op: OpTree,
    path: Seq<int>,
    cascade: Seq<char>,
    storage: Seq<char>,
)
    requires
        path.len() > 0,
        leads(op, path),
        tree_laws::node_at(op, path) matches Some(n) && (n is Scan || n is RecursiveSelfRef),
        rs::cascade_query(op, cascade, storage) is Ok,
    ensures
        text::occurs(
            rs::cascade_query(op, cascade, storage)->Ok_0,
            cascade_reads_for(tree_laws::node_at(op, path)->0, cascade, storage),
        ),
    decreases path.len(), 1nat,
{
    let q = rs::cascade_query(op, cascade, storage)->Ok_0;
    let f = cascade_reads_for(tree_laws::node_at(op, path)->0, cascade, storage);
    let rest = path.drop_first();
    match op {
        OpTree::Filter { predicate, child } => {
            if rest.len() > 0 {
                cascades_read_storage_and_themselves(*child, rest, cascade, storage);
            }
            let c = rs::cascade_query(*child, cascade, storage)->Ok_0;
            lemma_pieces(""@, c, ""@, ""@, predicate@.sql());
            occurs_within(q, c, f);
        },
        OpTree::Project { expressions, aliases, child } => {
            if rest.len() > 0 {
                cascades_read_storage_and_themselves(*child, rest, cascade, storage);
            }
            let c = rs::cascade_query(*child, cascade, storage)->Ok_0;
            lemma_pieces(rs::projection_list(expressions@, aliases@), c, ""@, ""@, ""@);
            occurs_within(q, c, f);
        },
        OpTree::InnerJoin { condition, left, right } => {
            lemma_cascade_side(*left, *right, "JOIN"@, condition@, path, cascade, storage, q, f);
        },
        OpTree::LeftJoin { condition, left, right } => {
            lemma_cascade_side(
                *left,
                *right,
                "LEFT JOIN"@,
                condition@,
                path,
                cascade,
                storage,
                q,
                f,
            );
        },
        _ => {},
    }
}

/// A join in a cascade reads what either of its items reads.
proof fn lemma_cascade_side(
    left: OpTree,
    right: OpTree,
    kind: Seq<char>,
    condition: ExprView,
    path: Seq<int>,
    cascade: Seq<char>,
    storage: Seq<char>,
    q: Seq<char>,
    f: Seq<char>,
)
    requires
        path.len() > 0,
        path[0] == 0 || path[0] == 1,
        ({
            let side = if path[0] == 0 {
                left
            } else {
                right
            };
            &&& leads(side, path.drop_first())
            &&& tree_laws::node_at(side, path.drop_first()) matches Some(n)
            &&& n is Scan || n is RecursiveSelfRef
            &&& f == cascade_reads_for(n, cascade, storage)
        }),
        rs::joined(
            rs::both_cols(left, right),
            rs::cascade_item(left, cascade, storage),
            kind,
            rs::cascade_item(right, cascade, storage),
            condition.sql(),
        ) == Ok::<Seq<char>, ErrorView>(q),
    ensures
        text::occurs(q, f),
    decreases path.len(), 0nat,
{
    let a = rs::cascade_item(left, cascade, storage)->Ok_0;
    let b = rs::cascade_item(right, cascade, storage)->Ok_0;
    lemma_pieces(rs::both_cols(left, right), a, b, kind, condition.sql());
    if path[0] == 0 {
        lemma_cascade_item(left, path.drop_first(), cascade, storage);
        occurs_within(q, a, f);
    } else {
        lemma_cascade_item(right, path.drop_first(), cascade, storage);
        occurs_within(q, b, f);
    }
}

/// An item of a cascade reads what stands in it.
proof fn lemma_cascade_item(
    op: OpTree,
    path: Seq<int>,
    cascade: Seq<char>,
    storage: Seq<char>,
)
    requires
        leads(op, path),
        tree_laws::node_at(op, path) matches Some(n) && (n is Scan || n is RecursiveSelfRef),
        rs::cascade_item(op, cascade, storage) is Ok,
    ensures
        text::occurs(
            rs::cascade_item(op, cascade, storage)->Ok_0,
            cascade_reads_for(tree_laws::node_at(op, path)->0, cascade, storage),
        ),
    decreases path.len(), 2nat,
{
    let i = rs::cascade_item(op, cascade, storage)->Ok_0;
    let f = cascade_reads_for(tree_laws::node_at(op, path)->0, cascade, storage);
    match op {
        OpTree::Scan { .. } => {
            assert(i.subrange(0, i.len() as int) =~= f);
            assert(text::occurs_at(i, f, 0));
        },
        OpTree::RecursiveSelfRef { .. } => {
            assert(i.subrange(0, i.len() as int) =~= f);
            assert(text::occurs_at(i, f, 0));
        },
        OpTree::Subquery { alias, child, .. } => {
            if path.drop_first().len() > 0 {
                cascades_read_storage_and_themselves(*child, path.drop_first(), cascade, storage);
            }
            let c = rs::cascade_query(*child, cascade, storage)->Ok_0;
            lemma_pieces(""@, c, sql_builder::ident_text(alias@), ""@, ""@);
            occurs_within(i, c, f);
        },
        _ => {
            cascades_read_storage_and_themselves(op, path, cascade, storage);
            let c = rs::cascade_query(op, cascade, storage)->Ok_0;
            lemma_pieces(""@, c, "__sub"@, ""@, ""@);
            occurs_within(i, c, f);
        },
    }
}

// ── Inserted rows ──────────────────────────────────────────────────────

/// In the query over inserted rows a join reads, for a table on either side,
/// its inserts since the last refresh, and for a self-reference on either side
/// the storage table.
pub proof fn inserted_rows_meet_stored_ones(
    env: DiffEnv,
    condition: ExprView,
    left: OpTree,
    right: OpTree,
    kind: Seq<char>,
    cols: Seq<char>,
    storage: Seq<char>,
)
    requires
        left is Scan || left is RecursiveSelfRef,
        right is Scan || right is RecursiveSelfRef,
    ensures
        ({
            let j = rs::joined(
                cols,
                rs::change_item(env, left, storage),
                kind,
                rs::change_item(env, right, storage),
                condition.sql(),
            );
            &&& j is Ok
            &&& reads_changes(env, j->Ok_0, left, storage)
            &&& reads_changes(env, j->Ok_0, right, storage)
            &&& joins_items(
                j->Ok_0,
                rs::change_item(env, left, storage),
                kind,
                rs::change_item(env, right, storage),
                condition,
            )
        }),
{
    let a = rs::change_item(env, left, storage)->Ok_0;
    let b = rs::change_item(env, right, storage)->Ok_0;
    let q = rs::join_select_sql(cols, a, kind, b, condition.sql());
    lemma_pieces(cols, a, b, kind, condition.sql());
    lemma_change_item(env, left, storage);
    lemma_change_item(env, right, storage);
    lemma_reads_within(env, q, a, left, storage);
    lemma_reads_within(env, q, b, right, storage);
}

/// Whether a query reads the inserts of a table, or the storage table for a
/// self-reference.
pub open spec fn reads_changes(
    env: DiffEnv,
    q: Seq<char>,
    node: OpTree,
    storage: Seq<char>,
) -> bool {
    match node {
        OpTree::Scan { table_oid, alias, .. } => {
            &&& text::occurs(q, " FROM "@ + env.change_table(table_oid) + " c,"@)
            &&& text::occurs(
                q,
                " WHERE c.action = 'I' AND c.lsn > '"@ + env.prev_lsn(table_oid)
                    + "'::pg_lsn) AS "@ + sql_builder::ident_text(alias@),
            )
        },
        OpTree::RecursiveSelfRef { alias, .. } => text::occurs(
            q,
            storage + " AS "@ + sql_builder::ident_text(alias@),
        ),
        _ => false,
    }
}

/// What an item reads, a query with the item reads.
proof fn lemma_reads_within(
    env: DiffEnv,
    q: Seq<char>,
    item: Seq<char>,
    node: OpTree,
    storage: Seq<char>,
)
    requires
        text::occurs(q, item),
        reads_changes(env, item, node, storage),
    ensures
        reads_changes(env, q, node, storage),
{
    match node {
        OpTree::Scan { table_oid, alias, .. } => {
            occurs_within(q, item, " FROM "@ + env.change_table(table_oid) + " c,"@);
            occurs_within(
                q,
                item,
                " WHERE c.action = 'I' AND c.lsn > '"@ + env.prev_lsn(table_oid)
                    + "'::pg_lsn) AS "@ + sql_builder::ident_text(alias@),
            );
        },
        OpTree::RecursiveSelfRef { alias, .. } => {
            occurs_within(q, item, storage + " AS "@ + sql_builder::ident_text(alias@));
        },
        _ => {},
    }
}

/// The item for a table or a self-reference reads its inserts or the storage
/// table.
proof fn lemma_change_item(env: DiffEnv, node: OpTree, storage: Seq<char>)
    requires
        node is Scan || node is RecursiveSelfRef,
    ensures
        rs::change_item(env, node, storage) is Ok,
        reads_changes(env, rs::change_item(env, node, storage)->Ok_0, node, storage),
{
    let i = rs::change_item(env, node, storage)->Ok_0;
    match node {
        OpTree::Scan { table_oid, schema, table_name, alias, columns, .. } => {
            let cols = text::join(
                diff::wrapped("r."@, parser::column_names(columns@), ""@),
                ", "@,
            );
            let record = "NULL::"@ + sql_builder::qualified_text(schema@, table_name@);
            lemma_inserted_rows(
                cols,
                env.change_table(table_oid),
                record,
                env.prev_lsn(table_oid),
                sql_builder::ident_text(alias@),
            );
        },
        _ => {
            assert(i.subrange(0, i.len() as int) =~= i);
            assert(text::occurs_at(i, i, 0));
        },
    }
}

/// The clauses of the query for inserted rows.
proof fn lemma_inserted_rows(
    cols: Seq<char>,
    table: Seq<char>,
    record: Seq<char>,
    prev: Seq<char>,
    alias: Seq<char>,
)
    ensures
        ({
            let t = rs::inserted_rows_sql(cols, table, record, prev, alias);
            &&& text::occurs(t, " FROM "@ + table + " c,"@)
            &&& text::occurs(
                t,
                " WHERE c.action = 'I' AND c.lsn > '"@ + prev + "'::pg_lsn) AS "@ + alias,
            )
        }),
{
    reveal_strlit("(SELECT ");
    reveal_strlit(" FROM ");
    reveal_strlit(" c,");
    reveal_strlit(" c, LATERAL jsonb_populate_record(");
    reveal_strlit(", c.row_data) r WHERE c.action = 'I' AND c.lsn > '");
    reveal_strlit(" WHERE c.action = 'I' AND c.lsn > '");
    reveal_strlit("'::pg_lsn) AS ");
    let t = rs::inserted_rows_sql(cols, table, record, prev, alias);
    let f = " FROM "@ + table + " c,"@;
    let k = 8int + cols.len();
    assert(t.subrange(k, k + f.len()) =~= f);
    assert(text::occurs_at(t, f, k));
    let g = " WHERE c.action = 'I' AND c.lsn > '"@ + prev + "'::pg_lsn) AS "@ + alias;
    let m = t.len() - g.len();
    assert(t.subrange(m, m + g.len()) =~= g);
    assert(text::occurs_at(t, g, m));
}

/// A term that reads a table has a query over inserted rows, where it can be
/// written at all; a join or a projection of a join in it meets stored rows as
/// above.
pub proof fn terms_with_tables_have_a_seed(env: DiffEnv, op: OpTree, storage: Seq<char>)
    requires
        op.spec_sources().len() > 0,
        rs::writable(op),
    ensures
        rs::change_query(env, op, storage) != Ok::<Option<Seq<char>>, ErrorView>(None),
        op matches OpTree::InnerJoin { condition, left, right } ==> rs::change_query(
            env,
            op,
            storage,
        ) == some_sql(
            rs::joined(
                rs::both_cols(*left, *right),
                rs::change_item(env, *left, storage),
                "JOIN"@,
                rs::change_item(env, *right, storage),
                condition@.sql(),
            ),
        ),
        op matches OpTree::LeftJoin { condition, left, right } ==> rs::change_query(
            env,
            op,
            storage,
        ) == some_sql(
            rs::joined(
                rs::both_cols(*left, *right),
                rs::change_item(env, *left, storage),
                "LEFT JOIN"@,
                rs::change_item(env, *right, storage),
                condition@.sql(),
            ),
        ),
        op matches OpTree::Project { expressions, aliases, child } ==> (*child matches
            OpTree::InnerJoin { condition, left, right } ==> rs::change_query(env, op, storage)
            == some_sql(
            rs::joined(
                rs::projection_list(expressions@, aliases@),
                rs::change_item(env, *left, storage),
                "JOIN"@,
                rs::change_item(env, *right, storage),
                condition@.sql(),
            ),
        )),
        op matches OpTree::Project { expressions, aliases, child } ==> (*child matches
            OpTree::LeftJoin { condition, left, right } ==> rs::change_query(env, op, storage)
            == some_sql(
            rs::joined(
                rs::projection_list(expressions@, aliases@),
                rs::change_item(env, *left, storage),
                "LEFT JOIN"@,
                rs::change_item(env, *right, storage),
                condition@.sql(),
            ),
        )),
{
}

/// SQL that is there.
pub open spec fn some_sql(s: rs::Sql) -> Result<Option<Seq<char>>, ErrorView> {
    match s {
        Ok(t) => Ok(Some(t)),
        Err(e) => Err(e),
    }
}

// ── Seeds of several self-references ───────────────────────────────────

/// In the map of a seed one self-reference reads the inserts, and every other
/// reads the storage table.
pub proof fn seeds_take_inserts_for_one_reference(
    aliases: Seq<Seq<char>>,
    i: int,
    j: int,
    inserts: Seq<char>,
    storage: Seq<char>,
)
    requires
        0 <= i < aliases.len(),
        0 <= j < aliases.len(),
        aliases.no_duplicates(),
    ensures
        text_map::latest(rs::seed_map(aliases, i, inserts, storage), aliases[j]) == Some(
            if i == j {
                inserts
            } else {
                storage
            },
        ),
{
    lemma_latest_of(rs::seed_map(aliases, i, inserts, storage), aliases, j);
}

/// A key that occurs once has its own value.
proof fn lemma_latest_of(
    entries: Seq<(Seq<char>, Seq<char>)>,
    keys: Seq<Seq<char>>,
    j: int,
)
    requires
        entries.len() == keys.len(),
        forall|k: int| 0 <= k < keys.len() ==> (#[trigger] entries[k]).0 == keys[k],
        keys.no_duplicates(),
        0 <= j < keys.len(),
    ensures
        text_map::latest(entries, keys[j]) == Some(entries[j].1),
    decreases entries.len(),
{
    let n = entries.len() - 1;
    assert(entries.last() == entries[n]);
    if j < n {
        assert(keys[n] != keys[j]);
        assert forall|k: int| 0 <= k < n implies (#[trigger] entries.drop_last()[k]).0
            == keys.drop_last()[k] by {
            assert(entries[k].0 == keys[k]);
        }
        lemma_latest_of(entries.drop_last(), keys.drop_last(), j);
    }
}

/// There is a seed for each self-reference where there are several, and none
/// where there is one.
pub proof fn one_seed_for_each_reference(
    recursive: OpTree,
    aliases: Seq<Seq<char>>,
    delta: Seq<char>,
    storage: Seq<char>,
    columns: Seq<Seq<char>>,
)
    ensures
        aliases.len() <= 1 ==> rs::nonlinear_seeds(recursive, aliases, delta, storage, columns)
            == Ok::<Seq<Seq<char>>, ErrorView>(Seq::empty()),
        aliases.len() > 1 && rs::nonlinear_seeds(recursive, aliases, delta, storage, columns) is Ok
            ==> rs::nonlinear_seeds(recursive, aliases, delta, storage, columns)->Ok_0.len()
            == aliases.len(),
{
    lemma_seed_count(
        recursive,
        aliases,
        rs::inserts_of_sql(diff::cols_text(columns), delta),
        storage,
        aliases.len(),
    );
}

/// There are as many seeds as were asked for.
proof fn lemma_seed_count(
    recursive: OpTree,
    aliases: Seq<Seq<char>>,
    inserts: Seq<char>,
    storage: Seq<char>,
    n: nat,
)
    ensures
        rs::seeds_upto(recursive, aliases, inserts, storage, n) is Ok ==> rs::seeds_upto(
            recursive,
            aliases,
            inserts,
            storage,
            n,
        )->Ok_0.len() == n,
    decreases n,
{
    if n > 0 {
        lemma_seed_count(recursive, aliases, inserts, storage, (n - 1) as nat);
    }
}

// ── Seeds as queries ───────────────────────────────────────────────────

/// What a query reads for a table, or for a self-reference by a map.
pub open spec fn mapped_for(node: OpTree, map: Seq<(Seq<char>, Seq<char>)>) -> Seq<char> {
    match node {
        OpTree::RecursiveSelfRef { alias, .. } => match text_map::latest(map, alias@) {
            Some(t) => t + " AS "@ + sql_builder::ident_text(alias@),
            None => Seq::empty(),
        },
        _ => read_for(node, Seq::empty()),
    }
}

/// A query with a map reads every table that stands in the term, and for every
/// self-reference what the map says, on the left and on the right of every
/// join.
pub proof fn mapped_queries_read_every_table(
    op: OpTree,
    path: Seq<int>,
    map: Seq<(Seq<char>, Seq<char>)>,
)
    requires
        leads(op, path),
        tree_laws::node_at(op, path) matches Some(n) && (n is Scan || n is RecursiveSelfRef),
        rs::targeted_query(op, map) is Ok,
    ensures
        text::occurs(
            rs::targeted_query(op, map)->Ok_0,
            mapped_for(tree_laws::node_at(op, path)->0, map),
        ),
    decreases path.len(), 1nat,
{
    if path.len() == 0 {
        lemma_mapped_leaf(op, map);
    } else {
        match op {
            OpTree::InnerJoin { condition, left, right } => {
                lemma_mapped_side(
                    *left,
                    *right,
                    "JOIN"@,
                    condition@,
                    path,
                    map,
                    rs::targeted_query(op, map)->Ok_0,
                    mapped_for(tree_laws::node_at(op, path)->0, map),
                );
            },
            OpTree::LeftJoin { condition, left, right } => {
                lemma_mapped_side(
                    *left,
                    *right,
                    "LEFT JOIN"@,
                    condition@,
                    path,
                    map,
                    rs::targeted_query(op, map)->Ok_0,
                    mapped_for(tree_laws::node_at(op, path)->0, map),
                );
            },
            _ => {
                lemma_mapped_wrapper(op, path, map);
            },
        }
    }
}

/// The query of a table or a self-reference reads it.
proof fn lemma_mapped_leaf(op: OpTree, map: Seq<(Seq<char>, Seq<char>)>)
    requires
        op is Scan || op is RecursiveSelfRef,
        rs::targeted_query(op, map) is Ok,
    ensures
        text::occurs(rs::targeted_query(op, map)->Ok_0, mapped_for(op, map)),
{
    match op {
        OpTree::Scan { schema, table_name, alias, columns, .. } => {
            lemma_selects(
                text::join(rs::cols_of(alias@, parser::column_names(columns@)), ", "@),
                sql_builder::qualified_text(schema@, table_name@),
                sql_builder::ident_text(alias@),
                ""@,
            );
        },
        OpTree::RecursiveSelfRef { alias, columns, .. } => {
            lemma_selects(
                text::join(rs::cols_of(alias@, text::texts(columns@)), ", "@),
                text_map::latest(map, alias@)->0,
                sql_builder::ident_text(alias@),
                ""@,
            );
        },
        _ => {},
    }
}

/// An operator with one input reads what its input reads.
proof fn lemma_mapped_wrapper(op: OpTree, path: Seq<int>, map: Seq<(Seq<char>, Seq<char>)>)
    requires
        path.len() > 0,
        op is Filter || op is Subquery || op is Project,
        leads(op, path),
        tree_laws::node_at(op, path) matches Some(n) && (n is Scan || n is RecursiveSelfRef),
        rs::targeted_query(op, map) is Ok,
    ensures
        text::occurs(
            rs::targeted_query(op, map)->Ok_0,
            mapped_for(tree_laws::node_at(op, path)->0, map),
        ),
    decreases path.len(), 0nat,
{
    let q = rs::targeted_query(op, map)->Ok_0;
    let f = mapped_for(tree_laws::node_at(op, path)->0, map);
    match op {
        OpTree::Filter { predicate, child } => {
            mapped_queries_read_every_table(*child, path.drop_first(), map);
            let c = rs::targeted_query(*child, map)->Ok_0;
            lemma_selects(""@, c, ""@, predicate@.sql());
            occurs_within(q, c, f);
        },
        OpTree::Project { expressions, aliases, child } => {
            mapped_queries_read_every_table(*child, path.drop_first(), map);
            let c = rs::targeted_query(*child, map)->Ok_0;
            lemma_selects(rs::projection_list(expressions@, aliases@), c, ""@, ""@);
            occurs_within(q, c, f);
        },
        OpTree::Subquery { alias, child, .. } => {
            mapped_queries_read_every_table(*child, path.drop_first(), map);
            let c = rs::targeted_query(*child, map)->Ok_0;
            lemma_selects(
                text::join(rs::cols_of(alias@, child.spec_columns()), ", "@),
                c,
                sql_builder::ident_text(alias@),
                ""@,
            );
            occurs_within(q, c, f);
        },
        _ => {},
    }
}

/// A join reads what either of its items reads.
proof fn lemma_mapped_side(
    left: OpTree,
    right: OpTree,
    kind: Seq<char>,
    condition: ExprView,
    path: Seq<int>,
    map: Seq<(Seq<char>, Seq<char>)>,
    q: Seq<char>,
    f: Seq<char>,
)
    requires
        path.len() > 0,
        path[0] == 0 || path[0] == 1,
        ({
            let side = if path[0] == 0 {
                left
            } else {
                right
            };
            &&& leads(side, path.drop_first())
            &&& tree_laws::node_at(side, path.drop_first()) matches Some(n)
            &&& n is Scan || n is RecursiveSelfRef
            &&& f == mapped_for(n, map)
        }),
        rs::joined(
            rs::both_cols(left, right),
            rs::targeted_item(left, map),
            kind,
            rs::targeted_item(right, map),
            condition.sql(),
        ) == Ok::<Seq<char>, ErrorView>(q),
    ensures
        text::occurs(q, f),
    decreases path.len(), 0nat,
{
    let a = rs::targeted_item(left, map)->Ok_0;
    let b = rs::targeted_item(right, map)->Ok_0;
    lemma_pieces(rs::both_cols(left, right), a, b, kind, condition.sql());
    if path[0] == 0 {
        lemma_mapped_item(left, path.drop_first(), map);
        occurs_within(q, a, f);
    } else {
        lemma_mapped_item(right, path.drop_first(), map);
        occurs_within(q, b, f);
    }
}

/// An item of a `FROM` clause reads what stands in it.
proof fn lemma_mapped_item(op: OpTree, path: Seq<int>, map: Seq<(Seq<char>, Seq<char>)>)
    requires
        leads(op, path),
        tree_laws::node_at(op, path) matches Some(n) && (n is Scan || n is RecursiveSelfRef),
        rs::targeted_item(op, map) is Ok,
    ensures
        text::occurs(
            rs::targeted_item(op, map)->Ok_0,
            mapped_for(tree_laws::node_at(op, path)->0, map),
        ),
    decreases path.len(), 2nat,
{
    let i = rs::targeted_item(op, map)->Ok_0;
    let f = mapped_for(tree_laws::node_at(op, path)->0, map);
    match op {
        OpTree::Scan { .. } => {
            assert(i.subrange(0, i.len() as int) =~= f);
            assert(text::occurs_at(i, f, 0));
        },
        OpTree::RecursiveSelfRef { .. } => {
            assert(i.subrange(0, i.len() as int) =~= f);
            assert(text::occurs_at(i, f, 0));
        },
        OpTree::Subquery { alias, child, .. } => {
            mapped_queries_read_every_table(*child, path.drop_first(), map);
            let c = rs::targeted_query(*child, map)->Ok_0;
            lemma_selects(""@, c, sql_builder::ident_text(alias@), ""@);
            occurs_within(i, c, f);
        },
        _ => {
            mapped_queries_read_every_table(op, path, map);
            let c = rs::targeted_query(op, map)->Ok_0;
            lemma_selects(""@, c, "__sub"@, ""@);
            occurs_within(i, c, f);
        },
    }
}

/// Each seed is the query of the recursive term by the map for its place.
pub proof fn seeds_are_queries_by_their_maps(
    recursive: OpTree,
    aliases: Seq<Seq<char>>,
    delta: Seq<char>,
    storage: Seq<char>,
    columns: Seq<Seq<char>>,
    i: int,
)
    requires
        rs::nonlinear_seeds(recursive, aliases, delta, storage, columns) is Ok,
        aliases.len() > 1,
        0 <= i < aliases.len(),
    ensures
        rs::targeted_query(
            recursive,
            rs::seed_map(
                aliases,
                i,
                rs::inserts_of_sql(diff::cols_text(columns), delta),
                storage,
            ),
        ) == Ok::<Seq<char>, ErrorView>(
            rs::nonlinear_seeds(recursive, aliases, delta, storage, columns)->Ok_0[i],
        ),
{
    lemma_seed_at(
        recursive,
        aliases,
        rs::inserts_of_sql(diff::cols_text(columns), delta),
        storage,
        aliases.len(),
        i,
    );
}

/// The seed of a place among the first ones.
proof fn lemma_seed_at(
    recursive: OpTree,
    aliases: Seq<Seq<char>>,
    inserts: Seq<char>,
    storage: Seq<char>,
    n: nat,
    i: int,
)
    requires
        rs::seeds_upto(recursive, aliases, inserts, storage, n) is Ok,
        0 <= i < n,
    ensures
        ({
            let s = rs::seeds_upto(recursive, aliases, inserts, storage, n)->Ok_0;
            &&& s.len() == n
            &&& rs::targeted_query(recursive, rs::seed_map(aliases, i, inserts, storage)) == Ok::<
                Seq<char>,
                ErrorView,
            >(s[i])
        }),
    decreases n,
{
    lemma_seed_count(recursive, aliases, inserts, storage, n);
    lemma_seed_count(recursive, aliases, inserts, storage, (n - 1) as nat);
    if i < n - 1 {
        lemma_seed_at(recursive, aliases, inserts, storage, (n - 1) as nat, i);
    }
}

/// The rows that are inserted are those of the delta that it inserts.
pub proof fn inserted_rows_are_those_of_the_delta(cols: Seq<char>, delta: Seq<char>)
    ensures
        text::occurs(
            rs::inserts_of_sql(cols, delta),
            "SELECT "@ + cols + " FROM "@ + delta + " WHERE __pgs_action = 'I'"@,
        ),
{
    let f = "SELECT "@ + cols + " FROM "@ + delta + " WHERE __pgs_action = 'I'"@;
    reveal_strlit("(SELECT ");
    reveal_strlit("SELECT ");
    reveal_strlit(" WHERE __pgs_action = 'I'");
    reveal_strlit(" WHERE __pgs_action = 'I')");
    let t = rs::inserts_of_sql(cols, delta);
    assert(t.subrange(1, 1 + f.len() as int) =~= f);
    assert(text::occurs_at(t, f, 1));
}

/// The alias of every self-reference of a term is listed.
pub proof fn every_self_reference_is_listed(op: OpTree, path: Seq<int>)
    requires
        leads(op, path),
        tree_laws::node_at(op, path) matches Some(n) && n is RecursiveSelfRef,
    ensures
        rs::self_ref_aliases(op).contains(
            tree_laws::node_at(op, path)->0->RecursiveSelfRef_alias@,
        ),
    decreases path.len(),
{
    let a = tree_laws::node_at(op, path)->0->RecursiveSelfRef_alias@;
    if path.len() == 0 {
        assert(rs::self_ref_aliases(op)[0] == a);
    } else {
        every_self_reference_is_listed(inputs(op)[path[0]], path.drop_first());
        match op {
            OpTree::InnerJoin { left, right, .. } => {
                lemma_either_list(rs::self_ref_aliases(*left), rs::self_ref_aliases(*right), a);
            },
            OpTree::LeftJoin { left, right, .. } => {
                lemma_either_list(rs::self_ref_aliases(*left), rs::self_ref_aliases(*right), a);
            },
            _ => {},
        }
    }
}

/// What either list holds, both together hold.
proof fn lemma_either_list(x: Seq<Seq<char>>, y: Seq<Seq<char>>, a: Seq<char>)
    ensures
        x.contains(a) || y.contains(a) ==> (x + y).contains(a),
{
    if x.contains(a) {
        assert((x + y)[x.index_of(a)] == a);
    }
    if y.contains(a) {
        assert((x + y)[x.len() + y.index_of(a)] == a);
    }
}

/// Self-references are listed under two inputs from left to right.
pub proof fn self_references_are_listed_from_left_to_right(op: OpTree)
    ensures
        op matches OpTree::InnerJoin { left, right, .. } ==> rs::self_ref_aliases(op)
            == rs::self_ref_aliases(*left) + rs::self_ref_aliases(*right),
        op matches OpTree::LeftJoin { left, right, .. } ==> rs::self_ref_aliases(op)
            == rs::self_ref_aliases(*left) + rs::self_ref_aliases(*right),
        op is Scan ==> rs::self_ref_aliases(op).len() == 0,
{
}

/// The query over inserted rows is made of that of its input: a filter keeps
/// what satisfies it, a projection computes its columns, a subquery has its
/// alias; that of a table reads its inserts.
pub proof fn change_queries_are_made_of_their_inputs(env: DiffEnv, op: OpTree, storage: Seq<char>)
    requires
        rs::change_rows(env, op, storage) is Ok,
    ensures
        op matches OpTree::Filter { predicate, child } ==> rs::change_rows(
            env,
            *child,
            storage,
        ) is Ok
            && text::occurs(
            rs::change_rows(env, op, storage)->Ok_0,
            rs::change_rows(env, *child, storage)->Ok_0,
        ) && text::ends(rs::change_rows(env, op, storage)->Ok_0, "\nWHERE "@ + predicate@.sql()),
        op matches OpTree::Subquery { child, .. } ==> rs::change_rows(env, *child, storage) is Ok
            && text::occurs(
            rs::change_rows(env, op, storage)->Ok_0,
            rs::change_rows(env, *child, storage)->Ok_0,
        ),
        op matches OpTree::Project { expressions, aliases, child } ==> !(*child is InnerJoin)
            && !(*child is LeftJoin) ==> rs::change_rows(env, *child, storage) is Ok
            && text::occurs(
            rs::change_rows(env, op, storage)->Ok_0,
            rs::change_rows(env, *child, storage)->Ok_0,
        ) && text::begins(
            rs::change_rows(env, op, storage)->Ok_0,
            "SELECT "@ + rs::projection_list(expressions@, aliases@),
        ),
        op is Scan ==> reads_changes(env, rs::change_rows(env, op, storage)->Ok_0, op, storage),
{
    match op {
        OpTree::Filter { predicate, child } => {
            let c = rs::change_rows(env, *child, storage)->Ok_0;
            lemma_selects(""@, c, ""@, predicate@.sql());
        },
        OpTree::Subquery { alias, child, .. } => {
            let c = rs::change_rows(env, *child, storage)->Ok_0;
            lemma_selects(
                text::join(rs::cols_of(alias@, child.spec_columns()), ", "@),
                c,
                sql_builder::ident_text(alias@),
                ""@,
            );
        },
        OpTree::Project { expressions, aliases, child } => {
            let c = rs::change_rows(env, *child, storage)->Ok_0;
            lemma_selects(rs::projection_list(expressions@, aliases@), c, ""@, ""@);
        },
        OpTree::Scan { alias, columns, .. } => {
            let item = rs::change_item(env, op, storage)->Ok_0;
            lemma_change_item(env, op, storage);
            lemma_selects(
                text::join(rs::cols_of(alias@, parser::column_names(columns@)), ", "@),
                item,
                ""@,
                ""@,
            );
            lemma_reads_within(
                env,
                rs::change_rows(env, op, storage)->Ok_0,
                item,
                op,
                storage,
            );
        },
        _ => {},
    }
}

/// Only terms that read a table, and that can be written, have a query over
/// inserted rows; what can be written is told by what stands below filters,
/// projections and subqueries.
pub proof fn terms_are_written_through_their_wrappers(env: DiffEnv, op: OpTree, storage: Seq<char>)
    ensures
        op.spec_sources().len() == 0 ==> rs::change_query(env, op, storage) == Ok::<
            Option<Seq<char>>,
            ErrorView,
        >(None),
        !rs::writable(op) ==> rs::change_query(env, op, storage) == Ok::<
            Option<Seq<char>>,
            ErrorView,
        >(None),
        op is Scan || op is RecursiveSelfRef || op is InnerJoin || op is LeftJoin ==> rs::writable(
            op,
        ),
        op matches OpTree::Filter { child, .. } ==> rs::writable(op) == rs::writable(*child),
        op matches OpTree::Project { child, .. } ==> rs::writable(op) == rs::writable(*child),
        op matches OpTree::Subquery { child, .. } ==> rs::writable(op) == rs::writable(*child),
        op is Aggregate || op is Distinct || op is Window || op is FullJoin || op is SemiJoin
            || op is AntiJoin ==> !rs::writable(op),
{
}

/// A join selects every column of both of its inputs, each behind the alias
/// that the input has in the query.
pub proof fn joins_select_the_columns_of_both(left: OpTree, right: OpTree, i: int)
    ensures
        0 <= i < left.spec_columns().len() ==> text::occurs(
            rs::both_cols(left, right),
            sql_builder::ident_text(rs::from_alias(left)) + "."@ + sql_builder::ident_text(
                left.spec_columns()[i],
            ),
        ),
        0 <= i < right.spec_columns().len() ==> text::occurs(
            rs::both_cols(left, right),
            sql_builder::ident_text(rs::from_alias(right)) + "."@ + sql_builder::ident_text(
                right.spec_columns()[i],
            ),
        ),
{
    let a = rs::select_cols(left);
    let b = rs::select_cols(right);
    reveal_strlit("");
    if 0 <= i < left.spec_columns().len() {
        joined_parts_occur(a + b, ", "@, i);
        assert((a + b)[i] =~= sql_builder::ident_text(rs::from_alias(left)) + "."@
            + sql_builder::ident_text(left.spec_columns()[i]));
    }
    if 0 <= i < right.spec_columns().len() {
        joined_parts_occur(a + b, ", "@, a.len() + i);
        assert((a + b)[a.len() + i] =~= sql_builder::ident_text(rs::from_alias(right)) + "."@
            + sql_builder::ident_text(right.spec_columns()[i]));
    }
}

/// An item of a query has its own alias, and one that has none a fixed one.
pub proof fn items_have_their_alias(op: OpTree)
    ensures
        op matches OpTree::Scan { alias, .. } ==> rs::from_alias(op) == alias@,
        op matches OpTree::RecursiveSelfRef { alias, .. } ==> rs::from_alias(op) == alias@,
        op matches OpTree::Subquery { alias, .. } ==> rs::from_alias(op) == alias@,
        op is InnerJoin || op is LeftJoin || op is Filter || op is Project ==> rs::from_alias(op)
            == "__sub"@,
{
}

/// Rederivation propagates inserts first, and combines what comes of them with
/// what is deleted; both strategies need the storage table.
pub proof fn rederivation_propagates_inserts_first(
    env: DiffEnv,
    st: DiffState,
    alias: Seq<char>,
    columns: Seq<Seq<char>>,
    base_cte: Seq<char>,
    base: OpTree,
    recursive: OpTree,
    union_all: bool,
)
    ensures
        env.st_qualified_name is None ==> {
            &&& rc::dred_outcome(
                env,
                st,
                alias,
                columns,
                base_cte,
                base,
                recursive,
                union_all,
            ).1 is Err
            &&& rc::semi_naive_outcome(env, st, alias, columns, base_cte, recursive).1 is Err
        },
        env.st_qualified_name matches Some(storage) ==> {
            let ins = rc::inserts_outcome(
                env,
                st,
                ("dred_ins_"@, "dred_ifin_"@),
                alias,
                columns,
                base_cte,
                recursive,
                storage@,
            );
            let o = rc::dred_outcome(
                env,
                st,
                alias,
                columns,
                base_cte,
                base,
                recursive,
                union_all,
            );
            &&& ins.1 is Err ==> o == ins
            &&& ins.1 matches Ok(d) ==> o == rc::deletes_outcome(
                ins.0,
                alias,
                columns,
                base_cte,
                base,
                recursive,
                union_all,
                storage@,
                d.cte_name,
            )
            &&& rc::semi_naive_outcome(env, st, alias, columns, base_cte, recursive)
                == rc::inserts_outcome(
                env,
                st,
                ("rc_snv_"@, "rc_final_"@),
                alias,
                columns,
                base_cte,
                recursive,
                storage@,
            )
        },
{
}

// ── Propagation ────────────────────────────────────────────────────────

/// New rows start from the inserted rows of the base term and from what
/// inserted rows derive with stored ones, and go on by the recursive term over
/// themselves: each of these is a member of the recursive expression.
pub proof fn new_rows_start_from_every_seed(
    env: DiffEnv,
    st: DiffState,
    prefixes: (Seq<char>, Seq<char>),
    alias: Seq<char>,
    columns: Seq<Seq<char>>,
    base_cte: Seq<char>,
    recursive: OpTree,
    storage: Seq<char>,
    k: int,
)
    requires
        rc::inserts_outcome(
            env,
            st,
            prefixes,
            alias,
            columns,
            base_cte,
            recursive,
            storage,
        ).1 is Ok,
    ensures
        ({
            let (now, d) = rc::inserts_outcome(
                env,
                st,
                prefixes,
                alias,
                columns,
                base_cte,
                recursive,
                storage,
            );
            let n = st.ctes.len() as int;
            let rec = now.ctes[n];
            let seeds = rs::nonlinear_seeds(
                recursive,
                rs::self_ref_aliases(recursive),
                base_cte,
                storage,
                columns,
            );
            let cols = diff::cols_text(columns);
            &&& now.ctes.len() == n + 2
            &&& now.ctes.take(n) == st.ctes
            &&& rec.kind == CteKind::Recursive
            &&& text::occurs(
                rec.sql,
                "SELECT "@ + cols + " FROM "@ + base_cte + " WHERE __pgs_action = 'I'"@,
            )
            &&& rs::change_query(env, recursive, storage) matches Ok(Some(e)) ==> text::occurs(
                rec.sql,
                e,
            )
            &&& seeds is Ok && 0 <= k < seeds->Ok_0.len() ==> text::occurs(
                rec.sql,
                seeds->Ok_0[k],
            )
            &&& rs::query(recursive, Some(rec.name)) is Ok
            &&& text::occurs(rec.sql, rs::query(recursive, Some(rec.name))->Ok_0)
            &&& d->Ok_0.cte_name == now.ctes[n + 1].name
            &&& now.ctes[n + 1].sql == rc::new_rows_sql(cols, rec.name)
            &&& d->Ok_0.columns == columns
        }),
{
    let (now, d) = rc::inserts_outcome(
        env,
        st,
        prefixes,
        alias,
        columns,
        base_cte,
        recursive,
        storage,
    );
    let n = st.ctes.len() as int;
    let rec = now.ctes[n];
    let cols = diff::cols_text(columns);
    let existing = rs::change_query(env, recursive, storage)->Ok_0;
    let seeds = rs::nonlinear_seeds(
        recursive,
        rs::self_ref_aliases(recursive),
        base_cte,
        storage,
        columns,
    )->Ok_0;
    let prop = rs::query(recursive, Some(rec.name))->Ok_0;
    let first = rc::inserted_sql(cols, base_cte);
    assert(now.ctes.take(n) =~= st.ctes);
    lemma_members(first, existing, seeds, prop, k);
    assert(
        rec.sql == text::join(rc::insert_members(first, existing, seeds, prop), "\nUNION ALL\n"@)
    );
}

/// Each member occurs among the members.
proof fn lemma_members(
    first: Seq<char>,
    existing: Option<Seq<char>>,
    seeds: Seq<Seq<char>>,
    prop: Seq<char>,
    k: int,
)
    ensures
        ({
            let t = text::join(
                rc::insert_members(first, existing, seeds, prop),
                "\nUNION ALL\n"@,
            );
            &&& text::occurs(t, first)
            &&& existing matches Some(e) ==> text::occurs(t, e)
            &&& 0 <= k < seeds.len() ==> text::occurs(t, seeds[k])
            &&& text::occurs(t, prop)
        }),
{
    let m = rc::insert_members(first, existing, seeds, prop);
    let sep = "\nUNION ALL\n"@;
    joined_parts_occur(m, sep, 0);
    joined_parts_occur(m, sep, m.len() - 1);
    match existing {
        Some(e) => {
            joined_parts_occur(m, sep, 1);
            if 0 <= k < seeds.len() {
                joined_parts_occur(m, sep, k + 2);
            }
        },
        None => {
            if 0 <= k < seeds.len() {
                joined_parts_occur(m, sep, k + 1);
            }
        },
    }
}

/// Deletions start from the deleted rows of the base term, go on through the
/// storage table, and what the expression still derives is kept: the delta has
/// the new rows and the stored rows that are gone.
pub proof fn deletions_are_rederived(
    st: DiffState,
    alias: Seq<char>,
    columns: Seq<Seq<char>>,
    base_cte: Seq<char>,
    base: OpTree,
    recursive: OpTree,
    union_all: bool,
    storage: Seq<char>,
    ins_cte: Seq<char>,
)
    requires
        rc::deletes_outcome(
            st,
            alias,
            columns,
            base_cte,
            base,
            recursive,
            union_all,
            storage,
            ins_cte,
        ).1 is Ok,
    ensures
        ({
            let (now, d) = rc::deletes_outcome(
                st,
                alias,
                columns,
                base_cte,
                base,
                recursive,
                union_all,
                storage,
                ins_cte,
            );
            let n = st.ctes.len() as int;
            let c = now.ctes;
            let cols = diff::cols_text(columns);
            &&& c.len() == n + 7
            &&& c.take(n) == st.ctes
            &&& c[n].sql == rc::deleted_sql(cols, base_cte)
            &&& c[n + 1].kind == CteKind::Recursive
            &&& rs::cascade_query(recursive, c[n + 1].name, storage) is Ok
            &&& c[n + 1].sql == rc::del_cascade_sql(
                cols,
                c[n].name,
                rs::cascade_query(recursive, c[n + 1].name, storage)->Ok_0,
            )
            &&& rs::query(base, None) is Ok && rs::query(recursive, Some(alias)) is Ok
            &&& c[n + 2].sql == rc::fixpoint_sql(
                sql_builder::ident_text(alias),
                rs::query(base, None)->Ok_0,
                if union_all {
                    "UNION ALL"@
                } else {
                    "UNION"@
                },
                rs::query(recursive, Some(alias))->Ok_0,
                cols,
            )
            &&& c[n + 3].sql == rc::rederived_sql(cols, c[n + 1].name, c[n + 2].name)
            &&& c[n + 4].sql == rc::net_deleted_sql(cols, c[n + 1].name, c[n + 3].name)
            &&& c[n + 5].sql == rc::stored_deletes_sql(
                text::join(diff::wrapped("s."@, columns, ""@), ", "@),
                c[n + 4].name,
                storage,
                text::join(diff::equalities("d."@, "s."@, columns), " AND "@),
            )
            &&& c[n + 6].sql == rc::both_changes_sql(ins_cte, c[n + 5].name)
            &&& d->Ok_0.cte_name == c[n + 6].name
            &&& d->Ok_0.columns == columns
        }),
{
    let (now, d) = rc::deletes_outcome(
        st,
        alias,
        columns,
        base_cte,
        base,
        recursive,
        union_all,
        storage,
        ins_cte,
    );
    assert(now.ctes.take(st.ctes.len() as int) =~= st.ctes);
}

// ── Strategies ─────────────────────────────────────────────────────────

/// Whether one of the sources of a tree has updates or deletes.
pub open spec fn touched(env: DiffEnv, op: OpTree) -> bool {
    exists|oid: u32| #[trigger]
        op.spec_sources().contains(oid) && env.sources_with_deletes@.contains(oid)
}

/// Updates or deletes of a source of either term count.
proof fn lemma_touched(env: DiffEnv, op: OpTree)
    ensures
        rc::any_deletes(env, op.spec_sources()) <==> touched(env, op),
{
    let oids = op.spec_sources();
    if rc::any_deletes(env, oids) {
        let i = choose|i: int|
            0 <= i < oids.len() && env.sources_with_deletes@.contains(#[trigger] oids[i]);
        assert(op.spec_sources().contains(oids[i]));
    }
    if touched(env, op) {
        let oid = choose|oid: u32| #[trigger]
            op.spec_sources().contains(oid) && env.sources_with_deletes@.contains(oid);
        let i = oids.index_of(oid);
        assert(env.sources_with_deletes@.contains(oids[i]));
    }
}

/// The strategy for a recursive expression.  Several self-references are
/// refused; where the storage table has other columns, the expression is
/// computed anew; else, where a source of the base term or of the recursive
/// term has updates or deletes, deletions are rederived; else only inserts are
/// propagated.
pub proof fn the_strategy_follows_the_changes(env: DiffEnv, st: DiffState, op: OpTree)
    requires
        op is RecursiveCte,
    ensures
        op matches OpTree::RecursiveCte { alias, columns, base, recursive, union_all } ==> {
            let o = rc::recursive_cte_diff(env, st, op);
            let cols = text::texts(columns@);
            let same = env.st_user_columns matches Some(c) && text::texts(c@) == cols;
            let b = engine::tree_diff(env, st, *base);
            let changed = touched(env, *base) || touched(env, *recursive);
            &&& rs::self_refs(*recursive) > 1 ==> o.0 == st && o.1 is Err
                && o.1->Err_0 is UnsupportedOperator
            &&& rs::self_refs(*recursive) <= 1 && !same ==> o == rc::recomputation_outcome(
                env,
                st,
                alias@,
                cols,
                *base,
                *recursive,
                union_all,
            )
            &&& rs::self_refs(*recursive) <= 1 && same && b.1 is Err ==> o == b
            &&& rs::self_refs(*recursive) <= 1 && same && b.1 is Ok && changed ==> o
                == rc::dred_outcome(
                env,
                b.0,
                alias@,
                cols,
                b.1->Ok_0.cte_name,
                *base,
                *recursive,
                union_all,
            )
            &&& rs::self_refs(*recursive) <= 1 && same && b.1 is Ok && !changed ==> o
                == rc::semi_naive_outcome(
                env,
                b.0,
                alias@,
                cols,
                b.1->Ok_0.cte_name,
                *recursive,
            )
        },
{
    reveal_with_fuel(engine::tree_diff, 1);
    lemma_touched(env, op);
    match op {
        OpTree::RecursiveCte { base, recursive, .. } => {
            rs::one_alias_per_self_ref(*recursive);
            let all = op.spec_sources();
            let n = base.spec_sources().len();
            tree_laws::sources_are_those_of_the_inputs(op);
            if touched(env, *base) {
                let oid = choose|oid: u32| #[trigger]
                    base.spec_sources().contains(oid) && env.sources_with_deletes@.contains(oid);
                tree_laws::input_sources_are_sources(op, 0, oid);
            }
            if touched(env, *recursive) {
                let oid = choose|oid: u32| #[trigger]
                    recursive.spec_sources().contains(oid) && env.sources_with_deletes@.contains(
                        oid,
                    );
                tree_laws::input_sources_are_sources(op, 1, oid);
            }
            if touched(env, op) {
                let oid = choose|oid: u32| #[trigger]
                    op.spec_sources().contains(oid) && env.sources_with_deletes@.contains(oid);
                let i = all.index_of(oid);
                if i < n {
                    assert(base.spec_sources()[i] == oid);
                    assert(base.spec_sources().contains(oid));
                } else {
                    assert(recursive.spec_sources()[i - n] == oid);
                    assert(recursive.spec_sources().contains(oid));
                }
            }
        },
        _ => {},
    }
}

/// Where the defining query is known it is run, and else the terms of the
/// expression; the result is compared with the storage table both ways.
pub proof fn recomputation_compares_both_ways(
    env: DiffEnv,
    st: DiffState,
    alias: Seq<char>,
    columns: Seq<Seq<char>>,
    base: OpTree,
    recursive: OpTree,
    union_all: bool,
)
    requires
        env.st_qualified_name is Some,
        rc::recomputation(env, alias, columns, base, recursive, union_all) is Ok,
    ensures
        ({
            let (q, out) = rc::recomputation(
                env,
                alias,
                columns,
                base,
                recursive,
                union_all,
            )->Ok_0;
            let (now, d) = rc::recomputation_outcome(
                env,
                st,
                alias,
                columns,
                base,
                recursive,
                union_all,
            );
            let n = st.ctes.len() as int;
            let c = now.ctes;
            let storage = env.st_qualified_name->0@;
            &&& env.defining_query is Some && env.st_user_columns is Some ==> q
                == env.defining_query->0@ && out == text::texts(env.st_user_columns->0@)
            &&& env.defining_query is None || env.st_user_columns is None ==> out == columns
                && rs::query(base, None) is Ok && text::occurs(q, rs::query(base, None)->Ok_0)
                && rs::query(recursive, Some(alias)) is Ok && text::occurs(
                q,
                rs::query(recursive, Some(alias))->Ok_0,
            )
            &&& c.len() == n + 4
            &&& c.take(n) == st.ctes
            &&& c[n].sql == rc::recomputed_sql(q)
            &&& c[n + 1].sql == rc::appeared_sql(
                text::join(diff::wrapped("n."@, out, ""@), ", "@),
                c[n].name,
                storage,
            )
            &&& c[n + 2].sql == rc::vanished_sql(
                text::join(diff::wrapped("s."@, out, ""@), ", "@),
                storage,
                c[n].name,
            )
            &&& c[n + 3].sql == rc::both_changes_sql(c[n + 1].name, c[n + 2].name)
            &&& d is Ok && d->Ok_0.cte_name == c[n + 3].name && d->Ok_0.columns == out
        }),
{
    let (now, d) = rc::recomputation_outcome(env, st, alias, columns, base, recursive, union_all);
    assert(now.ctes.take(st.ctes.len() as int) =~= st.ctes);
    if env.defining_query is None || env.st_user_columns is None {
        let b = rs::query(base, None)->Ok_0;
        let r = rs::query(recursive, Some(alias))->Ok_0;
        lemma_fixpoint(
            sql_builder::ident_text(alias),
            b,
            rc::union_word(union_all),
            r,
            diff::cols_text(columns),
        );
    }
}

/// A recursive expression has both of its terms.
proof fn lemma_fixpoint(
    alias: Seq<char>,
    b: Seq<char>,
    word: Seq<char>,
    r: Seq<char>,
    cols: Seq<char>,
)
    ensures
        text::occurs(rc::fixpoint_sql(alias, b, word, r, cols), b),
        text::occurs(rc::fixpoint_sql(alias, b, word, r, cols), r),
{
    let t = rc::fixpoint_sql(alias, b, word, r, cols);
    let x = "WITH RECURSIVE "@ + alias + " AS (\n"@;
    let tail = "\n)\nSELECT "@ + cols + " FROM "@ + alias;
    text_laws::parts_of_a_text_occur_in_it(x, b, "\n"@ + word + "\n"@ + r + tail);
    assert(t =~= x + b + ("\n"@ + word + "\n"@ + r + tail));
    let y = x + b + "\n"@ + word + "\n"@;
    text_laws::parts_of_a_text_occur_in_it(y, r, tail);
    assert(t =~= y + r + tail);
}

/// The word between the terms of an expression keeps repetitions or not.
pub proof fn union_keeps_repetitions_only_with_all(a: bool, b: bool)
    ensures
        rc::union_word(true) == "UNION ALL"@,
        rc::union_word(false) == "UNION"@,
        rc::union_word(a) == rc::union_word(b) ==> a == b,
{
    reveal_strlit("UNION ALL");
    reveal_strlit("UNION");
    assert("UNION ALL"@.len() == 9 && "UNION"@.len() == 5);
}

} // verus!
