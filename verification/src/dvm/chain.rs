//! Laws of the chain of CTEs that a differentiation builds.
//!
//! The chain only grows, every name in it is used once, and the delta of an
//! operator is one of its CTEs, so the query that reads the delta is closed.

use vstd::prelude::*;

use crate::dvm::diff;
use crate::dvm::diff::{CteKind, CteView, Delta, DiffEnv, DiffState, Outcome};
use crate::dvm::engine;
use crate::dvm::operators::anti_join;
use crate::dvm::operators::cte_scan;
use crate::dvm::operators::distinct;
use crate::dvm::operators::filter;
use crate::dvm::operators::full_join;
use crate::dvm::operators::join;
use crate::dvm::operators::outer_join;
use crate::dvm::operators::recursive_cte;
use crate::dvm::operators::recursive_cte::named;
use crate::dvm::operators::recursive_sql;
use crate::dvm::operators::scalar_subquery;
use crate::dvm::operators::scan;
use crate::dvm::operators::semi_join;
use crate::dvm::operators::window;
use crate::dvm::parser;
use crate::dvm::parser::{ExprView, OpTree, WindowExpr};
use crate::error::ErrorView;
use crate::lexical;
use crate::text;

verus! {

// ── What a differentiation keeps ───────────────────────────────────────

/// Whether a name has a number above `low` and up to `high`.
pub open spec fn numbered(name: Seq<char>, low: int, high: int) -> bool {
    exists|prefix: Seq<char>, n: u64|
        low < n <= high && name == #[trigger] diff::cte_name(prefix, n)
}

/// Whether CTEs from a position on have different names with numbers above
/// `low` and up to `high`.
pub open spec fn names_differ(ctes: Seq<CteView>, from: int, low: int, high: int) -> bool {
    &&& forall|i: int|
        from <= i < ctes.len() ==> numbered((#[trigger] ctes[i]).name, low, high)
    &&& forall|i: int, j: int|
        from <= i < j < ctes.len() ==> (#[trigger] ctes[i]).name != (#[trigger] ctes[j]).name
}

/// Whether a chain defines a name.
pub open spec fn defines(ctes: Seq<CteView>, name: Seq<char>) -> bool {
    exists|i: int| 0 <= i < ctes.len() && (#[trigger] ctes[i]).name == name
}

/// Whether every recorded delta is a CTE of the chain.
pub open spec fn settled(st: DiffState) -> bool {
    forall|i: int|
        0 <= i < st.deltas.len() ==> defines(st.ctes, (#[trigger] st.deltas[i]).1.cte_name)
}

/// Whether a state can follow another after `given` names were given out.
#[verifier::opaque]
pub open spec fn follows(a: DiffState, b: DiffState, given: nat) -> bool {
    &&& a.ctes.is_prefix_of(b.ctes)
    &&& a.deltas.is_prefix_of(b.deltas)
    &&& settled(a) ==> settled(b)
    &&& a.counter + given <= u64::MAX ==> b.counter == a.counter + given && names_differ(
        b.ctes,
        a.ctes.len() as int,
        a.counter as int,
        b.counter as int,
    )
}

/// Whether an outcome can follow a state after `given` names were given out:
/// where there is a delta, each name stands for one CTE, and the delta is one
/// of the chain.
pub open spec fn outcome_follows(a: DiffState, o: Outcome, given: nat) -> bool {
    &&& follows(a, o.0, given)
    &&& match o.1 {
        Ok(d) => {
            &&& o.0.ctes.len() == a.ctes.len() + given
            &&& o.0.inside_semijoin == a.inside_semijoin
            &&& settled(a) ==> defines(o.0.ctes, d.cte_name)
        },
        Err(_) => true,
    }
}

// ── Names ──────────────────────────────────────────────────────────────

/// CTEs with different numbers have different names, whatever their prefixes.
pub proof fn numbers_tell_names_apart(p: Seq<char>, q: Seq<char>, m: u64, n: u64)
    requires
        m != n,
    ensures
        diff::cte_name(p, m) != diff::cte_name(q, n),
{
    reveal_strlit("_");
    let a = "__pgs_cte_"@ + p + "_"@;
    let b = "__pgs_cte_"@ + q + "_"@;
    assert(a.last() == '_');
    assert(b.last() == '_');
    if diff::cte_name(p, m) == diff::cte_name(q, n) {
        lexical::last_number_is_read(a, b, m as nat, n as nat);
    }
}

/// A state follows itself.
proof fn lemma_same(a: DiffState)
    ensures
        follows(a, a, 0),
{
    reveal(follows);
}

/// What follows a state that follows another follows the other.
proof fn lemma_then(a: DiffState, b: DiffState, c: DiffState, m: nat, n: nat)
    requires
        follows(a, b, m),
        follows(b, c, n),
    ensures
        follows(a, c, m + n),
        a.ctes.len() <= b.ctes.len() <= c.ctes.len(),
{
    reveal(follows);
    assert(a.ctes =~= b.ctes.take(a.ctes.len() as int));
    assert(b.ctes =~= c.ctes.take(b.ctes.len() as int));
    assert(a.ctes =~= c.ctes.take(a.ctes.len() as int));
    assert(a.deltas =~= b.deltas.take(a.deltas.len() as int));
    assert(b.deltas =~= c.deltas.take(b.deltas.len() as int));
    assert(a.deltas =~= c.deltas.take(a.deltas.len() as int));
    if a.counter + m + n <= u64::MAX {
        let from = a.ctes.len() as int;
        let mid = b.ctes.len() as int;
        assert forall|i: int| from <= i < c.ctes.len() implies numbered(
            (#[trigger] c.ctes[i]).name,
            a.counter as int,
            c.counter as int,
        ) by {
            if i < mid {
                assert(c.ctes[i] == b.ctes[i]);
                assert(numbered(b.ctes[i].name, a.counter as int, b.counter as int));
            } else {
                assert(numbered(c.ctes[i].name, b.counter as int, c.counter as int));
            }
        }
        assert forall|i: int, j: int| from <= i < j < c.ctes.len() implies (
        #[trigger] c.ctes[i]).name != (#[trigger] c.ctes[j]).name by {
            if j < mid {
                assert(c.ctes[i] == b.ctes[i]);
                assert(c.ctes[j] == b.ctes[j]);
            } else if i < mid {
                assert(c.ctes[i] == b.ctes[i]);
                assert(numbered(b.ctes[i].name, a.counter as int, b.counter as int));
                assert(numbered(c.ctes[j].name, b.counter as int, c.counter as int));
                let (p, x) = choose|p: Seq<char>, x: u64|
                    a.counter < x <= b.counter && b.ctes[i].name == #[trigger] diff::cte_name(p, x);
                let (q, y) = choose|q: Seq<char>, y: u64|
                    b.counter < y <= c.counter && c.ctes[j].name == #[trigger] diff::cte_name(q, y);
                numbers_tell_names_apart(p, q, x, y);
            }
        }
    }
}

/// A state follows another if the names given out have the next numbers, and
/// the first of them stand for the CTEs that were added, in order.
proof fn lemma_added(a: DiffState, b: DiffState, prefixes: Seq<Seq<char>>, given: nat)
    requires
        prefixes.len() <= given,
        b.ctes.len() == a.ctes.len() + prefixes.len(),
        forall|i: int| 0 <= i < a.ctes.len() ==> #[trigger] b.ctes[i] == a.ctes[i],
        b.deltas == a.deltas,
        a.counter + given <= u64::MAX ==> b.counter == a.counter + given && forall|i: int|
            0 <= i < prefixes.len() ==> b.ctes[a.ctes.len() + i].name == diff::cte_name(
                #[trigger] prefixes[i],
                (a.counter + i + 1) as u64,
            ),
    ensures
        follows(a, b, given),
        settled(a) ==> settled(b),
{
    reveal(follows);
    let from = a.ctes.len() as int;
    assert(a.ctes =~= b.ctes.take(from));
    assert(a.deltas =~= b.deltas.take(a.deltas.len() as int));
    if settled(a) {
        assert forall|i: int| 0 <= i < b.deltas.len() implies defines(
            b.ctes,
            (#[trigger] b.deltas[i]).1.cte_name,
        ) by {
            let name = a.deltas[i].1.cte_name;
            assert(defines(a.ctes, name));
            let j = choose|j: int| 0 <= j < a.ctes.len() && (#[trigger] a.ctes[j]).name == name;
            assert(b.ctes[j].name == name);
        }
    }
    if a.counter + given <= u64::MAX {
        assert forall|i: int| from <= i < b.ctes.len() implies numbered(
            (#[trigger] b.ctes[i]).name,
            a.counter as int,
            b.counter as int,
        ) by {
            let p = prefixes[i - from];
            assert(b.ctes[from + (i - from)].name == diff::cte_name(
                p,
                (a.counter + (i - from) + 1) as u64,
            ));
        }
        assert forall|i: int, j: int| from <= i < j < b.ctes.len() implies (
        #[trigger] b.ctes[i]).name != (#[trigger] b.ctes[j]).name by {
            let p = prefixes[i - from];
            let q = prefixes[j - from];
            assert(b.ctes[from + (i - from)].name == diff::cte_name(
                p,
                (a.counter + (i - from) + 1) as u64,
            ));
            assert(b.ctes[from + (j - from)].name == diff::cte_name(
                q,
                (a.counter + (j - from) + 1) as u64,
            ));
            numbers_tell_names_apart(
                p,
                q,
                (a.counter + (i - from) + 1) as u64,
                (a.counter + (j - from) + 1) as u64,
            );
        }
    }
}

/// An outcome follows a state if the names given out have the next numbers and
/// stand for the CTEs that were added, in order, the last of them the delta.
proof fn lemma_outcome(a: DiffState, o: Outcome, d: Delta, prefixes: Seq<Seq<char>>)
    requires
        prefixes.len() > 0,
        o.1 == Ok::<Delta, ErrorView>(d),
        o.0.inside_semijoin == a.inside_semijoin,
        o.0.ctes.len() == a.ctes.len() + prefixes.len(),
        o.0.ctes.last().name == d.cte_name,
        forall|i: int| 0 <= i < a.ctes.len() ==> #[trigger] o.0.ctes[i] == a.ctes[i],
        o.0.deltas == a.deltas,
        a.counter + prefixes.len() <= u64::MAX ==> o.0.counter == a.counter + prefixes.len()
            && forall|i: int|
            0 <= i < prefixes.len() ==> o.0.ctes[a.ctes.len() + i].name == diff::cte_name(
                #[trigger] prefixes[i],
                (a.counter + i + 1) as u64,
            ),
    ensures
        outcome_follows(a, o, prefixes.len()),
{
    lemma_added(a, o.0, prefixes, prefixes.len());
    assert(o.0.ctes[o.0.ctes.len() - 1].name == d.cte_name);
}

/// An outcome that follows a state follows what that state follows.
proof fn lemma_onward(a: DiffState, b: DiffState, o: Outcome, m: nat, n: nat)
    requires
        follows(a, b, m),
        b.ctes.len() == a.ctes.len() + m,
        b.inside_semijoin == a.inside_semijoin,
        outcome_follows(b, o, n),
    ensures
        outcome_follows(a, o, m + n),
{
    lemma_then(a, b, o.0, m, n);
    reveal(follows);
}

/// An operator with one input.
proof fn lemma_one_input(st: DiffState, i: Outcome, o: Outcome, m: nat, k: nat) -> (given: nat)
    requires
        outcome_follows(st, i, m),
        i.1 is Ok ==> outcome_follows(i.0, o, k),
        i.1 is Err ==> o.0 == i.0 && o.1 is Err,
    ensures
        outcome_follows(st, o, given),
{
    if i.1 is Ok {
        lemma_onward(st, i.0, o, m, k);
        m + k
    } else {
        m
    }
}

/// An operator with two inputs.
proof fn lemma_two_inputs(
    st: DiffState,
    i: Outcome,
    j: Outcome,
    o: Outcome,
    m: nat,
    n: nat,
    k: nat,
) -> (given: nat)
    requires
        outcome_follows(st, i, m),
        i.1 is Ok ==> outcome_follows(i.0, j, n),
        i.1 is Ok && j.1 is Ok ==> outcome_follows(j.0, o, k),
        i.1 is Ok && j.1 is Err ==> o.0 == j.0 && o.1 is Err,
        i.1 is Err ==> o.0 == i.0 && o.1 is Err,
    ensures
        outcome_follows(st, o, given),
{
    if i.1 is Ok {
        let next = lemma_one_input(i.0, j, o, n, k);
        lemma_one_input(st, i, o, m, next)
    } else {
        m
    }
}

// ── Operators ──────────────────────────────────────────────────────────

/// Scans.
proof fn lemma_scan(env: DiffEnv, st: DiffState, op: OpTree)
    requires
        op is Scan,
    ensures
        outcome_follows(st, scan::scan_diff(env, st, op), 5),
{
    let alias = op->Scan_alias@;
    let o = scan::scan_diff(env, st, op);
    lemma_outcome(
        st,
        o,
        o.1->Ok_0,
        seq![
            "pk_stats_"@ + alias,
            "single_"@ + alias,
            "multi_raw_"@ + alias,
            "scan_raw_"@ + alias,
            "scan_"@ + alias,
        ],
    );
}

/// Filters.
proof fn lemma_filter(st: DiffState, predicate: ExprView, c: Delta)
    ensures
        outcome_follows(st, filter::filter_outcome(st, predicate, c), 1),
{
    let o = filter::filter_outcome(st, predicate, c);
    lemma_outcome(st, o, o.1->Ok_0, seq!["filter"@]);
}

/// Inner joins.
proof fn lemma_inner_join(
    st: DiffState,
    condition: ExprView,
    left: OpTree,
    right: OpTree,
    l: Delta,
    r: Delta,
)
    ensures
        outcome_follows(st, join::inner_join_outcome(st, condition, left, right, l, r), 1),
{
    let o = join::inner_join_outcome(st, condition, left, right, l, r);
    lemma_outcome(st, o, o.1->Ok_0, seq!["join"@]);
}

/// Left joins.
proof fn lemma_left_join(
    st: DiffState,
    condition: ExprView,
    left: OpTree,
    right: OpTree,
    l: Delta,
    r: Delta,
)
    ensures
        outcome_follows(st, outer_join::left_join_outcome(st, condition, left, right, l, r), 2),
{
    let o = outer_join::left_join_outcome(st, condition, left, right, l, r);
    lemma_outcome(st, o, o.1->Ok_0, seq!["lj_right_flags"@, "left_join"@]);
}

/// Full joins.
proof fn lemma_full_join(
    st: DiffState,
    condition: ExprView,
    left: OpTree,
    right: OpTree,
    l: Delta,
    r: Delta,
)
    ensures
        outcome_follows(
            st,
            full_join::full_join_outcome(st, condition, left, right, l, r),
            3,
        ),
{
    let o = full_join::full_join_outcome(st, condition, left, right, l, r);
    lemma_outcome(
        st,
        o,
        o.1->Ok_0,
        seq!["fj_left_flags"@, "fj_right_flags"@, "full_join"@],
    );
}

/// Semi-joins.
proof fn lemma_semi_join(
    st: DiffState,
    condition: ExprView,
    left: OpTree,
    right: OpTree,
    l: Delta,
    r: Delta,
)
    ensures
        outcome_follows(st, semi_join::semi_join_outcome(st, condition, left, right, l, r), 2),
{
    let o = semi_join::semi_join_outcome(st, condition, left, right, l, r);
    lemma_outcome(st, o, o.1->Ok_0, seq!["r_old"@, "semi_join"@]);
}

/// Anti-joins.
proof fn lemma_anti_join(
    st: DiffState,
    condition: ExprView,
    left: OpTree,
    right: OpTree,
    l: Delta,
    r: Delta,
)
    ensures
        outcome_follows(st, anti_join::anti_join_outcome(st, condition, left, right, l, r), 1),
{
    let o = anti_join::anti_join_outcome(st, condition, left, right, l, r);
    lemma_outcome(st, o, o.1->Ok_0, seq!["anti_join"@]);
}

/// `DISTINCT`.
proof fn lemma_distinct(env: DiffEnv, st: DiffState, c: Delta)
    ensures
        outcome_follows(st, distinct::distinct_outcome(env, st, c), 3),
{
    let o = distinct::distinct_outcome(env, st, c);
    lemma_outcome(st, o, o.1->Ok_0, seq!["dist_delta"@, "dist_merge"@, "dist_final"@]);
}

/// Window functions.
proof fn lemma_window(
    env: DiffEnv,
    st: DiffState,
    ws: Seq<WindowExpr>,
    partition: Seq<Seq<char>>,
    pt: Seq<Seq<char>>,
    c: Delta,
)
    ensures
        outcome_follows(st, window::window_outcome(env, st, ws, partition, pt, c), 5),
{
    let o = window::window_outcome(env, st, ws, partition, pt, c);
    lemma_outcome(
        st,
        o,
        o.1->Ok_0,
        seq!["win_parts"@, "win_old"@, "win_input"@, "win_recomp"@, "win_final"@],
    );
}

/// Scalar subqueries.
proof fn lemma_scalar_subquery(
    st: DiffState,
    subquery: OpTree,
    alias: Seq<char>,
    child: OpTree,
    c: Delta,
    s: Delta,
)
    ensures
        outcome_follows(
            st,
            scalar_subquery::scalar_subquery_outcome(st, subquery, alias, child, c, s),
            1,
        ),
{
    let o = scalar_subquery::scalar_subquery_outcome(st, subquery, alias, child, c, s);
    lemma_outcome(st, o, o.1->Ok_0, seq!["scalar_sub"@]);
}

/// References to common table expressions, given the delta of the body.
proof fn lemma_reference(
    st: DiffState,
    alias: Seq<char>,
    own: Seq<Seq<char>>,
    defined: Seq<Seq<char>>,
    base: Delta,
) -> (given: nat)
    requires
        settled(st) ==> defines(st.ctes, base.cte_name),
    ensures
        outcome_follows(st, cte_scan::cte_scan_outcome(st, alias, own, defined, base), given),
{
    let o = cte_scan::cte_scan_outcome(st, alias, own, defined, base);
    if cte_scan::effective_columns(own, defined, base.columns) == base.columns {
        lemma_same(st);
        0
    } else {
        lemma_outcome(st, o, o.1->Ok_0, seq!["ctescan_"@ + alias]);
        1
    }
}

/// The propagation of inserts of a recursive expression.
proof fn lemma_inserts(
    env: DiffEnv,
    st: DiffState,
    prefixes: (Seq<char>, Seq<char>),
    alias: Seq<char>,
    columns: Seq<Seq<char>>,
    base_cte: Seq<char>,
    recursive: OpTree,
    storage: Seq<char>,
) -> (given: nat)
    ensures
        outcome_follows(
            st,
            recursive_cte::inserts_outcome(
                env,
                st,
                prefixes,
                alias,
                columns,
                base_cte,
                recursive,
                storage,
            ),
            given,
        ),
{
    let o = recursive_cte::inserts_outcome(
        env,
        st,
        prefixes,
        alias,
        columns,
        base_cte,
        recursive,
        storage,
    );
    match o.1 {
        Ok(d) => {
            lemma_outcome(st, o, d, seq![named(prefixes.0, alias), named(prefixes.1, alias)]);
            2
        },
        Err(_) => {
            lemma_added(st, o.0, Seq::empty(), 1);
            1
        },
    }
}

/// The comparison of a recursive expression with the storage table.
proof fn lemma_compared(
    st: DiffState,
    alias: Seq<char>,
    query: Seq<char>,
    columns: Seq<Seq<char>>,
    storage: Seq<char>,
)
    ensures
        outcome_follows(
            st,
            recursive_cte::compared_outcome(st, alias, query, columns, storage),
            4,
        ),
{
    let o = recursive_cte::compared_outcome(st, alias, query, columns, storage);
    lemma_outcome(
        st,
        o,
        o.1->Ok_0,
        seq![
            named("rc_recomp_"@, alias),
            named("rc_ins_"@, alias),
            named("rc_del_"@, alias),
            named("rc_delta_"@, alias),
        ],
    );
}

/// The deletion of what a cascade holds and a recursive expression no longer
/// derives.
proof fn lemma_net(
    st: DiffState,
    alias: Seq<char>,
    columns: Seq<Seq<char>>,
    full_sql: Seq<char>,
    cascade: Seq<char>,
    storage: Seq<char>,
    ins_cte: Seq<char>,
)
    ensures
        outcome_follows(
            st,
            recursive_cte::net_outcome(st, alias, columns, full_sql, cascade, storage, ins_cte),
            5,
        ),
{
    let o = recursive_cte::net_outcome(st, alias, columns, full_sql, cascade, storage, ins_cte);
    lemma_outcome(
        st,
        o,
        o.1->Ok_0,
        seq![
            named("dred_rfull_"@, alias),
            named("dred_rdrv_"@, alias),
            named("dred_ndel_"@, alias),
            named("dred_dfin_"@, alias),
            named("dred_comb_"@, alias),
        ],
    );
}

/// The propagation of deletes of a recursive expression.
proof fn lemma_deletes(
    st: DiffState,
    alias: Seq<char>,
    columns: Seq<Seq<char>>,
    base_cte: Seq<char>,
    base: OpTree,
    recursive: OpTree,
    union_all: bool,
    storage: Seq<char>,
    ins_cte: Seq<char>,
) -> (given: nat)
    ensures
        outcome_follows(
            st,
            recursive_cte::deletes_outcome(
                st,
                alias,
                columns,
                base_cte,
                base,
                recursive,
                union_all,
                storage,
                ins_cte,
            ),
            given,
        ),
{
    let o = recursive_cte::deletes_outcome(
        st,
        alias,
        columns,
        base_cte,
        base,
        recursive,
        union_all,
        storage,
        ins_cte,
    );
    let cols = diff::cols_text(columns);
    let seed = st.fresh(named("dred_dseed_"@, alias));
    let st1 = st.step(named("dred_dseed_"@, alias), recursive_cte::deleted_sql(cols, base_cte));
    let cascade = st1.fresh(named("dred_dcasc_"@, alias));
    match recursive_sql::cascade_query(recursive, cascade, storage) {
        Err(_) => {
            lemma_added(st, o.0, seq![named("dred_dseed_"@, alias)], 2);
            2
        },
        Ok(propagation) => {
            let st3 = st1.bumped().with_cte(
                cascade,
                recursive_cte::del_cascade_sql(cols, seed, propagation),
                CteKind::Recursive,
            );
            lemma_added(
                st,
                st3,
                seq![named("dred_dseed_"@, alias), named("dred_dcasc_"@, alias)],
                2,
            );
            match recursive_cte::fixpoint(
                alias,
                columns,
                base,
                recursive_cte::union_word(union_all),
                recursive,
            ) {
                Err(_) => 2,
                Ok(full) => {
                    lemma_net(st3, alias, columns, full, cascade, storage, ins_cte);
                    lemma_onward(st, st3, o, 2, 5);
                    7
                },
            }
        },
    }
}

/// The flag for semi-joins plays no part in what follows what.
proof fn lemma_flag(a: DiffState, b: DiffState, given: nat, x: bool, y: bool)
    requires
        follows(a, b, given),
    ensures
        follows(
            (DiffState { inside_semijoin: x, ..a }),
            (DiffState { inside_semijoin: y, ..b }),
            given,
        ),
        a.ctes.len() <= b.ctes.len(),
{
    reveal(follows);
    let c = DiffState { inside_semijoin: x, ..a };
    let d = DiffState { inside_semijoin: y, ..b };
    if settled(c) {
        assert(settled(a)) by {
            assert forall|i: int| 0 <= i < a.deltas.len() implies defines(
                a.ctes,
                (#[trigger] a.deltas[i]).1.cte_name,
            ) by {
                assert(c.deltas[i] == a.deltas[i]);
            }
        }
        assert forall|i: int| 0 <= i < d.deltas.len() implies defines(
            d.ctes,
            (#[trigger] d.deltas[i]).1.cte_name,
        ) by {
            assert(b.deltas[i] == d.deltas[i]);
        }
    }
}

/// A delta that is recorded is one of the chain.
proof fn lemma_recorded(st: DiffState, id: usize)
    requires
        settled(st),
        diff::recorded(st.deltas, id) is Some,
    ensures
        defines(st.ctes, diff::recorded(st.deltas, id)->0.cte_name),
    decreases st.deltas.len(),
{
    let rest = DiffState { deltas: st.deltas.drop_last(), ..st };
    if st.deltas.last().0 == id {
        assert(defines(st.ctes, st.deltas[st.deltas.len() - 1].1.cte_name));
    } else {
        assert forall|i: int| 0 <= i < rest.deltas.len() implies defines(
            rest.ctes,
            (#[trigger] rest.deltas[i]).1.cte_name,
        ) by {
            assert(st.deltas[i] == rest.deltas[i]);
        }
        lemma_recorded(rest, id);
    }
}

/// Recording the delta of an outcome keeps what follows what.
proof fn lemma_record(a: DiffState, b: DiffState, id: usize, d: Delta, given: nat)
    requires
        outcome_follows(a, (b, Ok(d)), given),
    ensures
        follows(a, (DiffState { deltas: b.deltas.push((id, d)), ..b }), given),
{
    reveal(follows);
    let c = DiffState { deltas: b.deltas.push((id, d)), ..b };
    assert(a.deltas =~= b.deltas.take(a.deltas.len() as int));
    assert(a.deltas =~= c.deltas.take(a.deltas.len() as int));
    if settled(a) {
        assert forall|i: int| 0 <= i < c.deltas.len() implies defines(
            c.ctes,
            (#[trigger] c.deltas[i]).1.cte_name,
        ) by {
            if i < b.deltas.len() {
                assert(b.deltas[i] == c.deltas[i]);
            }
        }
    }
}

/// Filters, given the outcome of their input.
proof fn lemma_filter_diff(env: DiffEnv, st: DiffState, op: OpTree, m: nat) -> (given: nat)
    requires
        op is Filter,
        outcome_follows(st, engine::tree_diff(env, st, *op->Filter_child), m),
    ensures
        outcome_follows(st, filter::filter_diff(env, st, op), given),
{
    reveal_with_fuel(engine::tree_diff, 1);
    match op {
        OpTree::Filter { predicate, child } => {
            let i = engine::tree_diff(env, st, *child);
            let o = filter::filter_diff(env, st, op);
            if i.1 is Ok {
                lemma_filter(i.0, predicate@, i.1->Ok_0);
            }
            lemma_one_input(st, i, o, m, 1)
        },
        _ => 0,
    }
}

/// Inner joins, given the outcomes of their inputs.
proof fn lemma_inner_join_diff(
    env: DiffEnv,
    st: DiffState,
    op: OpTree,
    m: nat,
    n: nat,
) -> (given: nat)
    requires
        op is InnerJoin,
        outcome_follows(st, engine::tree_diff(env, st, *op->InnerJoin_left), m),
        engine::tree_diff(env, st, *op->InnerJoin_left).1 is Ok ==> outcome_follows(
            engine::tree_diff(env, st, *op->InnerJoin_left).0,
            engine::tree_diff(
                env,
                engine::tree_diff(env, st, *op->InnerJoin_left).0,
                *op->InnerJoin_right,
            ),
            n,
        ),
    ensures
        outcome_follows(st, join::inner_join_diff(env, st, op), given),
{
    reveal_with_fuel(engine::tree_diff, 1);
    match op {
        OpTree::InnerJoin { condition, left, right } => {
            let i = engine::tree_diff(env, st, *left);
            let j = engine::tree_diff(env, i.0, *right);
            let o = join::inner_join_diff(env, st, op);
            if i.1 is Ok && j.1 is Ok {
                lemma_inner_join(j.0, condition@, *left, *right, i.1->Ok_0, j.1->Ok_0);
            }
            lemma_two_inputs(st, i, j, o, m, n, 1)
        },
        _ => 0,
    }
}

/// Left joins, given the outcomes of their inputs.
proof fn lemma_left_join_diff(
    env: DiffEnv,
    st: DiffState,
    op: OpTree,
    m: nat,
    n: nat,
) -> (given: nat)
    requires
        op is LeftJoin,
        outcome_follows(st, engine::tree_diff(env, st, *op->LeftJoin_left), m),
        engine::tree_diff(env, st, *op->LeftJoin_left).1 is Ok ==> outcome_follows(
            engine::tree_diff(env, st, *op->LeftJoin_left).0,
            engine::tree_diff(
                env,
                engine::tree_diff(env, st, *op->LeftJoin_left).0,
                *op->LeftJoin_right,
            ),
            n,
        ),
    ensures
        outcome_follows(st, outer_join::left_join_diff(env, st, op), given),
{
    reveal_with_fuel(engine::tree_diff, 1);
    match op {
        OpTree::LeftJoin { condition, left, right } => {
            let i = engine::tree_diff(env, st, *left);
            let j = engine::tree_diff(env, i.0, *right);
            let o = outer_join::left_join_diff(env, st, op);
            if i.1 is Ok && j.1 is Ok {
                lemma_left_join(j.0, condition@, *left, *right, i.1->Ok_0, j.1->Ok_0);
            }
            lemma_two_inputs(st, i, j, o, m, n, 2)
        },
        _ => 0,
    }
}

/// Full joins, given the outcomes of their inputs.
proof fn lemma_full_join_diff(
    env: DiffEnv,
    st: DiffState,
    op: OpTree,
    m: nat,
    n: nat,
) -> (given: nat)
    requires
        op is FullJoin,
        outcome_follows(st, engine::tree_diff(env, st, *op->FullJoin_left), m),
        engine::tree_diff(env, st, *op->FullJoin_left).1 is Ok ==> outcome_follows(
            engine::tree_diff(env, st, *op->FullJoin_left).0,
            engine::tree_diff(
                env,
                engine::tree_diff(env, st, *op->FullJoin_left).0,
                *op->FullJoin_right,
            ),
            n,
        ),
    ensures
        outcome_follows(st, full_join::full_join_diff(env, st, op), given),
{
    reveal_with_fuel(engine::tree_diff, 1);
    match op {
        OpTree::FullJoin { condition, left, right } => {
            let i = engine::tree_diff(env, st, *left);
            let j = engine::tree_diff(env, i.0, *right);
            let o = full_join::full_join_diff(env, st, op);
            if i.1 is Ok && j.1 is Ok {
                lemma_full_join(j.0, condition@, *left, *right, i.1->Ok_0, j.1->Ok_0);
            }
            lemma_two_inputs(st, i, j, o, m, n, 3)
        },
        _ => 0,
    }
}

/// Anti-joins, given the outcomes of their inputs.
proof fn lemma_anti_join_diff(
    env: DiffEnv,
    st: DiffState,
    op: OpTree,
    m: nat,
    n: nat,
) -> (given: nat)
    requires
        op is AntiJoin,
        outcome_follows(st, engine::tree_diff(env, st, *op->AntiJoin_left), m),
        engine::tree_diff(env, st, *op->AntiJoin_left).1 is Ok ==> outcome_follows(
            engine::tree_diff(env, st, *op->AntiJoin_left).0,
            engine::tree_diff(
                env,
                engine::tree_diff(env, st, *op->AntiJoin_left).0,
                *op->AntiJoin_right,
            ),
            n,
        ),
    ensures
        outcome_follows(st, anti_join::anti_join_diff(env, st, op), given),
{
    reveal_with_fuel(engine::tree_diff, 1);
    match op {
        OpTree::AntiJoin { condition, left, right } => {
            let i = engine::tree_diff(env, st, *left);
            let j = engine::tree_diff(env, i.0, *right);
            let o = anti_join::anti_join_diff(env, st, op);
            if i.1 is Ok && j.1 is Ok {
                lemma_anti_join(j.0, condition@, *left, *right, i.1->Ok_0, j.1->Ok_0);
            }
            lemma_two_inputs(st, i, j, o, m, n, 1)
        },
        _ => 0,
    }
}

/// Semi-joins, given the outcomes of their inputs.
proof fn lemma_semi_join_diff(
    env: DiffEnv,
    st: DiffState,
    op: OpTree,
    m: nat,
    n: nat,
) -> (given: nat)
    requires
        op is SemiJoin,
        ({
            let inside = DiffState { inside_semijoin: true, ..st };
            let i = engine::tree_diff(env, inside, *op->SemiJoin_left);
            let j = engine::tree_diff(env, i.0, *op->SemiJoin_right);
            outcome_follows(inside, i, m) && (i.1 is Ok ==> outcome_follows(i.0, j, n))
        }),
    ensures
        outcome_follows(st, semi_join::semi_join_diff(env, st, op), given),
{
    reveal_with_fuel(engine::tree_diff, 1);
    match op {
        OpTree::SemiJoin { condition, left, right } => {
            let inside = DiffState { inside_semijoin: true, ..st };
            let i = engine::tree_diff(env, inside, *left);
            let j = engine::tree_diff(env, i.0, *right);
            let o = semi_join::semi_join_diff(env, st, op);
            let flag = st.inside_semijoin;
            lemma_flag(inside, i.0, m, flag, i.0.inside_semijoin);
            if i.1 is Ok {
                lemma_then(inside, i.0, j.0, m, n);
                lemma_flag(inside, j.0, m + n, flag, j.0.inside_semijoin);
                if j.1 is Ok {
                    let back = DiffState { inside_semijoin: flag, ..j.0 };
                    lemma_flag(inside, j.0, m + n, flag, flag);
                    lemma_semi_join(back, condition@, *left, *right, i.1->Ok_0, j.1->Ok_0);
                    lemma_onward(st, back, o, m + n, 2);
                    m + n + 2
                } else {
                    m + n
                }
            } else {
                m
            }
        },
        _ => 0,
    }
}

/// `DISTINCT`, given the outcome of its input.
proof fn lemma_distinct_diff(env: DiffEnv, st: DiffState, op: OpTree, m: nat) -> (given: nat)
    requires
        op is Distinct,
        outcome_follows(st, engine::tree_diff(env, st, *op->Distinct_child), m),
    ensures
        outcome_follows(st, distinct::distinct_diff(env, st, op), given),
{
    reveal_with_fuel(engine::tree_diff, 1);
    match op {
        OpTree::Distinct { child } => {
            let i = engine::tree_diff(env, st, *child);
            let o = distinct::distinct_diff(env, st, op);
            if i.1 is Ok {
                lemma_distinct(env, i.0, i.1->Ok_0);
            }
            lemma_one_input(st, i, o, m, 3)
        },
        _ => 0,
    }
}

/// References to common table expressions, given the outcome of the body.
proof fn lemma_cte_scan_diff(env: DiffEnv, st: DiffState, op: OpTree, m: nat) -> (given: nat)
    requires
        env.cte_registry.acyclic(),
        op is CteScan,
        op->CteScan_cte_id < env.cte_registry.entries@.len() ==> outcome_follows(
            st,
            engine::tree_diff(
                env,
                st,
                env.cte_registry.entries@[op->CteScan_cte_id as int].1,
            ),
            m,
        ),
    ensures
        outcome_follows(st, cte_scan::cte_scan_diff(env, st, op), given),
{
    reveal_with_fuel(engine::tree_diff, 1);
    let o = cte_scan::cte_scan_diff(env, st, op);
    lemma_same(st);
    match op {
        OpTree::CteScan { cte_id, alias, cte_def_aliases, column_aliases, .. } => {
            let own = text::texts(column_aliases@);
            let defined = text::texts(cte_def_aliases@);
            match diff::recorded(st.deltas, cte_id) {
                Some(d) => {
                    if settled(st) {
                        lemma_recorded(st, cte_id);
                    }
                    lemma_reference(st, alias@, own, defined, d)
                },
                None => if cte_id >= env.cte_registry.entries@.len() {
                    0
                } else {
                    parser::lemma_body_is_shallower(env.cte_registry, cte_id as int);
                    let body = env.cte_registry.entries@[cte_id as int].1;
                    match engine::tree_diff(env, st, body) {
                        (st1, Err(_)) => m,
                        (st1, Ok(d)) => {
                            let st2 = DiffState { deltas: st1.deltas.push((cte_id, d)), ..st1 };
                            lemma_record(st, st1, cte_id, d, m);
                            if settled(st2) {
                                assert(st2.deltas[st2.deltas.len() - 1] == (cte_id, d));
                                assert(defines(st2.ctes, d.cte_name));
                            }
                            let next = lemma_reference(st2, alias@, own, defined, d);
                            lemma_onward(st, st2, o, m, next);
                            m + next
                        },
                    }
                },
            }
        },
        _ => 0,
    }
}

/// Propagating inserts and deletes of a recursive expression.
proof fn lemma_dred(
    env: DiffEnv,
    st: DiffState,
    alias: Seq<char>,
    columns: Seq<Seq<char>>,
    base_cte: Seq<char>,
    base: OpTree,
    recursive: OpTree,
    union_all: bool,
) -> (given: nat)
    ensures
        outcome_follows(
            st,
            recursive_cte::dred_outcome(
                env,
                st,
                alias,
                columns,
                base_cte,
                base,
                recursive,
                union_all,
            ),
            given,
        ),
{
    let o = recursive_cte::dred_outcome(
        env,
        st,
        alias,
        columns,
        base_cte,
        base,
        recursive,
        union_all,
    );
    lemma_same(st);
    match env.st_qualified_name {
        None => 0,
        Some(storage) => {
            let prefixes = ("dred_ins_"@, "dred_ifin_"@);
            let i = recursive_cte::inserts_outcome(
                env,
                st,
                prefixes,
                alias,
                columns,
                base_cte,
                recursive,
                storage@,
            );
            let m = lemma_inserts(
                env,
                st,
                prefixes,
                alias,
                columns,
                base_cte,
                recursive,
                storage@,
            );
            if i.1 is Ok {
                let n = lemma_deletes(
                    i.0,
                    alias,
                    columns,
                    base_cte,
                    base,
                    recursive,
                    union_all,
                    storage@,
                    i.1->Ok_0.cte_name,
                );
                lemma_one_input(st, i, o, m, n)
            } else {
                m
            }
        },
    }
}

/// Computing a recursive expression anew.
proof fn lemma_recomputation(
    env: DiffEnv,
    st: DiffState,
    alias: Seq<char>,
    columns: Seq<Seq<char>>,
    base: OpTree,
    recursive: OpTree,
    union_all: bool,
) -> (given: nat)
    ensures
        outcome_follows(
            st,
            recursive_cte::recomputation_outcome(
                env,
                st,
                alias,
                columns,
                base,
                recursive,
                union_all,
            ),
            given,
        ),
{
    lemma_same(st);
    match env.st_qualified_name {
        None => 0,
        Some(storage) => match recursive_cte::recomputation(
            env,
            alias,
            columns,
            base,
            recursive,
            union_all,
        ) {
            Err(_) => 0,
            Ok((query, out_cols)) => {
                lemma_compared(st, alias, query, out_cols, storage@);
                4
            },
        },
    }
}

/// Propagating inserts of a recursive expression where there are only inserts.
proof fn lemma_semi_naive(
    env: DiffEnv,
    st: DiffState,
    alias: Seq<char>,
    columns: Seq<Seq<char>>,
    base_cte: Seq<char>,
    recursive: OpTree,
) -> (given: nat)
    ensures
        outcome_follows(
            st,
            recursive_cte::semi_naive_outcome(env, st, alias, columns, base_cte, recursive),
            given,
        ),
{
    lemma_same(st);
    match env.st_qualified_name {
        None => 0,
        Some(storage) => lemma_inserts(
            env,
            st,
            ("rc_snv_"@, "rc_final_"@),
            alias,
            columns,
            base_cte,
            recursive,
            storage@,
        ),
    }
}

/// Recursive expressions, given the outcome of the base term.
proof fn lemma_recursive_cte_diff(env: DiffEnv, st: DiffState, op: OpTree, m: nat) -> (given: nat)
    requires
        op is RecursiveCte,
        outcome_follows(st, engine::tree_diff(env, st, *op->RecursiveCte_base), m),
    ensures
        outcome_follows(st, recursive_cte::recursive_cte_diff(env, st, op), given),
{
    reveal_with_fuel(engine::tree_diff, 1);
    lemma_same(st);
    match op {
        OpTree::RecursiveCte { alias, columns, base, recursive, union_all } => {
            let o = recursive_cte::recursive_cte_diff(env, st, op);
            let cols = text::texts(columns@);
            if recursive_sql::self_ref_aliases(*recursive).len() > 1 {
                0
            } else if !recursive_cte::columns_match(env, cols) {
                lemma_recomputation(env, st, alias@, cols, *base, *recursive, union_all)
            } else {
                let i = engine::tree_diff(env, st, *base);
                if i.1 is Err {
                    m
                } else {
                    let b = i.1->Ok_0.cte_name;
                    let n = if recursive_cte::any_deletes(env, op.spec_sources()) {
                        lemma_dred(env, i.0, alias@, cols, b, *base, *recursive, union_all)
                    } else {
                        lemma_semi_naive(env, i.0, alias@, cols, b, *recursive)
                    };
                    lemma_one_input(st, i, o, m, n)
                }
            }
        },
        _ => 0,
    }
}

/// Window functions, given the outcome of their input.
proof fn lemma_window_diff(env: DiffEnv, st: DiffState, op: OpTree, m: nat) -> (given: nat)
    requires
        op is Window,
        outcome_follows(st, engine::tree_diff(env, st, *op->Window_child), m),
    ensures
        outcome_follows(st, window::window_diff(env, st, op), given),
{
    reveal_with_fuel(engine::tree_diff, 1);
    match op {
        OpTree::Window { window_exprs, partition_by, pass_through, child } => {
            let i = engine::tree_diff(env, st, *child);
            let o = window::window_diff(env, st, op);
            if i.1 is Ok {
                lemma_window(
                    env,
                    i.0,
                    window_exprs@,
                    parser::sql_all(parser::expr_views(partition_by@)),
                    parser::pass_through_names(pass_through@),
                    i.1->Ok_0,
                );
            }
            lemma_one_input(st, i, o, m, 5)
        },
        _ => 0,
    }
}

/// Scalar subqueries, given the outcomes of their inputs.
proof fn lemma_scalar_subquery_diff(
    env: DiffEnv,
    st: DiffState,
    op: OpTree,
    m: nat,
    n: nat,
) -> (given: nat)
    requires
        op is ScalarSubquery,
        outcome_follows(st, engine::tree_diff(env, st, *op->ScalarSubquery_child), m),
        engine::tree_diff(env, st, *op->ScalarSubquery_child).1 is Ok ==> outcome_follows(
            engine::tree_diff(env, st, *op->ScalarSubquery_child).0,
            engine::tree_diff(
                env,
                engine::tree_diff(env, st, *op->ScalarSubquery_child).0,
                *op->ScalarSubquery_subquery,
            ),
            n,
        ),
    ensures
        outcome_follows(st, scalar_subquery::scalar_subquery_diff(env, st, op), given),
{
    reveal_with_fuel(engine::tree_diff, 1);
    match op {
        OpTree::ScalarSubquery { subquery, alias, child, .. } => {
            let i = engine::tree_diff(env, st, *child);
            let j = engine::tree_diff(env, i.0, *subquery);
            let o = scalar_subquery::scalar_subquery_diff(env, st, op);
            if i.1 is Ok && j.1 is Ok {
                lemma_scalar_subquery(j.0, *subquery, alias@, *child, i.1->Ok_0, j.1->Ok_0);
            }
            lemma_two_inputs(st, i, j, o, m, n, 1)
        },
        _ => 0,
    }
}

// ── Operator trees ─────────────────────────────────────────────────────

/// The outcome of differentiating a tree follows the state it starts from.
proof fn lemma_tree(env: DiffEnv, st: DiffState, op: OpTree) -> (given: nat)
    requires
        env.cte_registry.acyclic(),
    ensures
        outcome_follows(st, engine::tree_diff(env, st, op), given),
    decreases env.cte_registry.depth(op), op,
{
    reveal_with_fuel(engine::tree_diff, 1);
    lemma_same(st);
    match op {
        OpTree::Scan { .. } => {
            lemma_scan(env, st, op);
            5
        },
        OpTree::Filter { child, .. } => {
            let m = lemma_tree(env, st, *child);
            lemma_filter_diff(env, st, op, m)
        },
        OpTree::InnerJoin { left, right, .. } => {
            let m = lemma_tree(env, st, *left);
            let n = lemma_tree(env, engine::tree_diff(env, st, *left).0, *right);
            lemma_inner_join_diff(env, st, op, m, n)
        },
        OpTree::LeftJoin { left, right, .. } => {
            let m = lemma_tree(env, st, *left);
            let n = lemma_tree(env, engine::tree_diff(env, st, *left).0, *right);
            lemma_left_join_diff(env, st, op, m, n)
        },
        OpTree::FullJoin { left, right, .. } => {
            let m = lemma_tree(env, st, *left);
            let n = lemma_tree(env, engine::tree_diff(env, st, *left).0, *right);
            lemma_full_join_diff(env, st, op, m, n)
        },
        OpTree::SemiJoin { left, right, .. } => {
            let inside = DiffState { inside_semijoin: true, ..st };
            let m = lemma_tree(env, inside, *left);
            let n = lemma_tree(env, engine::tree_diff(env, inside, *left).0, *right);
            lemma_semi_join_diff(env, st, op, m, n)
        },
        OpTree::AntiJoin { left, right, .. } => {
            let m = lemma_tree(env, st, *left);
            let n = lemma_tree(env, engine::tree_diff(env, st, *left).0, *right);
            lemma_anti_join_diff(env, st, op, m, n)
        },
        OpTree::Distinct { child, .. } => {
            let m = lemma_tree(env, st, *child);
            lemma_distinct_diff(env, st, op, m)
        },
        OpTree::CteScan { cte_id, .. } => {
            let m = if cte_id < env.cte_registry.entries@.len() {
                parser::lemma_body_is_shallower(env.cte_registry, cte_id as int);
                lemma_tree(env, st, env.cte_registry.entries@[cte_id as int].1)
            } else {
                0
            };
            lemma_cte_scan_diff(env, st, op, m)
        },
        OpTree::RecursiveCte { base, .. } => {
            let m = lemma_tree(env, st, *base);
            lemma_recursive_cte_diff(env, st, op, m)
        },
        OpTree::Window { child, .. } => {
            let m = lemma_tree(env, st, *child);
            lemma_window_diff(env, st, op, m)
        },
        OpTree::ScalarSubquery { child, subquery, .. } => {
            let m = lemma_tree(env, st, *child);
            let n = lemma_tree(env, engine::tree_diff(env, st, *child).0, *subquery);
            lemma_scalar_subquery_diff(env, st, op, m, n)
        },
        _ => 0,
    }
}

// ── Laws ───────────────────────────────────────────────────────────────

/// Differentiating a tree only adds to the chain and to the recorded deltas,
/// whether it succeeds or not.
pub proof fn chain_only_grows(env: DiffEnv, st: DiffState, op: OpTree)
    requires
        env.cte_registry.acyclic(),
    ensures
        st.ctes.is_prefix_of(engine::tree_diff(env, st, op).0.ctes),
        st.deltas.is_prefix_of(engine::tree_diff(env, st, op).0.deltas),
{
    lemma_tree(env, st, op);
    reveal(follows);
}

/// A differentiation that succeeds gives every CTE a name of its own: the names
/// stay different if they were, as long as the names given out can be counted
/// in 64 bits.
pub proof fn names_stay_different(env: DiffEnv, st: DiffState, op: OpTree)
    requires
        env.cte_registry.acyclic(),
        engine::tree_diff(env, st, op).1 is Ok,
        st.counter + engine::tree_diff(env, st, op).0.ctes.len() - st.ctes.len() <= u64::MAX,
        names_differ(st.ctes, 0, 0, st.counter as int),
    ensures
        ({
            let after = engine::tree_diff(env, st, op).0;
            names_differ(after.ctes, 0, 0, after.counter as int)
        }),
{
    let given = lemma_tree(env, st, op);
    let start = DiffState { counter: 0, ctes: Seq::empty(), ..st };
    assert(follows(start, st, st.counter as nat)) by {
        reveal(follows);
        assert(start.ctes =~= st.ctes.take(0));
        assert(start.deltas =~= st.deltas.take(st.deltas.len() as int));
        if settled(start) {
            assert forall|i: int| 0 <= i < st.deltas.len() implies defines(
                st.ctes,
                (#[trigger] st.deltas[i]).1.cte_name,
            ) by {
                assert(defines(start.ctes, start.deltas[i].1.cte_name));
            }
        }
    }
    lemma_then(start, st, engine::tree_diff(env, st, op).0, st.counter as nat, given);
    reveal(follows);
}

/// The delta of a tree is a CTE of the chain, and so is every recorded delta if
/// it was before: the query that reads the delta names nothing undefined.
pub proof fn delta_is_defined(env: DiffEnv, st: DiffState, op: OpTree)
    requires
        env.cte_registry.acyclic(),
        settled(st),
    ensures
        settled(engine::tree_diff(env, st, op).0),
        engine::tree_diff(env, st, op).1 matches Ok(d) ==> defines(
            engine::tree_diff(env, st, op).0.ctes,
            d.cte_name,
        ),
{
    lemma_tree(env, st, op);
    reveal(follows);
}

/// A differentiation that succeeds leaves the mark for semi-joins as it was.
pub proof fn semijoin_mark_is_restored(env: DiffEnv, st: DiffState, op: OpTree)
    requires
        env.cte_registry.acyclic(),
        engine::tree_diff(env, st, op).1 is Ok,
    ensures
        engine::tree_diff(env, st, op).0.inside_semijoin == st.inside_semijoin,
{
    lemma_tree(env, st, op);
}

/// References to one common table expression share its delta: once one was
/// differentiated, another one reads the recorded delta, and adds no CTE but
/// the one that renames columns, where its columns have other names.
pub proof fn references_share_the_delta(
    env: DiffEnv,
    st: DiffState,
    first: OpTree,
    second: OpTree,
)
    requires
        env.cte_registry.acyclic(),
        first is CteScan,
        second is CteScan,
        first->CteScan_cte_id == second->CteScan_cte_id,
        engine::tree_diff(env, st, first).1 is Ok,
    ensures
        ({
            let st1 = engine::tree_diff(env, st, first).0;
            let d = diff::recorded(st1.deltas, first->CteScan_cte_id);
            let o = engine::tree_diff(env, st1, second);
            &&& d is Some
            &&& o.1 is Ok
            &&& o.0.deltas == st1.deltas
            &&& o.0.ctes.len() <= st1.ctes.len() + 1
            &&& cte_scan::effective_columns(
                text::texts(second->CteScan_column_aliases@),
                text::texts(second->CteScan_cte_def_aliases@),
                d->0.columns,
            ) == d->0.columns ==> o == (st1, Ok::<Delta, ErrorView>(d->0))
        }),
{
    reveal_with_fuel(engine::tree_diff, 1);
    let id = first->CteScan_cte_id;
    if id < env.cte_registry.entries@.len() {
        parser::lemma_body_is_shallower(env.cte_registry, id as int);
    }
    let st1 = engine::tree_diff(env, st, first).0;
    assert(st1.deltas.len() > 0 ==> st1.deltas.last() == st1.deltas[st1.deltas.len() - 1]);
    assert(diff::recorded(st1.deltas, id) is Some);
}

} // verus!
