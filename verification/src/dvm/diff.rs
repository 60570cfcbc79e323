//! The state of a differentiation, and the pieces its operators share.
//!
//! Differentiating an operator tree yields a chain of common table
//! expressions (CTEs) and, for each operator, the name and columns of the CTE
//! that holds its delta.  [`DiffContext`] collects the chain.  Contracts speak
//! of it as a pair: [`DiffEnv`], the settings that a differentiation reads and
//! leaves alone, and [`DiffState`], what it adds to.

use std::rc::Rc;

use vstd::prelude::*;
use vstd::string::*;

use crate::dvm::parser::CteRegistry;
use crate::error::{ErrorView, PgTrickleError};
use crate::sql_builder;
use crate::text;
use crate::text::{join_texts, text_eq, u32_text, u64_text};

verus! {

// ── Frontiers ──────────────────────────────────────────────────────────

/// The position in the log up to which each source has been consumed.
#[derive(Debug, Clone)]
pub struct Frontier {
    pub positions: Vec<(u32, String)>,
}

impl View for Frontier {
    type V = Seq<(u32, Seq<char>)>;

    open spec fn view(&self) -> Seq<(u32, Seq<char>)> {
        Seq::new(self.positions@.len(), |i: int| (self.positions@[i].0, self.positions@[i].1@))
    }
}

/// The latest position recorded for a source, or the start of the log.
pub open spec fn latest_lsn(positions: Seq<(u32, String)>, oid: u32) -> Seq<char>
    decreases positions.len(),
{
    if positions.len() == 0 {
        "0/0"@
    } else if positions.last().0 == oid {
        positions.last().1@
    } else {
        latest_lsn(positions.drop_last(), oid)
    }
}

impl Frontier {
    /// A frontier at the start of the log.
    pub fn new() -> (r: Self)
        ensures
            forall|oid: u32| #[trigger] r.lsn(oid) == "0/0"@,
    {
        Frontier { positions: Vec::new() }
    }

    /// A copy of a frontier.
    pub fn copied(&self) -> (r: Self)
        ensures
            r@ == self@,
            forall|oid: u32| #[trigger] r.lsn(oid) == self.lsn(oid),
    {
        let mut positions: Vec<(u32, String)> = Vec::new();
        let mut i: usize = 0;
        while i < self.positions.len()
            invariant
                i <= self.positions.len(),
                positions@ == self.positions@.take(i as int),
            decreases self.positions.len() - i,
        {
            let p = &self.positions[i];
            positions.push((p.0, p.1.clone()));
            assert(positions@ =~= self.positions@.take(i + 1));
            i += 1;
        }
        assert(positions@ =~= self.positions@);
        Frontier { positions }
    }

    /// The position of a source.
    pub open spec fn lsn(self, oid: u32) -> Seq<char> {
        latest_lsn(self.positions@, oid)
    }

    /// Records the position of a source.
    pub fn set_lsn(&mut self, oid: u32, lsn: String)
        ensures
            forall|o: u32| #[trigger]
                final(self).lsn(o) == (if o == oid {
                    lsn@
                } else {
                    old(self).lsn(o)
                }),
    {
        let ghost before = self.positions@;
        self.positions.push((oid, lsn));
        assert(self.positions@.drop_last() =~= before);
    }

    /// The position of a source; the start of the log where none is recorded.
    pub fn get_lsn(&self, oid: u32) -> (r: String)
        ensures
            r@ == self.lsn(oid),
    {
        let mut i: usize = self.positions.len();
        assert(self.positions@.take(i as int) =~= self.positions@);
        while i > 0
            invariant
                i <= self.positions.len(),
                self.lsn(oid) == latest_lsn(self.positions@.take(i as int), oid),
            decreases i,
        {
            let ghost rest = self.positions@.take(i as int);
            assert(rest.last() == self.positions@[i - 1]);
            assert(rest.drop_last() =~= self.positions@.take(i - 1));
            if self.positions[i - 1].0 == oid {
                return self.positions[i - 1].1.clone();
            }
            i -= 1;
        }
        "0/0".to_string()
    }
}

// ── Results of operators ───────────────────────────────────────────────

/// The delta of an operator: the CTE that holds it and its columns.
#[derive(Debug)]
pub struct DiffResult {
    pub cte_name: String,
    pub columns: Vec<String>,
    /// Whether the delta has at most one row per row identifier.
    pub is_deduplicated: bool,
}

/// What a [`DiffResult`] holds, with strings as character sequences.
pub struct Delta {
    pub cte_name: Seq<char>,
    pub columns: Seq<Seq<char>>,
    pub is_deduplicated: bool,
}

impl View for DiffResult {
    type V = Delta;

    open spec fn view(&self) -> Delta {
        Delta {
            cte_name: self.cte_name@,
            columns: text::texts(self.columns@),
            is_deduplicated: self.is_deduplicated,
        }
    }
}

impl Clone for DiffResult {
    fn clone(&self) -> (r: Self)
        ensures
            r@ == self@,
    {
        DiffResult {
            cte_name: self.cte_name.clone(),
            columns: text::copy_texts(&self.columns),
            is_deduplicated: self.is_deduplicated,
        }
    }
}

// ── The chain of CTEs ──────────────────────────────────────────────────

/// How a CTE stands in the `WITH` clause.
#[derive(Debug, Clone, Copy, PartialEq, Eq, Structural)]
pub enum CteKind {
    Plain,
    /// It refers to itself.
    Recursive,
    /// Its rows are computed once.
    Materialized,
}

/// One CTE of the chain.
#[derive(Debug)]
pub struct Cte {
    pub name: String,
    pub sql: String,
    pub kind: CteKind,
}

/// What a [`Cte`] holds, with strings as character sequences.
pub struct CteView {
    pub name: Seq<char>,
    pub sql: Seq<char>,
    pub kind: CteKind,
}

impl View for Cte {
    type V = CteView;

    open spec fn view(&self) -> CteView {
        CteView { name: self.name@, sql: self.sql@, kind: self.kind }
    }
}

impl CteView {
    /// The CTE as it stands in a `WITH` clause.
    pub open spec fn definition(self) -> Seq<char> {
        self.name + (if self.kind == CteKind::Materialized {
            " AS MATERIALIZED (\n"@
        } else {
            " AS (\n"@
        }) + self.sql + "\n)"@
    }
}

/// The views of CTEs.
pub open spec fn cte_views(ctes: Seq<Cte>) -> Seq<CteView> {
    Seq::new(ctes.len(), |i: int| ctes[i]@)
}

/// The definitions of CTEs.
pub open spec fn definitions(ctes: Seq<CteView>) -> Seq<Seq<char>> {
    Seq::new(ctes.len(), |i: int| ctes[i].definition())
}

/// Whether some CTE refers to itself.
pub open spec fn any_recursive(ctes: Seq<CteView>) -> bool {
    exists|i: int| 0 <= i < ctes.len() && (#[trigger] ctes[i]).kind == CteKind::Recursive
}

/// A statement behind the chain that it reads.
pub open spec fn with_statement(ctes: Seq<CteView>, statement: Seq<char>) -> Seq<char> {
    if ctes.len() == 0 {
        statement
    } else {
        (if any_recursive(ctes) {
            "WITH RECURSIVE "@
        } else {
            "WITH "@
        }) + text::join(definitions(ctes), ",\n"@) + "\n"@ + statement
    }
}

/// The query that reads a CTE of the chain.
pub open spec fn with_query(ctes: Seq<CteView>, final_cte: Seq<char>) -> Seq<char> {
    with_statement(ctes, "SELECT * FROM "@ + final_cte)
}

// ── Context ────────────────────────────────────────────────────────────

/// What a differentiation reads and collects.
#[derive(Debug)]
pub struct DiffContext {
    /// Position of each source at the last refresh.
    pub prev_frontier: Frontier,
    /// Position of each source that this refresh goes up to.
    pub new_frontier: Frontier,
    /// Schema of the change buffer tables.
    pub change_buffer_schema: String,
    /// Storage table of the stream table, quoted.
    pub st_qualified_name: Option<String>,
    /// Columns of the storage table, without the internal ones.
    pub st_user_columns: Option<Vec<String>>,
    /// Text of the defining query.
    pub defining_query: Option<String>,
    /// Whether scans emit at most one row per key.
    pub merge_safe_dedup: bool,
    /// Whether the current operator is below a semi-join.
    pub inside_semijoin: bool,
    /// Whether log positions are left as placeholders.
    pub use_placeholders: bool,
    /// Sources whose change buffer has updates or deletes in this interval.
    pub sources_with_deletes: Vec<u32>,
    /// Common table expressions of the defining query.
    pub cte_registry: Rc<CteRegistry>,
    /// Number of names given out.
    pub cte_counter: u64,
    /// The chain, in order.
    pub ctes: Vec<Cte>,
    /// Deltas of common table expressions that were differentiated already.
    pub cte_deltas: Vec<(usize, DiffResult)>,
}

/// The settings that a differentiation reads and leaves alone.
pub struct DiffEnv {
    pub prev_frontier: Frontier,
    pub new_frontier: Frontier,
    pub change_buffer_schema: String,
    pub st_qualified_name: Option<String>,
    pub st_user_columns: Option<Vec<String>>,
    pub defining_query: Option<String>,
    pub merge_safe_dedup: bool,
    pub use_placeholders: bool,
    pub sources_with_deletes: Vec<u32>,
    pub cte_registry: CteRegistry,
}

/// What a differentiation adds to.
#[verifier::ext_equal]
pub struct DiffState {
    pub counter: u64,
    pub ctes: Seq<CteView>,
    pub deltas: Seq<(usize, Delta)>,
    pub inside_semijoin: bool,
}

/// The outcome of differentiating an operator: the state left behind, and the
/// delta or the reason why there is none.
pub type Outcome = (DiffState, Result<Delta, ErrorView>);

/// The view of what an operator returns.
pub open spec fn result_view(r: Result<DiffResult, PgTrickleError>) -> Result<Delta, ErrorView> {
    match r {
        Ok(d) => Ok(d@),
        Err(e) => Err(e@),
    }
}

/// Whether a context and what an operator returned are an outcome.
pub open spec fn yields(
    ctx: DiffContext,
    r: Result<DiffResult, PgTrickleError>,
    outcome: Outcome,
) -> bool {
    ctx.state() == outcome.0 && result_view(r) == outcome.1
}

/// The latest delta recorded for a common table expression.
pub open spec fn recorded(deltas: Seq<(usize, Delta)>, id: usize) -> Option<Delta>
    decreases deltas.len(),
{
    if deltas.len() == 0 {
        None
    } else if deltas.last().0 == id {
        Some(deltas.last().1)
    } else {
        recorded(deltas.drop_last(), id)
    }
}

/// The views of recorded deltas.
pub open spec fn delta_views(deltas: Seq<(usize, DiffResult)>) -> Seq<(usize, Delta)> {
    Seq::new(deltas.len(), |i: int| (deltas[i].0, deltas[i].1@))
}

/// The name of the `n`-th CTE, made from a prefix.
pub open spec fn cte_name(prefix: Seq<char>, n: u64) -> Seq<char> {
    "__pgs_cte_"@ + prefix + "_"@ + text::decimal(n as nat)
}

impl DiffState {
    /// The number of names given out after one more, counted modulo 2^64.
    pub open spec fn next_counter(self) -> u64 {
        if self.counter == u64::MAX {
            0
        } else {
            (self.counter + 1) as u64
        }
    }

    /// The name that is given out next.
    pub open spec fn fresh(self, prefix: Seq<char>) -> Seq<char> {
        cte_name(prefix, self.next_counter())
    }

    /// The state after a name was given out.
    pub open spec fn bumped(self) -> DiffState {
        DiffState { counter: self.next_counter(), ..self }
    }

    /// The state after a CTE was added.
    pub open spec fn with_cte(self, name: Seq<char>, sql: Seq<char>, kind: CteKind) -> DiffState {
        DiffState { ctes: self.ctes.push(CteView { name, sql, kind }), ..self }
    }

    /// The state after a name was given out to a CTE that is added under it.
    pub open spec fn step(self, prefix: Seq<char>, sql: Seq<char>) -> DiffState {
        self.bumped().with_cte(self.fresh(prefix), sql, CteKind::Plain)
    }
}

impl DiffEnv {
    /// The lower end of the interval for a source.
    pub open spec fn prev_lsn(self, oid: u32) -> Seq<char> {
        if self.use_placeholders {
            "__PGS_PREV_LSN_"@ + text::decimal(oid as nat) + "__"@
        } else {
            self.prev_frontier.lsn(oid)
        }
    }

    /// The upper end of the interval for a source.
    pub open spec fn new_lsn(self, oid: u32) -> Seq<char> {
        if self.use_placeholders {
            "__PGS_NEW_LSN_"@ + text::decimal(oid as nat) + "__"@
        } else {
            self.new_frontier.lsn(oid)
        }
    }

    /// The change buffer table of a source.
    pub open spec fn change_table(self, oid: u32) -> Seq<char> {
        sql_builder::ident_text(self.change_buffer_schema@) + ".changes_"@ + text::decimal(
            oid as nat,
        )
    }

    /// The storage table, or a comment in its place where it is not known.
    pub open spec fn storage(self) -> Seq<char> {
        match self.st_qualified_name {
            Some(name) => name@,
            None => "/* st_table */"@,
        }
    }
}

impl DiffContext {
    /// The settings of the context.
    pub open spec fn env(self) -> DiffEnv {
        DiffEnv {
            prev_frontier: self.prev_frontier,
            new_frontier: self.new_frontier,
            change_buffer_schema: self.change_buffer_schema,
            st_qualified_name: self.st_qualified_name,
            st_user_columns: self.st_user_columns,
            defining_query: self.defining_query,
            merge_safe_dedup: self.merge_safe_dedup,
            use_placeholders: self.use_placeholders,
            sources_with_deletes: self.sources_with_deletes,
            cte_registry: *self.cte_registry,
        }
    }

    /// The state of the context.
    pub open spec fn state(self) -> DiffState {
        DiffState {
            counter: self.cte_counter,
            ctes: cte_views(self.ctes@),
            deltas: delta_views(self.cte_deltas@),
            inside_semijoin: self.inside_semijoin,
        }
    }

    /// A context without CTEs.
    pub fn new(prev_frontier: Frontier, new_frontier: Frontier) -> (r: Self)
        ensures
            r.env().prev_frontier == prev_frontier,
            r.env().new_frontier == new_frontier,
            r.env().change_buffer_schema@ == "pgtrickle_changes"@,
            r.env().st_qualified_name is None,
            r.env().st_user_columns is None,
            r.env().defining_query is None,
            !r.env().merge_safe_dedup,
            !r.env().use_placeholders,
            r.env().sources_with_deletes@.len() == 0,
            r.env().cte_registry.entries@.len() == 0,
            r.env().cte_registry.acyclic(),
            r.state() == (DiffState {
                counter: 0,
                ctes: Seq::empty(),
                deltas: Seq::empty(),
                inside_semijoin: false,
            }),
    {
        let registry = CteRegistry { entries: Vec::new() };
        proof {
            crate::dvm::parser::lemma_empty_registry(registry);
        }
        let r = DiffContext {
            prev_frontier,
            new_frontier,
            change_buffer_schema: "pgtrickle_changes".to_string(),
            st_qualified_name: None,
            st_user_columns: None,
            defining_query: None,
            merge_safe_dedup: false,
            inside_semijoin: false,
            use_placeholders: false,
            sources_with_deletes: Vec::new(),
            cte_registry: Rc::new(registry),
            cte_counter: 0,
            ctes: Vec::new(),
            cte_deltas: Vec::new(),
        };
        assert(r.state().ctes =~= Seq::empty());
        assert(r.state().deltas =~= Seq::empty());
        r
    }

    /// The context with the storage table of the stream table set.
    pub fn with_st_name(self, schema: &str, name: &str) -> (r: Self)
        ensures
            r.env() == (DiffEnv { st_qualified_name: r.env().st_qualified_name, ..self.env() }),
            text::opt_text(r.env().st_qualified_name) == Some(
                sql_builder::qualified_text(schema@, name@),
            ),
            r.state() == self.state(),
    {
        let mut r = self;
        r.st_qualified_name = Some(crate::sql_builder::qualified(schema, name));
        r
    }

    /// The context with the common table expressions of the query set.
    pub fn with_cte_registry(self, registry: CteRegistry) -> (r: Self)
        ensures
            r.env() == (DiffEnv { cte_registry: registry, ..self.env() }),
            r.state() == self.state(),
    {
        let mut r = self;
        r.cte_registry = Rc::new(registry);
        r
    }

    /// The context with log positions left as placeholders.
    pub fn with_placeholders(self) -> (r: Self)
        ensures
            r.env() == (DiffEnv { use_placeholders: true, ..self.env() }),
            r.state() == self.state(),
    {
        let mut r = self;
        r.use_placeholders = true;
        r
    }

    /// Gives out a name for a CTE.  Every name has a number of its own.
    pub fn next_cte_name(&mut self, prefix: &str) -> (r: String)
        ensures
            r@ == old(self).state().fresh(prefix@),
            final(self).state() == old(self).state().bumped(),
            final(self).env() == old(self).env(),
    {
        self.cte_counter = if self.cte_counter == u64::MAX {
            0
        } else {
            self.cte_counter + 1
        };
        let mut r = "__pgs_cte_".to_string();
        r.append(prefix);
        r.append("_");
        r.append(u64_text(self.cte_counter).as_str());
        r
    }

    /// Adds a CTE of a kind to the chain.
    fn push_cte(&mut self, name: String, sql: String, kind: CteKind)
        ensures
            final(self).state() == old(self).state().with_cte(name@, sql@, kind),
            final(self).env() == old(self).env(),
    {
        let ghost before = self.state();
        self.ctes.push(Cte { name, sql, kind });
        assert(self.state().ctes =~= before.with_cte(name@, sql@, kind).ctes);
    }

    /// Adds a CTE to the chain.
    pub fn add_cte(&mut self, name: String, sql: String)
        ensures
            final(self).state() == old(self).state().with_cte(name@, sql@, CteKind::Plain),
            final(self).env() == old(self).env(),
    {
        self.push_cte(name, sql, CteKind::Plain);
    }

    /// Adds a CTE that refers to itself.
    pub fn add_recursive_cte(&mut self, name: String, sql: String)
        ensures
            final(self).state() == old(self).state().with_cte(name@, sql@, CteKind::Recursive),
            final(self).env() == old(self).env(),
    {
        self.push_cte(name, sql, CteKind::Recursive);
    }

    /// Adds a CTE whose rows are computed once.
    pub fn add_materialized_cte(&mut self, name: String, sql: String)
        ensures
            final(self).state() == old(self).state().with_cte(name@, sql@, CteKind::Materialized),
            final(self).env() == old(self).env(),
    {
        self.push_cte(name, sql, CteKind::Materialized);
    }

    /// The delta recorded for a common table expression.
    pub fn get_cte_delta(&self, id: usize) -> (r: Option<&DiffResult>)
        ensures
            match r {
                Some(d) => recorded(self.state().deltas, id) == Some(d@),
                None => recorded(self.state().deltas, id) is None,
            },
    {
        let mut i: usize = self.cte_deltas.len();
        assert(self.state().deltas.take(i as int) =~= self.state().deltas);
        while i > 0
            invariant
                i <= self.cte_deltas.len(),
                recorded(self.state().deltas, id) == recorded(
                    self.state().deltas.take(i as int),
                    id,
                ),
            decreases i,
        {
            let ghost rest = self.state().deltas.take(i as int);
            assert(rest.last() == self.state().deltas[i - 1]);
            assert(rest.drop_last() =~= self.state().deltas.take(i - 1));
            if self.cte_deltas[i - 1].0 == id {
                return Some(&self.cte_deltas[i - 1].1);
            }
            i -= 1;
        }
        None
    }

    /// Records the delta of a common table expression.
    pub fn set_cte_delta(&mut self, id: usize, delta: DiffResult)
        ensures
            final(self).state() == (DiffState {
                deltas: old(self).state().deltas.push((id, delta@)),
                ..old(self).state()
            }),
            final(self).env() == old(self).env(),
    {
        let ghost before = self.state();
        self.cte_deltas.push((id, delta));
        assert(self.state().deltas =~= before.deltas.push((id, delta@)));
    }

    /// The lower end of the interval for a source.
    pub fn get_prev_lsn(&self, oid: u32) -> (r: String)
        ensures
            r@ == self.env().prev_lsn(oid),
    {
        if self.use_placeholders {
            let mut r = "__PGS_PREV_LSN_".to_string();
            r.append(u32_text(oid).as_str());
            r.append("__");
            r
        } else {
            self.prev_frontier.get_lsn(oid)
        }
    }

    /// The upper end of the interval for a source.
    pub fn get_new_lsn(&self, oid: u32) -> (r: String)
        ensures
            r@ == self.env().new_lsn(oid),
    {
        if self.use_placeholders {
            let mut r = "__PGS_NEW_LSN_".to_string();
            r.append(u32_text(oid).as_str());
            r.append("__");
            r
        } else {
            self.new_frontier.get_lsn(oid)
        }
    }

    /// The change buffer table of a source.
    pub fn change_table(&self, oid: u32) -> (r: String)
        ensures
            r@ == self.env().change_table(oid),
    {
        let mut r = quote_ident(self.change_buffer_schema.as_str());
        r.append(".changes_");
        r.append(u32_text(oid).as_str());
        r
    }

    /// The storage table, or a comment in its place where it is not known.
    pub fn storage(&self) -> (r: String)
        ensures
            r@ == self.env().storage(),
    {
        match &self.st_qualified_name {
            Some(name) => name.clone(),
            None => "/* st_table */".to_string(),
        }
    }

    /// The query that reads a CTE of the chain.
    pub fn build_with_query(&self, final_cte: &str) -> (r: String)
        ensures
            r@ == with_query(self.state().ctes, final_cte@),
    {
        let mut select = "SELECT * FROM ".to_string();
        select.append(final_cte);
        self.build_with(select.as_str())
    }

    /// A statement behind the chain that it reads.
    pub fn build_with(&self, statement: &str) -> (r: String)
        ensures
            r@ == with_statement(self.state().ctes, statement@),
    {
        if self.ctes.len() == 0 {
            return statement.to_string();
        }
        let ghost views = self.state().ctes;
        let mut recursive = false;
        let mut parts: Vec<String> = Vec::new();
        let mut i: usize = 0;
        while i < self.ctes.len()
            invariant
                i <= self.ctes.len(),
                views == self.state().ctes,
                parts@.len() == i,
                forall|k: int| 0 <= k < i ==> (#[trigger] parts@[k])@ == views[k].definition(),
                recursive == (exists|k: int|
                    0 <= k < i && (#[trigger] views[k]).kind == CteKind::Recursive),
            decreases self.ctes.len() - i,
        {
            let cte = &self.ctes[i];
            assert(views[i as int] == cte@);
            let mut part = cte.name.clone();
            if cte.kind == CteKind::Materialized {
                part.append(" AS MATERIALIZED (\n");
            } else {
                part.append(" AS (\n");
            }
            part.append(cte.sql.as_str());
            part.append("\n)");
            parts.push(part);
            if cte.kind == CteKind::Recursive {
                recursive = true;
            }
            i += 1;
        }
        assert(text::texts(parts@) =~= definitions(views));
        assert(recursive == any_recursive(views));
        let mut r = if recursive {
            "WITH RECURSIVE ".to_string()
        } else {
            "WITH ".to_string()
        };
        r.append(join_texts(&parts, ",\n").as_str());
        r.append("\n");
        r.append(statement);
        r
    }
}

// ── Column lists ───────────────────────────────────────────────────────

/// Each column quoted, between two fixed texts.
pub open spec fn wrapped(before: Seq<char>, cols: Seq<Seq<char>>, after: Seq<char>) -> Seq<
    Seq<char>,
> {
    Seq::new(cols.len(), |i: int| before + sql_builder::ident_text(cols[i]) + after)
}

/// The name that a join gives to a column of one of its sides.
pub open spec fn side_name(side: Seq<char>, col: Seq<char>) -> Seq<char> {
    side + "__"@ + col
}

/// The names that a join gives to the columns of one of its sides.
pub open spec fn side_names(side: Seq<char>, cols: Seq<Seq<char>>) -> Seq<Seq<char>> {
    Seq::new(cols.len(), |i: int| side_name(side, cols[i]))
}

/// Each column after a fixed text, renamed to the name that a join gives it.
pub open spec fn renamed(before: Seq<char>, cols: Seq<Seq<char>>, side: Seq<char>) -> Seq<
    Seq<char>,
> {
    Seq::new(
        cols.len(),
        |i: int|
            before + sql_builder::ident_text(cols[i]) + " AS "@ + sql_builder::ident_text(
                side_name(side, cols[i]),
            ),
    )
}

/// A null for each column, under the name that a join gives the column.
pub open spec fn nulls(cols: Seq<Seq<char>>, side: Seq<char>) -> Seq<Seq<char>> {
    Seq::new(
        cols.len(),
        |i: int| "NULL AS "@ + sql_builder::ident_text(side_name(side, cols[i])),
    )
}

/// A comma-separated list of quoted columns.
pub open spec fn cols_text(cols: Seq<Seq<char>>) -> Seq<char> {
    text::join(sql_builder::ident_texts(cols), ", "@)
}

/// The equality of each column under two prefixes.
pub open spec fn equalities(a: Seq<char>, b: Seq<char>, cols: Seq<Seq<char>>) -> Seq<Seq<char>> {
    Seq::new(
        cols.len(),
        |i: int|
            a + sql_builder::ident_text(cols[i]) + " = "@ + b + sql_builder::ident_text(cols[i]),
    )
}

/// The equality of each column under two prefixes.
pub fn equate_cols(a: &str, b: &str, cols: &Vec<String>) -> (r: Vec<String>)
    ensures
        text::texts(r@) == equalities(a@, b@, text::texts(cols@)),
{
    let mut r: Vec<String> = Vec::new();
    let mut i: usize = 0;
    while i < cols.len()
        invariant
            i <= cols.len(),
            r@.len() == i,
            forall|k: int|
                0 <= k < i ==> (#[trigger] r@[k])@ == a@ + sql_builder::ident_text(cols@[k]@)
                    + " = "@ + b@ + sql_builder::ident_text(cols@[k]@),
        decreases cols.len() - i,
    {
        let col = quote_ident(cols[i].as_str());
        let mut part = a.to_string();
        part.append(col.as_str());
        part.append(" = ");
        part.append(b);
        part.append(col.as_str());
        r.push(part);
        i += 1;
    }
    assert(text::texts(r@) =~= equalities(a@, b@, text::texts(cols@)));
    r
}

/// The columns without the count that aggregates keep for themselves.
pub open spec fn user_columns(cols: Seq<Seq<char>>) -> Seq<Seq<char>>
    decreases cols.len(),
{
    if cols.len() == 0 {
        Seq::empty()
    } else if cols.last() == "__pgt_count"@ {
        user_columns(cols.drop_last())
    } else {
        user_columns(cols.drop_last()).push(cols.last())
    }
}

/// The columns without the count that aggregates keep for themselves.
pub fn without_count(cols: &Vec<String>) -> (r: Vec<String>)
    ensures
        text::texts(r@) == user_columns(text::texts(cols@)),
{
    let ghost names = text::texts(cols@);
    let mut r: Vec<String> = Vec::new();
    let mut i: usize = 0;
    assert(text::texts(r@) =~= Seq::empty());
    while i < cols.len()
        invariant
            i <= cols.len(),
            names == text::texts(cols@),
            text::texts(r@) == user_columns(names.take(i as int)),
        decreases cols.len() - i,
    {
        let ghost before = r@;
        proof {
            let now = names.take(i + 1);
            assert(now.drop_last() =~= names.take(i as int));
            assert(now.last() == cols@[i as int]@);
        }
        if !text_eq(cols[i].as_str(), "__pgt_count") {
            r.push(cols[i].clone());
            assert(text::texts(r@) =~= text::texts(before).push(cols@[i as int]@));
        }
        i += 1;
    }
    assert(names.take(names.len() as int) =~= names);
    r
}

/// Quotes an identifier.
pub fn quote_ident(name: &str) -> (r: String)
    ensures
        r@ == sql_builder::ident_text(name@),
{
    crate::sql_builder::ident(name)
}

/// A comma-separated list of quoted columns.
pub fn col_list(cols: &[String]) -> (r: String)
    ensures
        r@ == cols_text(text::texts(cols@)),
{
    crate::sql_builder::list_idents_owned(cols)
}

/// A comma-separated list of quoted columns, each behind a table alias.
pub fn prefixed_col_list(prefix: &str, cols: &Vec<String>) -> (r: String)
    ensures
        r@ == text::join(wrapped(prefix@ + "."@, text::texts(cols@), ""@), ", "@),
{
    let mut before = prefix.to_string();
    before.append(".");
    join_texts(&wrap_cols(before.as_str(), cols, ""), ", ")
}

/// Quotes each column, between two fixed texts.
pub fn wrap_cols(before: &str, cols: &Vec<String>, after: &str) -> (r: Vec<String>)
    ensures
        text::texts(r@) == wrapped(before@, text::texts(cols@), after@),
{
    let mut r: Vec<String> = Vec::new();
    let mut i: usize = 0;
    while i < cols.len()
        invariant
            i <= cols.len(),
            r@.len() == i,
            forall|k: int|
                0 <= k < i ==> (#[trigger] r@[k])@ == before@ + sql_builder::ident_text(
                    cols@[k]@,
                ) + after@,
        decreases cols.len() - i,
    {
        let mut part = before.to_string();
        part.append(quote_ident(cols[i].as_str()).as_str());
        part.append(after);
        r.push(part);
        i += 1;
    }
    assert(text::texts(r@) =~= wrapped(before@, text::texts(cols@), after@));
    r
}

/// The name that a join gives to a column of one of its sides.
fn name_on_side(side: &str, col: &str) -> (r: String)
    ensures
        r@ == side_name(side@, col@),
{
    let mut r = side.to_string();
    r.append("__");
    r.append(col);
    r
}

/// The names that a join gives to the columns of one of its sides.
pub fn names_on_side(side: &str, cols: &Vec<String>) -> (r: Vec<String>)
    ensures
        text::texts(r@) == side_names(side@, text::texts(cols@)),
{
    let mut r: Vec<String> = Vec::new();
    let mut i: usize = 0;
    while i < cols.len()
        invariant
            i <= cols.len(),
            r@.len() == i,
            forall|k: int| 0 <= k < i ==> (#[trigger] r@[k])@ == side_name(side@, cols@[k]@),
        decreases cols.len() - i,
    {
        r.push(name_on_side(side, cols[i].as_str()));
        i += 1;
    }
    assert(text::texts(r@) =~= side_names(side@, text::texts(cols@)));
    r
}

/// Renames each column to the name that a join gives it.
pub fn rename_cols(before: &str, cols: &Vec<String>, side: &str) -> (r: Vec<String>)
    ensures
        text::texts(r@) == renamed(before@, text::texts(cols@), side@),
{
    let mut r: Vec<String> = Vec::new();
    let mut i: usize = 0;
    while i < cols.len()
        invariant
            i <= cols.len(),
            r@.len() == i,
            forall|k: int|
                0 <= k < i ==> (#[trigger] r@[k])@ == before@ + sql_builder::ident_text(
                    cols@[k]@,
                ) + " AS "@ + sql_builder::ident_text(side_name(side@, cols@[k]@)),
        decreases cols.len() - i,
    {
        let mut part = before.to_string();
        part.append(quote_ident(cols[i].as_str()).as_str());
        part.append(" AS ");
        part.append(quote_ident(name_on_side(side, cols[i].as_str()).as_str()).as_str());
        r.push(part);
        i += 1;
    }
    assert(text::texts(r@) =~= renamed(before@, text::texts(cols@), side@));
    r
}

/// A null for each column, under the name that a join gives the column.
pub fn null_cols(cols: &Vec<String>, side: &str) -> (r: Vec<String>)
    ensures
        text::texts(r@) == nulls(text::texts(cols@), side@),
{
    let mut r: Vec<String> = Vec::new();
    let mut i: usize = 0;
    while i < cols.len()
        invariant
            i <= cols.len(),
            r@.len() == i,
            forall|k: int|
                0 <= k < i ==> (#[trigger] r@[k])@ == "NULL AS "@ + sql_builder::ident_text(
                    side_name(side@, cols@[k]@),
                ),
        decreases cols.len() - i,
    {
        let mut part = "NULL AS ".to_string();
        part.append(quote_ident(name_on_side(side, cols[i].as_str()).as_str()).as_str());
        r.push(part);
        i += 1;
    }
    assert(text::texts(r@) =~= nulls(text::texts(cols@), side@));
    r
}

} // verus!
