//! Operator trees of defining queries.
//!
//! An [`OpTree`] describes a query as a tree of relational operators over
//! expressions.  Expressions have a view, [`ExprView`], in which rewriting is
//! stated; trees are only read, so contracts speak of them directly.

use vstd::prelude::*;
use vstd::string::*;

use crate::text;
use crate::text::{copy_opt, copy_texts, join_texts};

verus! {

// ── Expressions ────────────────────────────────────────────────────────

/// A scalar expression of a query.
#[derive(Debug)]
pub enum Expr {
    /// A column, with the alias of its table where the query gives one.
    ColumnRef { table_alias: Option<String>, column_name: String },
    /// A binary operator.
    BinaryOp { op: String, left: Box<Expr>, right: Box<Expr> },
    /// A function call.
    FuncCall { func_name: String, args: Vec<Expr> },
    /// All columns, of one table or of all.
    Star { table_alias: Option<String> },
    /// A literal, as written.
    Literal(String),
    /// SQL text that was not taken apart.
    Raw(String),
}

/// What an [`Expr`] holds, with strings as character sequences.
pub enum ExprView {
    ColumnRef { table_alias: Option<Seq<char>>, column_name: Seq<char> },
    BinaryOp { op: Seq<char>, left: Box<ExprView>, right: Box<ExprView> },
    FuncCall { func_name: Seq<char>, args: Seq<ExprView> },
    Star { table_alias: Option<Seq<char>> },
    Literal(Seq<char>),
    Raw(Seq<char>),
}

/// The view of an expression.
pub open spec fn expr_view(e: Expr) -> ExprView
    decreases e,
{
    match e {
        Expr::ColumnRef { table_alias, column_name } => ExprView::ColumnRef {
            table_alias: text::opt_text(table_alias),
            column_name: column_name@,
        },
        Expr::BinaryOp { op, left, right } => ExprView::BinaryOp {
            op: op@,
            left: Box::new(expr_view(*left)),
            right: Box::new(expr_view(*right)),
        },
        Expr::FuncCall { func_name, args } => ExprView::FuncCall {
            func_name: func_name@,
            args: expr_views(args@),
        },
        Expr::Star { table_alias } => ExprView::Star { table_alias: text::opt_text(table_alias) },
        Expr::Literal(s) => ExprView::Literal(s@),
        Expr::Raw(s) => ExprView::Raw(s@),
    }
}

/// The views of expressions.
pub open spec fn expr_views(es: Seq<Expr>) -> Seq<ExprView>
    decreases es,
{
    if es.len() == 0 {
        Seq::empty()
    } else {
        expr_views(es.drop_last()).push(expr_view(es.last()))
    }
}

impl View for Expr {
    type V = ExprView;

    open spec fn view(&self) -> ExprView {
        expr_view(*self)
    }
}

/// A list of views has the views of the list's items.
pub proof fn lemma_expr_views(es: Seq<Expr>)
    ensures
        expr_views(es).len() == es.len(),
        forall|i: int| 0 <= i < es.len() ==> #[trigger] expr_views(es)[i] == expr_view(es[i]),
    decreases es.len(),
{
    if es.len() > 0 {
        lemma_expr_views(es.drop_last());
    }
}

impl ExprView {
    /// The SQL text of an expression.
    pub open spec fn sql(self) -> Seq<char>
        decreases self,
    {
        match self {
            ExprView::ColumnRef { table_alias: Some(t), column_name } => t + "."@ + column_name,
            ExprView::ColumnRef { table_alias: None, column_name } => column_name,
            ExprView::BinaryOp { op, left, right } => {
                "("@ + left.sql() + " "@ + op + " "@ + right.sql() + ")"@
            },
            ExprView::FuncCall { func_name, args } => {
                func_name + "("@ + text::join(sql_all(args), ", "@) + ")"@
            },
            ExprView::Star { table_alias: Some(t) } => t + ".*"@,
            ExprView::Star { table_alias: None } => "*"@,
            ExprView::Literal(s) => s,
            ExprView::Raw(s) => s,
        }
    }

    /// The expression with table aliases taken off its columns.
    pub open spec fn stripped(self) -> ExprView
        decreases self,
    {
        match self {
            ExprView::ColumnRef { column_name, .. } => ExprView::ColumnRef {
                table_alias: None,
                column_name,
            },
            ExprView::BinaryOp { op, left, right } => ExprView::BinaryOp {
                op,
                left: Box::new(left.stripped()),
                right: Box::new(right.stripped()),
            },
            ExprView::FuncCall { func_name, args } => ExprView::FuncCall {
                func_name,
                args: stripped_all(args),
            },
            other => other,
        }
    }
}

/// The SQL texts of expressions.
pub open spec fn sql_all(es: Seq<ExprView>) -> Seq<Seq<char>>
    decreases es,
{
    if es.len() == 0 {
        Seq::empty()
    } else {
        sql_all(es.drop_last()).push(es.last().sql())
    }
}

/// Expressions with table aliases taken off their columns.
pub open spec fn stripped_all(es: Seq<ExprView>) -> Seq<ExprView>
    decreases es,
{
    if es.len() == 0 {
        Seq::empty()
    } else {
        stripped_all(es.drop_last()).push(es.last().stripped())
    }
}

/// The SQL texts of some expressions and of one more.
pub proof fn lemma_views_take(es: Seq<Expr>, i: int)
    requires
        0 <= i < es.len(),
    ensures
        expr_views(es.take(i + 1)) == expr_views(es.take(i)).push(expr_view(es[i])),
        sql_all(expr_views(es.take(i + 1))) == sql_all(expr_views(es.take(i))).push(
            expr_view(es[i]).sql(),
        ),
        stripped_all(expr_views(es.take(i + 1))) == stripped_all(expr_views(es.take(i))).push(
            expr_view(es[i]).stripped(),
        ),
{
    let now = es.take(i + 1);
    assert(now.drop_last() =~= es.take(i));
    assert(now.last() == es[i]);
    let views = expr_views(now);
    assert(views == expr_views(es.take(i)).push(expr_view(es[i])));
    assert(views.drop_last() =~= expr_views(es.take(i)));
    assert(views.last() == expr_view(es[i]));
}

impl Clone for Expr {
    fn clone(&self) -> (r: Self)
        ensures
            r@ == self@,
        decreases self,
    {
        match self {
            Expr::ColumnRef { table_alias, column_name } => Expr::ColumnRef {
                table_alias: copy_opt(table_alias),
                column_name: column_name.clone(),
            },
            Expr::BinaryOp { op, left, right } => Expr::BinaryOp {
                op: op.clone(),
                left: Box::new((**left).clone()),
                right: Box::new((**right).clone()),
            },
            Expr::FuncCall { func_name, args } => {
                let mut copies: Vec<Expr> = Vec::new();
                let mut i: usize = 0;
                while i < args.len()
                    invariant
                        i <= args.len(),
                        expr_views(copies@) == expr_views(args@.take(i as int)),
                        decreases_to!(self => args@),
                    decreases args.len() - i,
                {
                    assert(decreases_to!(args@ => args@[i as int]));
                    let ghost before = copies@;
                    copies.push(args[i].clone());
                    proof {
                        lemma_views_take(args@, i as int);
                        assert(copies@.drop_last() =~= before);
                    }
                    i += 1;
                }
                assert(args@.take(args@.len() as int) =~= args@);
                Expr::FuncCall { func_name: func_name.clone(), args: copies }
            },
            Expr::Star { table_alias } => Expr::Star { table_alias: copy_opt(table_alias) },
            Expr::Literal(s) => Expr::Literal(s.clone()),
            Expr::Raw(s) => Expr::Raw(s.clone()),
        }
    }
}

impl Expr {
    /// The SQL text of the expression.
    pub fn to_sql(&self) -> (r: String)
        ensures
            r@ == self@.sql(),
        decreases self,
    {
        match self {
            Expr::ColumnRef { table_alias: Some(t), column_name } => {
                let mut r = t.clone();
                r.append(".");
                r.append(column_name.as_str());
                r
            },
            Expr::ColumnRef { table_alias: None, column_name } => column_name.clone(),
            Expr::BinaryOp { op, left, right } => {
                let mut r = "(".to_string();
                r.append(left.to_sql().as_str());
                r.append(" ");
                r.append(op.as_str());
                r.append(" ");
                r.append(right.to_sql().as_str());
                r.append(")");
                r
            },
            Expr::FuncCall { func_name, args } => {
                let mut parts: Vec<String> = Vec::new();
                let mut i: usize = 0;
                while i < args.len()
                    invariant
                        i <= args.len(),
                        text::texts(parts@) == sql_all(expr_views(args@.take(i as int))),
                        decreases_to!(self => args@),
                    decreases args.len() - i,
                {
                    assert(decreases_to!(args@ => args@[i as int]));
                    let ghost before = parts@;
                    parts.push(args[i].to_sql());
                    proof {
                        lemma_views_take(args@, i as int);
                        assert(text::texts(parts@) =~= text::texts(before).push(
                            parts@.last()@,
                        ));
                    }
                    i += 1;
                }
                assert(args@.take(args@.len() as int) =~= args@);
                let mut r = func_name.clone();
                r.append("(");
                r.append(join_texts(&parts, ", ").as_str());
                r.append(")");
                r
            },
            Expr::Star { table_alias: Some(t) } => {
                let mut r = t.clone();
                r.append(".*");
                r
            },
            Expr::Star { table_alias: None } => "*".to_string(),
            Expr::Literal(s) => s.clone(),
            Expr::Raw(s) => s.clone(),
        }
    }

    /// The expression with table aliases taken off its columns.
    pub fn strip_qualifier(&self) -> (r: Expr)
        ensures
            r@ == self@.stripped(),
        decreases self,
    {
        match self {
            Expr::ColumnRef { column_name, .. } => Expr::ColumnRef {
                table_alias: None,
                column_name: column_name.clone(),
            },
            Expr::BinaryOp { op, left, right } => Expr::BinaryOp {
                op: op.clone(),
                left: Box::new(left.strip_qualifier()),
                right: Box::new(right.strip_qualifier()),
            },
            Expr::FuncCall { func_name, args } => {
                let mut bare: Vec<Expr> = Vec::new();
                let mut i: usize = 0;
                while i < args.len()
                    invariant
                        i <= args.len(),
                        expr_views(bare@) == stripped_all(expr_views(args@.take(i as int))),
                        decreases_to!(self => args@),
                    decreases args.len() - i,
                {
                    assert(decreases_to!(args@ => args@[i as int]));
                    let ghost before = bare@;
                    bare.push(args[i].strip_qualifier());
                    proof {
                        lemma_views_take(args@, i as int);
                        assert(bare@.drop_last() =~= before);
                    }
                    i += 1;
                }
                assert(args@.take(args@.len() as int) =~= args@);
                Expr::FuncCall { func_name: func_name.clone(), args: bare }
            },
            _ => self.clone(),
        }
    }
}

/// The SQL texts of a list of expressions.
pub fn exprs_sql(es: &Vec<Expr>) -> (r: Vec<String>)
    ensures
        text::texts(r@) == sql_all(expr_views(es@)),
{
    let mut r: Vec<String> = Vec::new();
    let mut i: usize = 0;
    while i < es.len()
        invariant
            i <= es.len(),
            text::texts(r@) == sql_all(expr_views(es@.take(i as int))),
        decreases es.len() - i,
    {
        let ghost before = r@;
        r.push(es[i].to_sql());
        proof {
            lemma_views_take(es@, i as int);
            assert(text::texts(r@) =~= text::texts(before).push(r@.last()@));
        }
        i += 1;
    }
    assert(es@.take(es@.len() as int) =~= es@);
    r
}

// ── Parts of operators ─────────────────────────────────────────────────

/// A column of a base table.
#[derive(Debug)]
pub struct Column {
    pub name: String,
    pub type_oid: u32,
    pub is_nullable: bool,
}

/// The names of columns.
pub open spec fn column_names(columns: Seq<Column>) -> Seq<Seq<char>> {
    Seq::new(columns.len(), |i: int| columns[i].name@)
}

/// The names of columns, as strings.
pub fn names_of(columns: &Vec<Column>) -> (r: Vec<String>)
    ensures
        text::texts(r@) == column_names(columns@),
{
    let mut r: Vec<String> = Vec::new();
    let mut i: usize = 0;
    while i < columns.len()
        invariant
            i <= columns.len(),
            r@.len() == i,
            forall|k: int| 0 <= k < i ==> (#[trigger] r@[k])@ == columns@[k].name@,
        decreases columns.len() - i,
    {
        r.push(columns[i].name.clone());
        i += 1;
    }
    assert(text::texts(r@) =~= column_names(columns@));
    r
}

/// A sort key.
#[derive(Debug)]
pub struct SortExpr {
    pub expr: Expr,
    pub ascending: bool,
    pub nulls_first: bool,
}

impl SortExpr {
    /// The SQL text of a sort key.
    pub open spec fn sql(self) -> Seq<char> {
        self.expr@.sql() + (if self.ascending {
            " ASC"@
        } else {
            " DESC"@
        }) + (if self.nulls_first {
            " NULLS FIRST"@
        } else {
            " NULLS LAST"@
        })
    }

    /// The SQL text of the sort key.
    pub fn to_sql(&self) -> (r: String)
        ensures
            r@ == self.sql(),
    {
        let mut r = self.expr.to_sql();
        if self.ascending {
            r.append(" ASC");
        } else {
            r.append(" DESC");
        }
        if self.nulls_first {
            r.append(" NULLS FIRST");
        } else {
            r.append(" NULLS LAST");
        }
        r
    }
}

/// A window function with its window.
#[derive(Debug)]
pub struct WindowExpr {
    pub func_name: String,
    pub args: Vec<Expr>,
    pub partition_by: Vec<Expr>,
    pub order_by: Vec<SortExpr>,
    pub alias: String,
}

impl WindowExpr {
    /// The texts of the sort keys.
    pub open spec fn sort_texts(self) -> Seq<Seq<char>> {
        Seq::new(self.order_by@.len(), |i: int| self.order_by@[i].sql())
    }

    /// The parts of the window: partitioning and order, as far as given.
    pub open spec fn over_parts(self) -> Seq<Seq<char>> {
        (if self.partition_by@.len() > 0 {
            seq!["PARTITION BY "@ + text::join(sql_all(expr_views(self.partition_by@)), ", "@)]
        } else {
            Seq::empty()
        }) + (if self.order_by@.len() > 0 {
            seq!["ORDER BY "@ + text::join(self.sort_texts(), ", "@)]
        } else {
            Seq::empty()
        })
    }

    /// The SQL text of a window function call.
    pub open spec fn sql(self) -> Seq<char> {
        self.func_name@ + "("@ + text::join(sql_all(expr_views(self.args@)), ", "@) + ") OVER ("@
            + text::join(self.over_parts(), " "@) + ")"@
    }

    /// The SQL text of the window function call.
    pub fn to_sql(&self) -> (r: String)
        ensures
            r@ == self.sql(),
    {
        let mut over: Vec<String> = Vec::new();
        if self.partition_by.len() > 0 {
            let mut part = "PARTITION BY ".to_string();
            part.append(join_texts(&exprs_sql(&self.partition_by), ", ").as_str());
            over.push(part);
        }
        let ghost first = over@;
        if self.order_by.len() > 0 {
            let mut keys: Vec<String> = Vec::new();
            let mut i: usize = 0;
            while i < self.order_by.len()
                invariant
                    i <= self.order_by.len(),
                    keys@.len() == i,
                    forall|k: int|
                        0 <= k < i ==> (#[trigger] keys@[k])@ == self.order_by@[k].sql(),
                decreases self.order_by.len() - i,
            {
                keys.push(self.order_by[i].to_sql());
                i += 1;
            }
            assert(text::texts(keys@) =~= self.sort_texts());
            let mut part = "ORDER BY ".to_string();
            part.append(join_texts(&keys, ", ").as_str());
            over.push(part);
        }
        assert(text::texts(over@) =~= self.over_parts());
        let mut r = self.func_name.clone();
        r.append("(");
        r.append(join_texts(&exprs_sql(&self.args), ", ").as_str());
        r.append(") OVER (");
        r.append(join_texts(&over, " ").as_str());
        r.append(")");
        r
    }
}

/// An aggregate function call.
#[derive(Debug)]
pub struct AggExpr {
    pub func_name: String,
    pub argument: Option<Expr>,
    pub is_distinct: bool,
    pub alias: String,
}

// ── Operator trees ─────────────────────────────────────────────────────

/// A relational operator with its inputs.
#[derive(Debug)]
pub enum OpTree {
    /// A base table.
    Scan {
        table_oid: u32,
        table_name: String,
        schema: String,
        columns: Vec<Column>,
        pk_columns: Vec<String>,
        alias: String,
    },
    /// Rows that satisfy a predicate.
    Filter { predicate: Expr, child: Box<OpTree> },
    /// Computed columns.
    Project { expressions: Vec<Expr>, aliases: Vec<String>, child: Box<OpTree> },
    /// Matching pairs of rows.
    InnerJoin { condition: Expr, left: Box<OpTree>, right: Box<OpTree> },
    /// Matching pairs, and left rows without a match.
    LeftJoin { condition: Expr, left: Box<OpTree>, right: Box<OpTree> },
    /// Matching pairs, and rows of either side without a match.
    FullJoin { condition: Expr, left: Box<OpTree>, right: Box<OpTree> },
    /// Left rows with a match.
    SemiJoin { condition: Expr, left: Box<OpTree>, right: Box<OpTree> },
    /// Left rows without a match.
    AntiJoin { condition: Expr, left: Box<OpTree>, right: Box<OpTree> },
    /// Groups with aggregates.
    Aggregate { group_by: Vec<Expr>, aggregates: Vec<AggExpr>, child: Box<OpTree> },
    /// Rows without repetition.
    Distinct { child: Box<OpTree> },
    /// A subquery with a name.
    Subquery { alias: String, column_aliases: Vec<String>, child: Box<OpTree> },
    /// A reference to a common table expression.
    CteScan {
        cte_id: usize,
        cte_name: String,
        alias: String,
        columns: Vec<String>,
        cte_def_aliases: Vec<String>,
        column_aliases: Vec<String>,
    },
    /// A recursive common table expression.
    RecursiveCte {
        alias: String,
        columns: Vec<String>,
        base: Box<OpTree>,
        recursive: Box<OpTree>,
        union_all: bool,
    },
    /// The reference of a recursive term to the expression it defines.
    RecursiveSelfRef { cte_name: String, alias: String, columns: Vec<String> },
    /// Window functions over the rows of the input.
    Window {
        window_exprs: Vec<WindowExpr>,
        partition_by: Vec<Expr>,
        pass_through: Vec<(Expr, String)>,
        child: Box<OpTree>,
    },
    /// A column whose value a subquery gives, the same for every row.
    ScalarSubquery {
        subquery: Box<OpTree>,
        alias: String,
        subquery_source_oids: Vec<u32>,
        child: Box<OpTree>,
    },
}

/// The output names of columns that a window passes through.
pub open spec fn pass_through_names(pass_through: Seq<(Expr, String)>) -> Seq<Seq<char>> {
    Seq::new(pass_through.len(), |i: int| pass_through[i].1@)
}

/// The output names of window functions.
pub open spec fn window_names(window_exprs: Seq<WindowExpr>) -> Seq<Seq<char>> {
    Seq::new(window_exprs.len(), |i: int| window_exprs[i].alias@)
}

/// The output names of aggregates.
pub open spec fn aggregate_names(aggregates: Seq<AggExpr>) -> Seq<Seq<char>> {
    Seq::new(aggregates.len(), |i: int| aggregates[i].alias@)
}

impl OpTree {
    /// The name under which the output of an operator is known above it.
    pub open spec fn spec_alias(self) -> Seq<char>
        decreases self,
    {
        match self {
            OpTree::Scan { alias, .. } => alias@,
            OpTree::Filter { child, .. } => child.spec_alias(),
            OpTree::Project { child, .. } => child.spec_alias(),
            OpTree::InnerJoin { .. } => "join"@,
            OpTree::LeftJoin { .. } => "left_join"@,
            OpTree::FullJoin { .. } => "full_join"@,
            OpTree::SemiJoin { .. } => "semi_join"@,
            OpTree::AntiJoin { .. } => "anti_join"@,
            OpTree::Aggregate { .. } => "agg"@,
            OpTree::Distinct { child } => child.spec_alias(),
            OpTree::Subquery { alias, .. } => alias@,
            OpTree::CteScan { alias, .. } => alias@,
            OpTree::RecursiveCte { alias, .. } => alias@,
            OpTree::RecursiveSelfRef { alias, .. } => alias@,
            OpTree::Window { .. } => "window"@,
            OpTree::ScalarSubquery { .. } => "scalar_subquery"@,
        }
    }

    /// The name under which the output of the operator is known above it.
    pub fn alias(&self) -> (r: &str)
        ensures
            r@ == self.spec_alias(),
        decreases self,
    {
        match self {
            OpTree::Scan { alias, .. } => alias.as_str(),
            OpTree::Filter { child, .. } => child.alias(),
            OpTree::Project { child, .. } => child.alias(),
            OpTree::InnerJoin { .. } => "join",
            OpTree::LeftJoin { .. } => "left_join",
            OpTree::FullJoin { .. } => "full_join",
            OpTree::SemiJoin { .. } => "semi_join",
            OpTree::AntiJoin { .. } => "anti_join",
            OpTree::Aggregate { .. } => "agg",
            OpTree::Distinct { child } => child.alias(),
            OpTree::Subquery { alias, .. } => alias.as_str(),
            OpTree::CteScan { alias, .. } => alias.as_str(),
            OpTree::RecursiveCte { alias, .. } => alias.as_str(),
            OpTree::RecursiveSelfRef { alias, .. } => alias.as_str(),
            OpTree::Window { .. } => "window",
            OpTree::ScalarSubquery { .. } => "scalar_subquery",
        }
    }

    /// The name of an operator.
    pub open spec fn spec_kind(self) -> Seq<char> {
        match self {
            OpTree::Scan { .. } => "scan"@,
            OpTree::Filter { .. } => "filter"@,
            OpTree::Project { .. } => "project"@,
            OpTree::InnerJoin { .. } => "inner_join"@,
            OpTree::LeftJoin { .. } => "left_join"@,
            OpTree::FullJoin { .. } => "full_join"@,
            OpTree::SemiJoin { .. } => "semi_join"@,
            OpTree::AntiJoin { .. } => "anti_join"@,
            OpTree::Aggregate { .. } => "aggregate"@,
            OpTree::Distinct { .. } => "distinct"@,
            OpTree::Subquery { .. } => "subquery"@,
            OpTree::CteScan { .. } => "cte_scan"@,
            OpTree::RecursiveCte { .. } => "recursive_cte"@,
            OpTree::RecursiveSelfRef { .. } => "recursive_self_ref"@,
            OpTree::Window { .. } => "window"@,
            OpTree::ScalarSubquery { .. } => "scalar_subquery"@,
        }
    }

    /// The name of the operator.
    pub fn node_kind(&self) -> (r: &'static str)
        ensures
            r@ == self.spec_kind(),
    {
        match self {
            OpTree::Scan { .. } => "scan",
            OpTree::Filter { .. } => "filter",
            OpTree::Project { .. } => "project",
            OpTree::InnerJoin { .. } => "inner_join",
            OpTree::LeftJoin { .. } => "left_join",
            OpTree::FullJoin { .. } => "full_join",
            OpTree::SemiJoin { .. } => "semi_join",
            OpTree::AntiJoin { .. } => "anti_join",
            OpTree::Aggregate { .. } => "aggregate",
            OpTree::Distinct { .. } => "distinct",
            OpTree::Subquery { .. } => "subquery",
            OpTree::CteScan { .. } => "cte_scan",
            OpTree::RecursiveCte { .. } => "recursive_cte",
            OpTree::RecursiveSelfRef { .. } => "recursive_self_ref",
            OpTree::Window { .. } => "window",
            OpTree::ScalarSubquery { .. } => "scalar_subquery",
        }
    }

    /// The names of the columns that an operator puts out.
    pub open spec fn spec_columns(self) -> Seq<Seq<char>>
        decreases self,
    {
        match self {
            OpTree::Scan { columns, .. } => column_names(columns@),
            OpTree::Filter { child, .. } => child.spec_columns(),
            OpTree::Project { aliases, .. } => text::texts(aliases@),
            OpTree::InnerJoin { left, right, .. } => left.spec_columns() + right.spec_columns(),
            OpTree::LeftJoin { left, right, .. } => left.spec_columns() + right.spec_columns(),
            OpTree::FullJoin { left, right, .. } => left.spec_columns() + right.spec_columns(),
            OpTree::SemiJoin { left, .. } => left.spec_columns(),
            OpTree::AntiJoin { left, .. } => left.spec_columns(),
            OpTree::Aggregate { group_by, aggregates, .. } => {
                sql_all(stripped_all(expr_views(group_by@))) + aggregate_names(aggregates@)
            },
            OpTree::Distinct { child } => child.spec_columns(),
            OpTree::Subquery { column_aliases, child, .. } => {
                if column_aliases@.len() > 0 {
                    text::texts(column_aliases@)
                } else {
                    child.spec_columns()
                }
            },
            OpTree::CteScan { columns, cte_def_aliases, column_aliases, .. } => {
                if column_aliases@.len() > 0 {
                    text::texts(column_aliases@)
                } else if cte_def_aliases@.len() > 0 {
                    text::texts(cte_def_aliases@)
                } else {
                    text::texts(columns@)
                }
            },
            OpTree::RecursiveCte { columns, .. } => text::texts(columns@),
            OpTree::RecursiveSelfRef { columns, .. } => text::texts(columns@),
            OpTree::Window { window_exprs, pass_through, .. } => {
                pass_through_names(pass_through@) + window_names(window_exprs@)
            },
            OpTree::ScalarSubquery { alias, child, .. } => child.spec_columns().push(alias@),
        }
    }

    /// The names of the columns that the operator puts out.
    pub fn output_columns(&self) -> (r: Vec<String>)
        ensures
            text::texts(r@) == self.spec_columns(),
        decreases self,
    {
        match self {
            OpTree::Scan { columns, .. } => names_of(columns),
            OpTree::Filter { child, .. } => child.output_columns(),
            OpTree::Project { aliases, .. } => copy_texts(aliases),
            OpTree::InnerJoin { left, right, .. } => {
                both(left.output_columns(), right.output_columns())
            },
            OpTree::LeftJoin { left, right, .. } => {
                both(left.output_columns(), right.output_columns())
            },
            OpTree::FullJoin { left, right, .. } => {
                both(left.output_columns(), right.output_columns())
            },
            OpTree::SemiJoin { left, .. } => left.output_columns(),
            OpTree::AntiJoin { left, .. } => left.output_columns(),
            OpTree::Aggregate { group_by, aggregates, .. } => {
                both(bare_names(group_by), aliases_of_aggregates(aggregates))
            },
            OpTree::Distinct { child } => child.output_columns(),
            OpTree::Subquery { column_aliases, child, .. } => {
                if column_aliases.len() > 0 {
                    copy_texts(column_aliases)
                } else {
                    child.output_columns()
                }
            },
            OpTree::CteScan { columns, cte_def_aliases, column_aliases, .. } => {
                if column_aliases.len() > 0 {
                    copy_texts(column_aliases)
                } else if cte_def_aliases.len() > 0 {
                    copy_texts(cte_def_aliases)
                } else {
                    copy_texts(columns)
                }
            },
            OpTree::RecursiveCte { columns, .. } => copy_texts(columns),
            OpTree::RecursiveSelfRef { columns, .. } => copy_texts(columns),
            OpTree::Window { window_exprs, pass_through, .. } => {
                both(aliases_passed_through(pass_through), aliases_of_windows(window_exprs))
            },
            OpTree::ScalarSubquery { alias, child, .. } => {
                let mut r = child.output_columns();
                let ghost before = r@;
                r.push(alias.clone());
                assert(text::texts(r@) =~= text::texts(before).push(alias@));
                r
            },
        }
    }

    /// The base tables that an operator reads, from left to right.
    pub open spec fn spec_sources(self) -> Seq<u32>
        decreases self,
    {
        match self {
            OpTree::Scan { table_oid, .. } => seq![table_oid],
            OpTree::Filter { child, .. } => child.spec_sources(),
            OpTree::Project { child, .. } => child.spec_sources(),
            OpTree::InnerJoin { left, right, .. } => left.spec_sources() + right.spec_sources(),
            OpTree::LeftJoin { left, right, .. } => left.spec_sources() + right.spec_sources(),
            OpTree::FullJoin { left, right, .. } => left.spec_sources() + right.spec_sources(),
            OpTree::SemiJoin { left, right, .. } => left.spec_sources() + right.spec_sources(),
            OpTree::AntiJoin { left, right, .. } => left.spec_sources() + right.spec_sources(),
            OpTree::Aggregate { child, .. } => child.spec_sources(),
            OpTree::Distinct { child } => child.spec_sources(),
            OpTree::Subquery { child, .. } => child.spec_sources(),
            OpTree::CteScan { .. } => Seq::empty(),
            OpTree::RecursiveCte { base, recursive, .. } => {
                base.spec_sources() + recursive.spec_sources()
            },
            OpTree::RecursiveSelfRef { .. } => Seq::empty(),
            OpTree::Window { child, .. } => child.spec_sources(),
            OpTree::ScalarSubquery { child, subquery_source_oids, .. } => {
                child.spec_sources() + subquery_source_oids@
            },
        }
    }

    /// The base tables that the operator reads, from left to right.
    pub fn source_oids(&self) -> (r: Vec<u32>)
        ensures
            r@ == self.spec_sources(),
        decreases self,
    {
        match self {
            OpTree::Scan { table_oid, .. } => {
                let mut r: Vec<u32> = Vec::new();
                r.push(*table_oid);
                assert(r@ =~= seq![*table_oid]);
                r
            },
            OpTree::Filter { child, .. } => child.source_oids(),
            OpTree::Project { child, .. } => child.source_oids(),
            OpTree::InnerJoin { left, right, .. } => {
                both_oids(left.source_oids(), &right.source_oids())
            },
            OpTree::LeftJoin { left, right, .. } => {
                both_oids(left.source_oids(), &right.source_oids())
            },
            OpTree::FullJoin { left, right, .. } => {
                both_oids(left.source_oids(), &right.source_oids())
            },
            OpTree::SemiJoin { left, right, .. } => {
                both_oids(left.source_oids(), &right.source_oids())
            },
            OpTree::AntiJoin { left, right, .. } => {
                both_oids(left.source_oids(), &right.source_oids())
            },
            OpTree::Aggregate { child, .. } => child.source_oids(),
            OpTree::Distinct { child } => child.source_oids(),
            OpTree::Subquery { child, .. } => child.source_oids(),
            OpTree::CteScan { .. } => Vec::new(),
            OpTree::RecursiveCte { base, recursive, .. } => {
                both_oids(base.source_oids(), &recursive.source_oids())
            },
            OpTree::RecursiveSelfRef { .. } => Vec::new(),
            OpTree::Window { child, .. } => child.source_oids(),
            OpTree::ScalarSubquery { child, subquery_source_oids, .. } => {
                both_oids(child.source_oids(), subquery_source_oids)
            },
        }
    }
}

/// Two lists, one after the other.
pub fn both(a: Vec<String>, b: Vec<String>) -> (r: Vec<String>)
    ensures
        r@ == a@ + b@,
        text::texts(r@) == text::texts(a@) + text::texts(b@),
{
    let mut r = a;
    let mut rest = b;
    r.append(&mut rest);
    assert(text::texts(r@) =~= text::texts(a@) + text::texts(b@));
    r
}

/// Two lists of table identifiers, one after the other.
fn both_oids(a: Vec<u32>, b: &Vec<u32>) -> (r: Vec<u32>)
    ensures
        r@ == a@ + b@,
{
    let mut r = a;
    let mut i: usize = 0;
    while i < b.len()
        invariant
            i <= b.len(),
            r@ == a@ + b@.take(i as int),
        decreases b.len() - i,
    {
        r.push(b[i]);
        i += 1;
        assert(b@.take(i as int) =~= b@.take(i - 1).push(b@[i - 1]));
        assert(r@ =~= a@ + b@.take(i as int));
    }
    assert(b@.take(b@.len() as int) =~= b@);
    r
}

/// The SQL texts of expressions without their table aliases.
fn bare_names(es: &Vec<Expr>) -> (r: Vec<String>)
    ensures
        text::texts(r@) == sql_all(stripped_all(expr_views(es@))),
{
    let mut r: Vec<String> = Vec::new();
    let mut i: usize = 0;
    while i < es.len()
        invariant
            i <= es.len(),
            text::texts(r@) == sql_all(stripped_all(expr_views(es@.take(i as int)))),
        decreases es.len() - i,
    {
        let ghost before = r@;
        r.push(es[i].strip_qualifier().to_sql());
        proof {
            lemma_views_take(es@, i as int);
            let now = stripped_all(expr_views(es@.take(i + 1)));
            assert(now.drop_last() =~= stripped_all(expr_views(es@.take(i as int))));
            assert(text::texts(r@) =~= text::texts(before).push(r@.last()@));
        }
        i += 1;
    }
    assert(es@.take(es@.len() as int) =~= es@);
    r
}

/// The output names of aggregates, as strings.
fn aliases_of_aggregates(aggregates: &Vec<AggExpr>) -> (r: Vec<String>)
    ensures
        text::texts(r@) == aggregate_names(aggregates@),
{
    let mut r: Vec<String> = Vec::new();
    let mut i: usize = 0;
    while i < aggregates.len()
        invariant
            i <= aggregates.len(),
            r@.len() == i,
            forall|k: int| 0 <= k < i ==> (#[trigger] r@[k])@ == aggregates@[k].alias@,
        decreases aggregates.len() - i,
    {
        r.push(aggregates[i].alias.clone());
        i += 1;
    }
    assert(text::texts(r@) =~= aggregate_names(aggregates@));
    r
}

/// The output names of columns that a window passes through, as strings.
pub fn aliases_passed_through(pass_through: &Vec<(Expr, String)>) -> (r: Vec<String>)
    ensures
        text::texts(r@) == pass_through_names(pass_through@),
{
    let mut r: Vec<String> = Vec::new();
    let mut i: usize = 0;
    while i < pass_through.len()
        invariant
            i <= pass_through.len(),
            r@.len() == i,
            forall|k: int| 0 <= k < i ==> (#[trigger] r@[k])@ == pass_through@[k].1@,
        decreases pass_through.len() - i,
    {
        r.push(pass_through[i].1.clone());
        i += 1;
    }
    assert(text::texts(r@) =~= pass_through_names(pass_through@));
    r
}

/// The output names of window functions, as strings.
pub fn aliases_of_windows(window_exprs: &Vec<WindowExpr>) -> (r: Vec<String>)
    ensures
        text::texts(r@) == window_names(window_exprs@),
{
    let mut r: Vec<String> = Vec::new();
    let mut i: usize = 0;
    while i < window_exprs.len()
        invariant
            i <= window_exprs.len(),
            r@.len() == i,
            forall|k: int| 0 <= k < i ==> (#[trigger] r@[k])@ == window_exprs@[k].alias@,
        decreases window_exprs.len() - i,
    {
        r.push(window_exprs[i].alias.clone());
        i += 1;
    }
    assert(text::texts(r@) =~= window_names(window_exprs@));
    r
}

// ── Common table expressions ───────────────────────────────────────────

/// The common table expressions of a query, each with its name and body.
/// References carry the position of their expression in this list.
#[derive(Debug)]
pub struct CteRegistry {
    pub entries: Vec<(String, OpTree)>,
}

impl CteRegistry {
    /// The expression at a position.
    pub fn get(&self, id: usize) -> (r: Option<&(String, OpTree)>)
        ensures
            match r {
                Some(entry) => id < self.entries@.len() && *entry == self.entries@[id as int],
                None => id >= self.entries@.len(),
            },
    {
        if id < self.entries.len() {
            Some(&self.entries[id])
        } else {
            None
        }
    }
}

/// The larger of two numbers.
pub open spec fn larger(a: nat, b: nat) -> nat {
    if a >= b {
        a
    } else {
        b
    }
}

/// How deep the references of an operator go, where `rank` says how deep each
/// common table expression goes: one more than the deepest that it names, and
/// zero where it names none of the `len` that there are.
pub open spec fn reference_depth(rank: spec_fn(int) -> nat, len: nat, op: OpTree) -> nat
    decreases op,
{
    match op {
        OpTree::Scan { .. } => 0,
        OpTree::Filter { child, .. } => reference_depth(rank, len, *child),
        OpTree::Project { child, .. } => reference_depth(rank, len, *child),
        OpTree::InnerJoin { left, right, .. } => larger(
            reference_depth(rank, len, *left),
            reference_depth(rank, len, *right),
        ),
        OpTree::LeftJoin { left, right, .. } => larger(
            reference_depth(rank, len, *left),
            reference_depth(rank, len, *right),
        ),
        OpTree::FullJoin { left, right, .. } => larger(
            reference_depth(rank, len, *left),
            reference_depth(rank, len, *right),
        ),
        OpTree::SemiJoin { left, right, .. } => larger(
            reference_depth(rank, len, *left),
            reference_depth(rank, len, *right),
        ),
        OpTree::AntiJoin { left, right, .. } => larger(
            reference_depth(rank, len, *left),
            reference_depth(rank, len, *right),
        ),
        OpTree::Aggregate { child, .. } => reference_depth(rank, len, *child),
        OpTree::Distinct { child } => reference_depth(rank, len, *child),
        OpTree::Subquery { child, .. } => reference_depth(rank, len, *child),
        OpTree::CteScan { cte_id, .. } => if cte_id < len {
            rank(cte_id as int) + 1
        } else {
            0
        },
        OpTree::RecursiveCte { base, recursive, .. } => larger(
            reference_depth(rank, len, *base),
            reference_depth(rank, len, *recursive),
        ),
        OpTree::RecursiveSelfRef { .. } => 0,
        OpTree::Window { child, .. } => reference_depth(rank, len, *child),
        OpTree::ScalarSubquery { subquery, child, .. } => larger(
            reference_depth(rank, len, *subquery),
            reference_depth(rank, len, *child),
        ),
    }
}

impl CteRegistry {
    /// Whether `rank` puts every expression above those that its body names.
    pub open spec fn ranked_by(self, rank: spec_fn(int) -> nat) -> bool {
        forall|i: int|
            0 <= i < self.entries@.len() ==> reference_depth(
                rank,
                self.entries@.len(),
                #[trigger] self.entries@[i].1,
            ) <= rank(i)
    }

    /// Whether no expression names itself, directly or through others.
    pub open spec fn acyclic(self) -> bool {
        exists|rank: spec_fn(int) -> nat| self.ranked_by(rank)
    }

    /// Some ranking of the expressions: one that puts each above those that it
    /// names, where there is one.
    pub open spec fn rank(self) -> spec_fn(int) -> nat {
        choose|rank: spec_fn(int) -> nat| self.ranked_by(rank)
    }

    /// How deep the references of an operator go into this registry.
    pub open spec fn depth(self, op: OpTree) -> nat {
        reference_depth(self.rank(), self.entries@.len(), op)
    }
}

/// In a registry without cycles, the body of an expression goes less deep than
/// a reference to it.
pub proof fn lemma_body_is_shallower(registry: CteRegistry, id: int)
    requires
        registry.acyclic(),
        0 <= id < registry.entries@.len(),
    ensures
        registry.depth(registry.entries@[id].1) < registry.rank()(id) + 1,
{
    assert(registry.ranked_by(registry.rank()));
}

/// Whether an operator names only expressions before position `bound`, among
/// the `len` that there are.
pub open spec fn names_before(op: OpTree, bound: nat, len: nat) -> bool
    decreases op,
{
    match op {
        OpTree::Scan { .. } => true,
        OpTree::Filter { child, .. } => names_before(*child, bound, len),
        OpTree::Project { child, .. } => names_before(*child, bound, len),
        OpTree::InnerJoin { left, right, .. } => names_before(*left, bound, len) && names_before(
            *right,
            bound,
            len,
        ),
        OpTree::LeftJoin { left, right, .. } => names_before(*left, bound, len) && names_before(
            *right,
            bound,
            len,
        ),
        OpTree::FullJoin { left, right, .. } => names_before(*left, bound, len) && names_before(
            *right,
            bound,
            len,
        ),
        OpTree::SemiJoin { left, right, .. } => names_before(*left, bound, len) && names_before(
            *right,
            bound,
            len,
        ),
        OpTree::AntiJoin { left, right, .. } => names_before(*left, bound, len) && names_before(
            *right,
            bound,
            len,
        ),
        OpTree::Aggregate { child, .. } => names_before(*child, bound, len),
        OpTree::Distinct { child } => names_before(*child, bound, len),
        OpTree::Subquery { child, .. } => names_before(*child, bound, len),
        OpTree::CteScan { cte_id, .. } => cte_id < bound || cte_id >= len,
        OpTree::RecursiveCte { base, recursive, .. } => names_before(*base, bound, len)
            && names_before(*recursive, bound, len),
        OpTree::RecursiveSelfRef { .. } => true,
        OpTree::Window { child, .. } => names_before(*child, bound, len),
        OpTree::ScalarSubquery { subquery, child, .. } => names_before(*subquery, bound, len)
            && names_before(*child, bound, len),
    }
}

/// Whether an operator names only expressions before a position.
fn check_names_before(op: &OpTree, bound: usize, len: usize) -> (r: bool)
    ensures
        r == names_before(*op, bound as nat, len as nat),
    decreases op,
{
    match op {
        OpTree::Scan { .. } => true,
        OpTree::Filter { child, .. } => check_names_before(child, bound, len),
        OpTree::Project { child, .. } => check_names_before(child, bound, len),
        OpTree::InnerJoin { left, right, .. } => {
            check_names_before(left, bound, len) && check_names_before(right, bound, len)
        },
        OpTree::LeftJoin { left, right, .. } => {
            check_names_before(left, bound, len) && check_names_before(right, bound, len)
        },
        OpTree::FullJoin { left, right, .. } => {
            check_names_before(left, bound, len) && check_names_before(right, bound, len)
        },
        OpTree::SemiJoin { left, right, .. } => {
            check_names_before(left, bound, len) && check_names_before(right, bound, len)
        },
        OpTree::AntiJoin { left, right, .. } => {
            check_names_before(left, bound, len) && check_names_before(right, bound, len)
        },
        OpTree::Aggregate { child, .. } => check_names_before(child, bound, len),
        OpTree::Distinct { child } => check_names_before(child, bound, len),
        OpTree::Subquery { child, .. } => check_names_before(child, bound, len),
        OpTree::CteScan { cte_id, .. } => *cte_id < bound || *cte_id >= len,
        OpTree::RecursiveCte { base, recursive, .. } => {
            check_names_before(base, bound, len) && check_names_before(recursive, bound, len)
        },
        OpTree::RecursiveSelfRef { .. } => true,
        OpTree::Window { child, .. } => check_names_before(child, bound, len),
        OpTree::ScalarSubquery { subquery, child, .. } => {
            check_names_before(subquery, bound, len) && check_names_before(child, bound, len)
        },
    }
}

/// An operator that names only expressions before `bound` goes no deeper than
/// `bound`, where each expression goes as deep as its position.
proof fn lemma_depth_before(op: OpTree, bound: nat, len: nat)
    requires
        names_before(op, bound, len),
    ensures
        reference_depth(|i: int| i as nat, len, op) <= bound,
    decreases op,
{
    match op {
        OpTree::Filter { child, .. } => lemma_depth_before(*child, bound, len),
        OpTree::Project { child, .. } => lemma_depth_before(*child, bound, len),
        OpTree::InnerJoin { left, right, .. } => {
            lemma_depth_before(*left, bound, len);
            lemma_depth_before(*right, bound, len);
        },
        OpTree::LeftJoin { left, right, .. } => {
            lemma_depth_before(*left, bound, len);
            lemma_depth_before(*right, bound, len);
        },
        OpTree::FullJoin { left, right, .. } => {
            lemma_depth_before(*left, bound, len);
            lemma_depth_before(*right, bound, len);
        },
        OpTree::SemiJoin { left, right, .. } => {
            lemma_depth_before(*left, bound, len);
            lemma_depth_before(*right, bound, len);
        },
        OpTree::AntiJoin { left, right, .. } => {
            lemma_depth_before(*left, bound, len);
            lemma_depth_before(*right, bound, len);
        },
        OpTree::Aggregate { child, .. } => lemma_depth_before(*child, bound, len),
        OpTree::Distinct { child } => lemma_depth_before(*child, bound, len),
        OpTree::Subquery { child, .. } => lemma_depth_before(*child, bound, len),
        OpTree::RecursiveCte { base, recursive, .. } => {
            lemma_depth_before(*base, bound, len);
            lemma_depth_before(*recursive, bound, len);
        },
        OpTree::Window { child, .. } => lemma_depth_before(*child, bound, len),
        OpTree::ScalarSubquery { subquery, child, .. } => {
            lemma_depth_before(*subquery, bound, len);
            lemma_depth_before(*child, bound, len);
        },
        _ => {},
    }
}

impl CteRegistry {
    /// Whether every expression names only expressions before it.
    pub open spec fn ordered(self) -> bool {
        forall|i: int|
            0 <= i < self.entries@.len() ==> names_before(
                #[trigger] self.entries@[i].1,
                i as nat,
                self.entries@.len(),
            )
    }

    /// Whether every expression names only expressions before it, as those of
    /// a `WITH` clause do.
    pub fn is_ordered(&self) -> (r: bool)
        ensures
            r == self.ordered(),
            r ==> self.acyclic(),
    {
        let mut i: usize = 0;
        while i < self.entries.len()
            invariant
                i <= self.entries.len(),
                forall|k: int|
                    0 <= k < i ==> names_before(
                        #[trigger] self.entries@[k].1,
                        k as nat,
                        self.entries@.len(),
                    ),
            decreases self.entries.len() - i,
        {
            if !check_names_before(&self.entries[i].1, i, self.entries.len()) {
                return false;
            }
            i += 1;
        }
        proof {
            ordered_is_acyclic(*self);
        }
        true
    }
}

/// A registry in which every expression names only earlier ones has no cycle.
pub proof fn ordered_is_acyclic(registry: CteRegistry)
    requires
        registry.ordered(),
    ensures
        registry.acyclic(),
{
    let rank = |i: int| i as nat;
    let len = registry.entries@.len();
    assert forall|i: int| 0 <= i < len implies reference_depth(
        rank,
        len,
        #[trigger] registry.entries@[i].1,
    ) <= rank(i) by {
        lemma_depth_before(registry.entries@[i].1, i as nat, len);
    }
    assert(registry.ranked_by(rank));
}

/// The empty registry has no cycle.
pub proof fn lemma_empty_registry(registry: CteRegistry)
    requires
        registry.entries@.len() == 0,
    ensures
        registry.acyclic(),
{
    let rank = |i: int| 0nat;
    assert(registry.ranked_by(rank));
}

} // verus!
