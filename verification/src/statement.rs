//! The one statement shape the canonicalizer serves, a single-table `SELECT`, and the steps
//! that take its `WHERE` clause to canonical text the parser reads back as itself.
//!
//! Parsing is left to the caller: it hands in what the parser made of the SQL, and of the
//! canonical text when that is read back.

use vstd::prelude::*;
use vstd::string::*;

use crate::ast::{Expr, ObjectName};
use crate::context::Canonicalizer;
use crate::error::{outcome, unsupported, unsupported_str, CanonicalizeError, ErrorView};
use crate::normalize::normalize_expr_inner;
use crate::sanity::{check_sql_sanity, sanity, MAX_SQL_LEN};
use crate::spec::{canon, Enclosure};
use crate::text::{chars_of, push_str, string_of, text_eq};

verus! {

/// How a `SELECT` treats duplicate rows.
#[derive(Clone, Copy, Debug, PartialEq, Eq)]
pub enum Distinct {
    /// `SELECT ALL`, which keeps them, as a plain `SELECT` does.
    All,
    /// `SELECT DISTINCT`.
    Distinct,
    /// `SELECT DISTINCT ON (...)`.
    On,
}

/// A `LIMIT`, `OFFSET` or `LIMIT BY` clause.
#[derive(Clone, Copy, Debug, PartialEq, Eq)]
pub enum LimitClause {
    /// `LIMIT` and `OFFSET` in either order, with which of their parts are present.
    LimitOffset { has_limit: bool, has_offset: bool, has_limit_by: bool },
    /// MySQL's `LIMIT offset, count`.
    OffsetCommaLimit,
}

/// One item of a `FROM` clause.
#[derive(Clone, Copy, Debug, PartialEq, Eq)]
pub struct TableWithJoins {
    /// Whether the item is a named table, rather than a subquery, a function or another form.
    pub relation_is_table: bool,
    /// How many joins follow it.
    pub join_count: usize,
}

/// A `SELECT`, with whether each clause the canonicalizer does not serve is present.
#[derive(Debug, PartialEq, Eq)]
pub struct Select {
    pub optimizer_hints: bool,
    pub distinct: Option<Distinct>,
    /// Whether any MySQL modifier such as `HIGH_PRIORITY` or `SQL_NO_CACHE` is set.
    pub select_modifiers: bool,
    pub top: bool,
    pub exclude: bool,
    pub into: bool,
    pub from: Vec<TableWithJoins>,
    pub lateral_views: bool,
    pub prewhere: bool,
    /// The `WHERE` clause.
    pub selection: Option<Expr>,
    pub connect_by: bool,
    pub cluster_by: bool,
    pub distribute_by: bool,
    pub sort_by: bool,
    pub named_window: bool,
    pub qualify: bool,
    /// Whether it is BigQuery's `SELECT AS VALUE` or `SELECT AS STRUCT`.
    pub value_table_mode: bool,
}

/// The body of a query.
#[derive(Debug, PartialEq, Eq)]
pub enum SetExpr {
    Select(Select),
    /// A set operation, `VALUES`, a parenthesized query or any other body.
    Other,
}

/// A query, with whether each clause the canonicalizer does not serve is present.
#[derive(Debug, PartialEq, Eq)]
pub struct Query {
    pub with: bool,
    pub body: SetExpr,
    pub limit_clause: Option<LimitClause>,
    pub fetch: bool,
    /// Whether it has a `FOR UPDATE` or `FOR SHARE` lock.
    pub locks: bool,
    /// Whether it has SQL Server's `FOR XML` or `FOR JSON`.
    pub for_clause: bool,
    pub settings: bool,
    pub format_clause: bool,
    pub pipe_operators: bool,
}

/// One item of a `SELECT` list.
#[derive(Debug, PartialEq, Eq)]
pub enum SelectItem {
    /// An expression without an alias.
    Expr(Expr),
    /// `*` with none of its options.
    Wildcard,
    /// An aliased item, a qualified wildcard, or a wildcard with options.
    Other,
}

/// A subquery inside a predicate: its text as the parser prints it, and what of its shape
/// decides whether a predicate may hold it.
#[derive(Debug, PartialEq, Eq)]
pub struct Subquery {
    /// The subquery as the parser prints it.
    pub text: String,
    pub query: Query,
    pub order_by: bool,
    /// Whether its `SELECT` groups rows, by expressions or by a modifier such as `ROLLUP`.
    pub group_by: bool,
    pub having: bool,
    /// Whether the one table carries an alias or a table option: arguments, a version,
    /// `WITH ORDINALITY`, a JSON path or a sample.
    pub table_options: bool,
    /// Whether the one table carries hints, partitions or index hints.
    pub table_hints: bool,
    /// The name of the one table.
    pub table_name: ObjectName,
    /// The items of its `SELECT` list.
    pub projection: Vec<SelectItem>,
}

/// A parsed statement.
#[derive(Debug, PartialEq, Eq)]
pub enum Statement {
    Query(Query),
    /// Any statement that is not a query.
    Other,
}

/// How the refusal of a limit clause names it.
pub open spec fn limit_clause_name(limit: Option<LimitClause>) -> Seq<char> {
    match limit {
        Some(LimitClause::LimitOffset { has_limit, has_offset, has_limit_by }) if !has_limit => {
            if has_offset {
                "OFFSET"@
            } else if !has_limit_by {
                "LIMIT"@
            } else {
                "LIMIT BY"@
            }
        },
        _ => "LIMIT"@,
    }
}

/// Whether the `SELECT` drops duplicate rows.
pub open spec fn deduplicating(distinct: Option<Distinct>) -> bool {
    match distinct {
        Some(Distinct::Distinct) | Some(Distinct::On) => true,
        _ => false,
    }
}

/// The first clause the canonicalizer does not serve, in the order they are checked. A limit
/// clause is served in a subquery, where it decides which rows the predicate tests against,
/// and nowhere else.
pub open spec fn unserved_clause(query: Query, select: Select, limit_served: bool) -> Option<
    Seq<char>,
> {
    if query.with {
        Some("WITH"@)
    } else if deduplicating(select.distinct) {
        Some("DISTINCT"@)
    } else if !limit_served && query.limit_clause is Some {
        Some(limit_clause_name(query.limit_clause))
    } else if query.fetch {
        Some("FETCH"@)
    } else if query.locks {
        Some("FOR UPDATE or FOR SHARE"@)
    } else if query.for_clause {
        Some("FOR XML or FOR JSON"@)
    } else if query.settings {
        Some("SETTINGS"@)
    } else if query.format_clause {
        Some("FORMAT"@)
    } else if query.pipe_operators {
        Some("pipe operators"@)
    } else if select.optimizer_hints {
        Some("optimizer hints"@)
    } else if select.select_modifiers {
        Some("SELECT modifiers"@)
    } else if select.top {
        Some("TOP"@)
    } else if select.exclude {
        Some("EXCLUDE"@)
    } else if select.into {
        Some("INTO"@)
    } else if select.lateral_views {
        Some("LATERAL VIEW"@)
    } else if select.prewhere {
        Some("PREWHERE"@)
    } else if select.connect_by {
        Some("CONNECT BY"@)
    } else if select.cluster_by {
        Some("CLUSTER BY"@)
    } else if select.distribute_by {
        Some("DISTRIBUTE BY"@)
    } else if select.sort_by {
        Some("SORT BY"@)
    } else if select.named_window {
        Some("WINDOW"@)
    } else if select.qualify {
        Some("QUALIFY"@)
    } else if select.value_table_mode {
        Some("SELECT AS VALUE or SELECT AS STRUCT"@)
    } else {
        None
    }
}

/// The `SELECT` of a query the canonicalizer serves: one table, no joins, and none of the
/// clauses it does not serve.
pub open spec fn served_select(query: Query, limit_served: bool) -> Result<Select, ErrorView> {
    match query.body {
        SetExpr::Other => Err(ErrorView::Unsupported("Set operations are not supported"@)),
        SetExpr::Select(select) => if select.from@.len() != 1 {
            Err(ErrorView::Unsupported("Exactly one table is required"@))
        } else if select.from@[0].join_count != 0 {
            Err(ErrorView::Unsupported("JOINs not supported"@))
        } else if !select.from@[0].relation_is_table {
            Err(ErrorView::Unsupported("Subqueries and derived tables not supported"@))
        } else {
            match unserved_clause(query, select, limit_served) {
                Some(clause) => Err(ErrorView::Unsupported(clause + " is not supported"@)),
                None => Ok(select),
            }
        },
    }
}

/// The `WHERE` clause of a statement the canonicalizer serves.
pub open spec fn where_of(statement: Statement) -> Result<Option<Expr>, ErrorView> {
    match statement {
        Statement::Other => Err(ErrorView::Unsupported("Only SELECT statements are supported"@)),
        Statement::Query(query) => match served_select(query, false) {
            Err(e) => Err(e),
            Ok(select) => Ok(select.selection),
        },
    }
}

/// The expression an optional reference points to.
pub open spec fn owned(expr: Option<&Expr>) -> Option<Expr> {
    match expr {
        Some(e) => Some(*e),
        None => None,
    }
}

/// The canonical text of a `WHERE` clause, or of a missing one: `TRUE`, since a missing
/// filter keeps every row.
pub open spec fn where_clause_spelling(where_expr: Option<Expr>, context: Canonicalizer) -> Result<
    Seq<char>,
    ErrorView,
> {
    match where_expr {
        Some(e) => canon(e, 0, Enclosure::Bare, context),
        None => Ok("TRUE"@),
    }
}

/// The screen SQL text passes before it is parsed: a length limit, then `sanity`.
pub open spec fn screened(bytes: Seq<u8>) -> Result<(), ErrorView> {
    if bytes.len() > MAX_SQL_LEN {
        Err(ErrorView::InputTooLong(MAX_SQL_LEN))
    } else {
        sanity(bytes)
    }
}

/// The `WHERE` clause of the one `SELECT` the parser made of some SQL, or why there is none.
pub open spec fn statements_where(parsed: Result<Vec<Statement>, String>) -> Result<
    Option<Expr>,
    ErrorView,
> {
    match parsed {
        Err(message) => Err(ErrorView::Parse(message@)),
        Ok(statements) => if statements@.len() != 1 {
            Err(ErrorView::Unsupported("Expected exactly one SELECT statement"@))
        } else {
            where_of(statements@[0])
        },
    }
}

/// The canonical text of the one `SELECT` the parser made of some SQL, before it is read
/// back, or why there is none.
pub open spec fn statements_spelling(
    parsed: Result<Vec<Statement>, String>,
    context: Canonicalizer,
) -> Result<Seq<char>, ErrorView> {
    match statements_where(parsed) {
        Err(e) => Err(e),
        Ok(where_expr) => where_clause_spelling(where_expr, context),
    }
}

/// Whether the canonical text, read back as the expression `reread`, spells itself again.
pub open spec fn reads_back_as(canonical: Seq<char>, reread: Option<Expr>, context: Canonicalizer) -> bool {
    match reread {
        Some(e) => canon(e, 0, Enclosure::Bare, context) == Ok::<Seq<char>, ErrorView>(canonical),
        None => false,
    }
}

/// What some SQL that passed the screen is answered, given what the parser made of it
/// (`parsed`) and of its canonical text read back as one expression (`reread`): the steps
/// `where_clause_of`, `Canonicalizer::normalize_where_clause_inner` and
/// `Canonicalizer::confirm_reads_back_as_itself` in turn.
pub open spec fn accepted_spelling(
    parsed: Result<Vec<Statement>, String>,
    reread: Option<Expr>,
    context: Canonicalizer,
) -> Result<Seq<char>, ErrorView> {
    match statements_where(parsed) {
        Err(e) => Err(e),
        Ok(None) => Ok("TRUE"@),
        Ok(Some(w)) => match canon(w, 0, Enclosure::Bare, context) {
            Err(e) => Err(e),
            Ok(c) => if reads_back_as(c, reread, context) {
                Ok(c)
            } else {
                Err(ErrorView::NotRoundTrippable(c))
            },
        },
    }
}

/// Refuses SQL longer than `MAX_SQL_LEN` bytes, then screens it with `check_sql_sanity`.
pub fn check_sql_input(sql: &str) -> (r: Result<(), CanonicalizeError>)
    ensures
        outcome(r) == screened(sql.spec_bytes()),
{
    if sql.as_bytes().len() > MAX_SQL_LEN {
        return Err(CanonicalizeError::InputTooLong { limit: MAX_SQL_LEN });
    }
    check_sql_sanity(sql)
}

/// How the refusal of a limit clause names it.
fn limit_clause_str(limit: &Option<LimitClause>) -> (s: &'static str)
    ensures
        s@ == limit_clause_name(*limit),
{
    match limit {
        Some(LimitClause::LimitOffset { has_limit, has_offset, has_limit_by }) if !*has_limit => {
            if *has_offset {
                "OFFSET"
            } else if !*has_limit_by {
                "LIMIT"
            } else {
                "LIMIT BY"
            }
        },
        _ => "LIMIT",
    }
}

/// The error refusing a clause.
fn unserved(clause: &str) -> (e: CanonicalizeError)
    ensures
        e@ == ErrorView::Unsupported(clause@ + " is not supported"@),
{
    let mut message = chars_of(clause);
    push_str(&mut message, " is not supported");
    unsupported(&message)
}

/// Refuses the first clause the canonicalizer does not serve.
fn check_served_clauses(query: &Query, select: &Select, limit_served: bool) -> (r: Result<
    (),
    CanonicalizeError,
>)
    ensures
        match r {
            Ok(_) => unserved_clause(*query, *select, limit_served) is None,
            Err(e) => unserved_clause(*query, *select, limit_served) matches Some(clause) && e@
                == ErrorView::Unsupported(clause + " is not supported"@),
        },
{
    let deduplicating = match select.distinct {
        Some(Distinct::Distinct) | Some(Distinct::On) => true,
        _ => false,
    };
    if query.with {
        return Err(unserved("WITH"));
    }
    if deduplicating {
        return Err(unserved("DISTINCT"));
    }
    if !limit_served && query.limit_clause.is_some() {
        return Err(unserved(limit_clause_str(&query.limit_clause)));
    }
    if query.fetch {
        return Err(unserved("FETCH"));
    }
    if query.locks {
        return Err(unserved("FOR UPDATE or FOR SHARE"));
    }
    if query.for_clause {
        return Err(unserved("FOR XML or FOR JSON"));
    }
    if query.settings {
        return Err(unserved("SETTINGS"));
    }
    if query.format_clause {
        return Err(unserved("FORMAT"));
    }
    if query.pipe_operators {
        return Err(unserved("pipe operators"));
    }
    if select.optimizer_hints {
        return Err(unserved("optimizer hints"));
    }
    if select.select_modifiers {
        return Err(unserved("SELECT modifiers"));
    }
    if select.top {
        return Err(unserved("TOP"));
    }
    if select.exclude {
        return Err(unserved("EXCLUDE"));
    }
    if select.into {
        return Err(unserved("INTO"));
    }
    if select.lateral_views {
        return Err(unserved("LATERAL VIEW"));
    }
    if select.prewhere {
        return Err(unserved("PREWHERE"));
    }
    if select.connect_by {
        return Err(unserved("CONNECT BY"));
    }
    if select.cluster_by {
        return Err(unserved("CLUSTER BY"));
    }
    if select.distribute_by {
        return Err(unserved("DISTRIBUTE BY"));
    }
    if select.sort_by {
        return Err(unserved("SORT BY"));
    }
    if select.named_window {
        return Err(unserved("WINDOW"));
    }
    if select.qualify {
        return Err(unserved("QUALIFY"));
    }
    if select.value_table_mode {
        return Err(unserved("SELECT AS VALUE or SELECT AS STRUCT"));
    }
    Ok(())
}

/// The `SELECT` of a query the canonicalizer serves.
pub(crate) fn single_table_select(query: &Query, limit_served: bool) -> (r: Result<
    &Select,
    CanonicalizeError,
>)
    ensures
        match r {
            Ok(select) => served_select(*query, limit_served) == Ok::<Select, ErrorView>(*select),
            Err(e) => served_select(*query, limit_served) == Err::<Select, ErrorView>(e@),
        },
{
    let select = match &query.body {
        SetExpr::Select(select) => select,
        SetExpr::Other => return Err(unsupported_str("Set operations are not supported")),
    };
    if select.from.len() != 1 {
        return Err(unsupported_str("Exactly one table is required"));
    }
    if select.from[0].join_count != 0 {
        return Err(unsupported_str("JOINs not supported"));
    }
    if !select.from[0].relation_is_table {
        return Err(unsupported_str("Subqueries and derived tables not supported"));
    }
    check_served_clauses(query, select, limit_served)?;
    Ok(select)
}

/// The `WHERE` clause of a statement the canonicalizer serves.
fn extract_where(statement: &Statement) -> (r: Result<Option<&Expr>, CanonicalizeError>)
    ensures
        match r {
            Ok(where_expr) => where_of(*statement) == Ok::<Option<Expr>, ErrorView>(
                owned(where_expr),
            ),
            Err(e) => where_of(*statement) == Err::<Option<Expr>, ErrorView>(e@),
        },
{
    match statement {
        Statement::Query(query) => {
            let select = single_table_select(query, false)?;
            Ok(select.selection.as_ref())
        },
        Statement::Other => Err(unsupported_str("Only SELECT statements are supported")),
    }
}

/// The `WHERE` clause of the one `SELECT` the parser made of some SQL. `parsed` is the
/// parser's statements, or its error message.
pub fn where_clause_of(parsed: &Result<Vec<Statement>, String>) -> (r: Result<
    Option<&Expr>,
    CanonicalizeError,
>)
    ensures
        match r {
            Ok(where_expr) => statements_where(*parsed) == Ok::<Option<Expr>, ErrorView>(
                owned(where_expr),
            ),
            Err(e) => statements_where(*parsed) == Err::<Option<Expr>, ErrorView>(e@),
        },
{
    let statements = match parsed {
        Ok(statements) => statements,
        Err(message) => return Err(CanonicalizeError::Parse(message.clone())),
    };
    if statements.len() != 1 {
        return Err(unsupported_str("Expected exactly one SELECT statement"));
    }
    extract_where(&statements[0])
}

impl Canonicalizer {
    /// Canonical text for a `WHERE` clause, or `TRUE` for a missing one, before it is read
    /// back.
    pub fn normalize_where_clause_inner(&self, where_expr: Option<&Expr>) -> (r: Result<
        String,
        CanonicalizeError,
    >)
        ensures
            outcome(r) == where_clause_spelling(owned(where_expr), *self),
    {
        match where_expr {
            Some(expr) => {
                let text = normalize_expr_inner(expr, 0, Enclosure::Bare, self)?;
                Ok(string_of(&text))
            },
            None => Ok(String::from_str("TRUE")),
        }
    }

    /// Returns the canonical text of `where_expr` only if reading it back reproduces it
    /// character for character. `reread` is the one complete expression the parser read from
    /// `canonical` with nothing after it, or `None` where it read none.
    ///
    /// Canonical text is a hash key, so text that reads back as a different predicate would
    /// give two distinct predicates one hash. The `TRUE` of a missing clause is this crate's
    /// own mark for "no filter" rather than a predicate, so it is returned as it is.
    pub fn confirm_reads_back_as_itself(
        &self,
        where_expr: Option<&Expr>,
        canonical: String,
        reread: Option<&Expr>,
    ) -> (r: Result<String, CanonicalizeError>)
        ensures
            where_expr is None || reads_back_as(canonical@, owned(reread), *self) ==> r == Ok::<
                String,
                CanonicalizeError,
            >(canonical),
            where_expr is Some && !reads_back_as(canonical@, owned(reread), *self) ==> outcome(r)
                == Err::<Seq<char>, ErrorView>(ErrorView::NotRoundTrippable(canonical@)),
    {
        if where_expr.is_none() {
            return Ok(canonical);
        }
        let same = match reread {
            Some(expr) => match normalize_expr_inner(expr, 0, Enclosure::Bare, self) {
                Ok(again) => text_eq(&again, &chars_of(canonical.as_str())),
                Err(_) => false,
            },
            None => false,
        };
        if same {
            Ok(canonical)
        } else {
            Err(CanonicalizeError::NotRoundTrippable(canonical))
        }
    }
}

} // verus!
