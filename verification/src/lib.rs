//! Canonical predicate text and stable hashes for SQL `WHERE` clauses.
//!
//! Equivalent spellings of a predicate produce identical bytes, for durable deduplication:
//! the operands of `AND`, `OR`, `=`, `!=` and `IN` lists are sorted, names fold the way the
//! dialect folds them, and parentheses are kept exactly where the grouping needs them.
//!
//! The crate works on a parsed predicate held as plain values (`Expr`, `Statement`). The
//! canonical text is only accepted once the caller has read it back with the same dialect and
//! `Canonicalizer::confirm_reads_back_as_itself` finds it spells itself again.

mod ast;
mod context;
mod error;
mod hash;
pub mod guarantees;
pub mod laws;
mod literal;
mod names;
mod normalize;
pub mod respelling;
pub mod order;
mod sanity;
pub mod spec;
mod statement;
mod text;

pub use ast::{
    AccessExpr, BinaryOperator, CastKind, CeilFloorKind, DateTimeField, Expr,
    ExtractSyntax, Function, FunctionArg, FunctionArguments, Ident, Interval, Literal,
    LiteralKind, ObjectName, ObjectNamePart, PostfixTest, RefusedForm, UnaryOperator,
};
pub use context::{Canonicalizer, Dialect, DialectFamily, Folding, NamePlace};
pub use error::{CanonicalizeError, ErrorView};
pub use hash::hash_canonical;
pub use literal::quoting_survives_printing;
pub use names::{bare_spelling_is_faithful, is_plain_non_keyword, starts_expression_syntax};
pub use normalize::{literal_access, match_operator, normalize_expr_inner, refused};
pub use sanity::{check_sql_sanity, MAX_EXPR_DEPTH, MAX_SQL_LEN};
pub use spec::Enclosure;
pub use statement::{
    check_sql_input, where_clause_of, Distinct, LimitClause, Query, Select, SelectItem, SetExpr,
    Statement, Subquery, TableWithJoins,
};
