//! The syntax tree the canonicalizer reads: every part of a parsed predicate that decides its
//! canonical text, held as plain values.
//!
//! Parts the canonicalizer copies without reading, such as a data type, a call or a `CASE`,
//! are held as the text the parser prints for them; a subquery keeps its printed text beside
//! what of its shape decides whether a predicate may hold it.

use vstd::prelude::*;

use crate::statement::Subquery;

verus! {

/// A name as written, with the delimiter that quoted it, if one did.
#[derive(Clone, Debug, PartialEq, Eq)]
pub struct Ident {
    pub value: String,
    pub quote_style: Option<char>,
}

/// One part of a dotted object name.
#[derive(Clone, Debug, PartialEq, Eq)]
pub enum ObjectNamePart {
    /// A plain or delimited name.
    Identifier(Ident),
    /// A part computed by a function call, with its printed text.
    Computed(String),
}

/// A dotted object name, with the text the parser prints for the whole of it.
#[derive(Clone, Debug, PartialEq, Eq)]
pub struct ObjectName {
    pub parts: Vec<ObjectNamePart>,
    pub text: String,
}

/// A binary operator.
#[derive(Clone, Debug, PartialEq, Eq)]
pub enum BinaryOperator {
    And,
    Or,
    Eq,
    Spaceship,
    NotEq,
    Lt,
    LtEq,
    Gt,
    GtEq,
    Plus,
    Minus,
    Multiply,
    Divide,
    Modulo,
    /// Any other operator, with its printed text.
    Other(String),
}

/// A prefix operator.
#[derive(Clone, Debug, PartialEq, Eq)]
pub enum UnaryOperator {
    Not,
    Plus,
    Minus,
    /// Any other operator, with its printed text.
    Other(String),
}

/// A postfix truth or null test.
#[derive(Clone, Copy, Debug, PartialEq, Eq)]
pub enum PostfixTest {
    IsNull,
    IsNotNull,
    IsTrue,
    IsNotTrue,
    IsFalse,
    IsNotFalse,
    IsUnknown,
    IsNotUnknown,
}

/// What a literal is, as far as printing it back can change it.
#[derive(Clone, Debug, PartialEq, Eq)]
pub enum LiteralKind {
    /// `'...'`, with its value.
    SingleQuoted(String),
    /// `N'...'`, with its value.
    NationalString(String),
    /// `"..."` read as a string, with its value.
    DoubleQuoted(String),
    Boolean(bool),
    Null,
    /// Numbers and every other literal.
    Other,
}

/// A literal with the text the parser prints for it.
#[derive(Clone, Debug, PartialEq, Eq)]
pub struct Literal {
    pub kind: LiteralKind,
    pub text: String,
}

/// The keyword that spells a cast.
#[derive(Clone, Copy, Debug, PartialEq, Eq)]
pub enum CastKind {
    /// `CAST(x AS T)`.
    Cast,
    /// `x::T`, which is the same cast.
    DoubleColon,
    TryCast,
    SafeCast,
}

/// How an `EXTRACT` separates its field from its operand.
#[derive(Clone, Copy, Debug, PartialEq, Eq)]
pub enum ExtractSyntax {
    From,
    Comma,
}

/// What `CEIL` or `FLOOR` rounds to.
#[derive(Clone, Debug, PartialEq, Eq)]
pub enum CeilFloorKind {
    /// Neither a date part nor a scale.
    NoDateTime,
    /// A date part, with its printed text.
    DateTimeField(String),
    /// A scale, with its printed text.
    Scale(String),
}

/// A date or time field named in an interval, with its printed text.
#[derive(Clone, Debug, PartialEq, Eq)]
pub struct DateTimeField {
    pub text: String,
    /// Whether the field is `SECOND`.
    pub is_second: bool,
}

/// An interval literal.
#[derive(Debug, PartialEq, Eq)]
pub struct Interval {
    pub value: Box<Expr>,
    pub leading_field: Option<DateTimeField>,
    pub leading_precision: Option<u64>,
    pub last_field: Option<DateTimeField>,
    pub fractional_seconds_precision: Option<u64>,
}

/// One step of a field or subscript access.
#[derive(Debug, PartialEq, Eq)]
pub enum AccessExpr {
    /// `.field`.
    Dot(Expr),
    /// `[index]`.
    Index(Expr),
    /// `[lower:upper:stride]`.
    Slice { lower_bound: Option<Expr>, upper_bound: Option<Expr>, stride: Option<Expr> },
}

/// One argument of a call.
#[derive(Clone, Copy, Debug, PartialEq, Eq)]
pub enum FunctionArg {
    /// An unnamed expression.
    Expr,
    /// A named argument, a wildcard, or any other form.
    Other,
}

/// The arguments of a call.
#[derive(Clone, Debug, PartialEq, Eq)]
pub enum FunctionArguments {
    /// No parentheses at all.
    NoParentheses,
    /// A subquery in place of an argument list.
    Subquery,
    /// A list, with whether it starts with `DISTINCT` or `ALL` and whether clauses such as
    /// `ORDER BY` or `LIMIT` follow the arguments.
    List { has_duplicate_treatment: bool, has_clauses: bool, args: Vec<FunctionArg> },
}

/// A call, with the text the parser prints for it.
#[derive(Clone, Debug, PartialEq, Eq)]
pub struct Function {
    pub name: ObjectName,
    /// Whether it is written in ODBC braces, `{fn ...}`.
    pub uses_odbc_syntax: bool,
    /// Whether a parameter list precedes the arguments, as in ClickHouse.
    pub has_parameters: bool,
    pub args: FunctionArguments,
    /// Whether it has a `FILTER (WHERE ...)`.
    pub has_filter: bool,
    /// Whether it has `IGNORE NULLS` or `RESPECT NULLS`.
    pub has_null_treatment: bool,
    /// Whether it has an `OVER` window.
    pub has_over: bool,
    /// Whether it has `WITHIN GROUP (ORDER BY ...)`.
    pub has_within_group: bool,
    pub text: String,
}

/// An expression form no `WHERE` clause of a served query can hold.
#[derive(Clone, Copy, Debug, PartialEq, Eq)]
pub enum RefusedForm {
    InUnnest,
    Struct,
    Named,
    Dictionary,
    MapLiteral,
    Lambda,
    OuterJoin,
    Prior,
    GroupingSet,
    Wildcard,
}

/// An expression.
#[derive(Debug, PartialEq, Eq)]
pub enum Expr {
    Identifier(Ident),
    CompoundIdentifier(Vec<Ident>),
    CompoundFieldAccess { root: Box<Expr>, access_chain: Vec<AccessExpr> },
    /// A JSON path access such as `a:b`.
    JsonAccess,
    Postfix { operand: Box<Expr>, test: PostfixTest },
    IsDistinctFrom(Box<Expr>, Box<Expr>),
    IsNotDistinctFrom(Box<Expr>, Box<Expr>),
    IsJson { expr: Box<Expr>, kind: Option<String>, unique_keys: Option<String>, negated: bool },
    IsNormalized { expr: Box<Expr>, form: Option<String>, negated: bool },
    InList { expr: Box<Expr>, list: Vec<Expr>, negated: bool },
    /// `expr IN (subquery)`.
    InSubquery { expr: Box<Expr>, subquery: Box<Subquery>, negated: bool },
    Between { expr: Box<Expr>, negated: bool, low: Box<Expr>, high: Box<Expr> },
    BinaryOp { left: Box<Expr>, op: BinaryOperator, right: Box<Expr> },
    Like {
        negated: bool,
        any: bool,
        expr: Box<Expr>,
        pattern: Box<Expr>,
        escape_char: Option<Box<Expr>>,
    },
    ILike {
        negated: bool,
        any: bool,
        expr: Box<Expr>,
        pattern: Box<Expr>,
        escape_char: Option<Box<Expr>>,
    },
    SimilarTo { negated: bool, expr: Box<Expr>, pattern: Box<Expr>, escape_char: Option<Box<Expr>> },
    /// `RLIKE`, or `REGEXP` where `regexp` is set.
    RLike { negated: bool, expr: Box<Expr>, pattern: Box<Expr>, regexp: bool },
    /// `left op ANY(right)`, also written `SOME`.
    AnyOp { left: Box<Expr>, compare_op: BinaryOperator, right: Box<Expr> },
    AllOp { left: Box<Expr>, compare_op: BinaryOperator, right: Box<Expr> },
    UnaryOp { op: UnaryOperator, expr: Box<Expr> },
    /// `CONVERT`, with its target type and character set printed, whether the type comes
    /// first, and whether it carries styles, as SQL Server writes it.
    Convert {
        is_try: bool,
        expr: Box<Expr>,
        data_type: Option<String>,
        charset: Option<String>,
        target_before_value: bool,
        has_styles: bool,
    },
    /// A cast, with its operand and type printed, and whether it carries a `FORMAT`.
    Cast { kind: CastKind, expr: String, data_type: String, has_format: bool },
    AtTimeZone { timestamp: Box<Expr>, time_zone: Box<Expr> },
    Extract { field: String, syntax: ExtractSyntax, expr: Box<Expr> },
    Ceil { expr: Box<Expr>, field: CeilFloorKind },
    Floor { expr: Box<Expr>, field: CeilFloorKind },
    Position { expr: Box<Expr>, in_expr: Box<Expr> },
    Substring {
        expr: Box<Expr>,
        substring_from: Option<Box<Expr>>,
        substring_for: Option<Box<Expr>>,
        special: bool,
        shorthand: bool,
    },
    Trim {
        trim_where: Option<String>,
        trim_what: Option<Box<Expr>>,
        expr: Box<Expr>,
        trim_characters: Option<Vec<Expr>>,
    },
    Overlay {
        expr: Box<Expr>,
        overlay_what: Box<Expr>,
        overlay_from: Box<Expr>,
        overlay_for: Option<Box<Expr>>,
    },
    /// `expr COLLATE name`, with the collation's printed name.
    Collate { expr: Box<Expr>, collation: String },
    Nested(Box<Expr>),
    Value(Literal),
    /// A prefix such as a character set introducer, with its printed text.
    Prefixed { prefix: String, value: Box<Expr> },
    /// `TYPE 'value'`, with the type printed.
    TypedString { data_type: String, value: Literal, uses_odbc_syntax: bool },
    Function(Function),
    /// A `CASE`, with its printed text.
    Case(String),
    /// `[NOT] EXISTS (subquery)`.
    Exists { subquery: Box<Subquery>, negated: bool },
    /// A scalar subquery.
    Subquery(Box<Subquery>),
    Tuple(Vec<Expr>),
    Array { named: bool, elem: Vec<Expr> },
    Interval(Interval),
    /// MySQL's `MATCH (columns) AGAINST (value modifier)`, with the modifier printed.
    MatchAgainst { columns: Vec<ObjectName>, match_value: Literal, opt_search_modifier: Option<String> },
    /// `value MEMBER OF(array)`.
    MemberOf { value: Box<Expr>, array: Box<Expr> },
    Refused(RefusedForm),
}

} // verus!
