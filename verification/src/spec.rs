//! What canonical text is: the specification the canonicalizer is proved against.

use vstd::prelude::*;

use crate::ast::{
    AccessExpr, BinaryOperator, CastKind, CeilFloorKind, Expr, ExtractSyntax, Function,
    FunctionArg, FunctionArguments, Ident, Interval, LiteralKind, ObjectName,
    ObjectNamePart, PostfixTest, RefusedForm, UnaryOperator,
};
use crate::context::{Canonicalizer, Folding, NamePlace};
use crate::error::ErrorView;
use crate::literal::literal_intact;
use crate::names::{eq_ignore_case, identifier_spelling};
use crate::sanity::MAX_EXPR_DEPTH;
use crate::statement::{served_select, SelectItem, SetExpr, Subquery};
use crate::text::{decimal, join, lex_lt, sort_texts};

verus! {

/// How an expression is placed in the text around it, which decides whether it is enclosed
/// in parentheses.
#[derive(Clone, Copy, Debug, PartialEq, Eq, Structural)]
pub enum Enclosure {
    /// Nothing can split it: a whole predicate, a delimited argument, a list item.
    Bare,
    /// An operand of an operator, enclosed unless it encloses itself.
    Operand,
    /// The operand of an `IS` test, left bare where it binds tighter than `IS` in every
    /// dialect.
    TestOperand,
    /// The pattern of `RLIKE` or `REGEXP`, left bare where it is a `BETWEEN` or `IN` test,
    /// which binds tighter in the dialects that read these operators.
    PatternOperand,
}

/// How a binary operator treats the order of its operands.
#[derive(Clone, Copy, Debug, PartialEq, Eq, Structural)]
pub enum OperandOrder {
    /// The written order is part of the meaning.
    Written,
    /// Either order is the same predicate or value.
    Sorted,
}

/// Whether the expression prints as text no neighbouring operator can split.
///
/// Names, literals, forms with delimiters of their own such as calls and `CASE`, and prefix
/// signs qualify. Every other form is enclosed in parentheses as an operand, because how
/// tightly it binds differs by dialect and its text could read back grouped another way,
/// which can give two predicates one key.
pub open spec fn encloses_itself(e: Expr) -> bool {
    match e {
        // NOT binds looser than any operator that can enclose it.
        Expr::UnaryOp { op, .. } => !(op is Not),
        Expr::Exists { negated, .. } => !negated,
        Expr::Identifier(_) | Expr::CompoundIdentifier(_) | Expr::CompoundFieldAccess { .. }
        | Expr::Value(_) | Expr::TypedString { .. } | Expr::Prefixed { .. } | Expr::Nested(_)
        | Expr::BinaryOp { .. } | Expr::IsDistinctFrom(..) | Expr::IsNotDistinctFrom(..)
        | Expr::Function(_) | Expr::Cast { .. } | Expr::Convert { .. } | Expr::Extract { .. }
        | Expr::Ceil { .. } | Expr::Floor { .. } | Expr::Position { .. } | Expr::Substring { .. }
        | Expr::Trim { .. } | Expr::Overlay { .. } | Expr::Case(_) | Expr::Subquery(_)
        | Expr::Tuple(_) | Expr::Array { .. } | Expr::MatchAgainst { .. } => true,
        Expr::Refused(form) => form is Wildcard,
        _ => false,
    }
}

/// Whether the expression is a test that binds tighter than `IS` in every dialect: a pattern
/// match, `BETWEEN` or `IN`.
pub open spec fn binds_tighter_than_is(e: Expr) -> bool {
    match e {
        Expr::Like { .. } | Expr::ILike { .. } | Expr::SimilarTo { .. } | Expr::RLike { .. }
        | Expr::Between { .. } | Expr::InList { .. } | Expr::InSubquery { .. } => true,
        _ => false,
    }
}

/// Whether the expression is a `BETWEEN` or `IN` test.
pub open spec fn is_range_test(e: Expr) -> bool {
    match e {
        Expr::Between { .. } | Expr::InList { .. } | Expr::InSubquery { .. } => true,
        _ => false,
    }
}

/// Whether the expression, placed as `enclosure` says, is written in parentheses.
pub open spec fn needs_parens(e: Expr, enclosure: Enclosure) -> bool {
    match enclosure {
        Enclosure::Bare => false,
        Enclosure::Operand => !encloses_itself(e),
        Enclosure::TestOperand => !encloses_itself(e) && !binds_tighter_than_is(e),
        Enclosure::PatternOperand => !encloses_itself(e) && !is_range_test(e),
    }
}

/// Whether the expression is a tuple or a subquery, however many parentheses enclose it,
/// which brings its own parentheses as an argument.
pub open spec fn brings_parentheses(e: Expr) -> bool
    decreases e,
{
    match e {
        Expr::Nested(inner) => brings_parentheses(*inner),
        Expr::Tuple(_) | Expr::Subquery(_) => true,
        _ => false,
    }
}

/// `a` followed by `b`, or the first error of the two.
pub open spec fn cat(a: Result<Seq<char>, ErrorView>, b: Result<Seq<char>, ErrorView>) -> Result<
    Seq<char>,
    ErrorView,
> {
    match a {
        Err(e) => Err(e),
        Ok(x) => match b {
            Err(e) => Err(e),
            Ok(y) => Ok(x + y),
        },
    }
}

/// The text in parentheses.
pub open spec fn parenthesized(t: Seq<char>) -> Seq<char> {
    "("@ + t + ")"@
}

/// `NOT ` where the test is negated.
pub open spec fn not_word(negated: bool) -> Seq<char> {
    if negated {
        "NOT "@
    } else {
        Seq::empty()
    }
}

/// The spelling of a pattern match operator, such as `NOT SIMILAR TO`.
pub open spec fn match_word(negated: bool, operator: Seq<char>) -> Seq<char> {
    if negated {
        "NOT "@ + operator
    } else {
        operator
    }
}

/// The canonical spelling of a binary operator, where it has one.
pub open spec fn operator_spelling(op: BinaryOperator) -> Result<Seq<char>, ErrorView> {
    match op {
        BinaryOperator::And => Ok("AND"@),
        BinaryOperator::Or => Ok("OR"@),
        BinaryOperator::Eq => Ok("="@),
        BinaryOperator::Spaceship => Ok("<=>"@),
        BinaryOperator::NotEq => Ok("!="@),
        BinaryOperator::Lt => Ok("<"@),
        BinaryOperator::LtEq => Ok("<="@),
        BinaryOperator::Gt => Ok(">"@),
        BinaryOperator::GtEq => Ok(">="@),
        BinaryOperator::Plus => Ok("+"@),
        BinaryOperator::Minus => Ok("-"@),
        BinaryOperator::Multiply => Ok("*"@),
        BinaryOperator::Divide => Ok("/"@),
        BinaryOperator::Modulo => Ok("%"@),
        BinaryOperator::Other(text) => Err(
            ErrorView::Unsupported("Unsupported binary operator: "@ + text@),
        ),
    }
}

/// The canonical spelling of a prefix operator, where it has one.
pub open spec fn unary_spelling(op: UnaryOperator) -> Result<Seq<char>, ErrorView> {
    match op {
        UnaryOperator::Not => Ok("NOT"@),
        UnaryOperator::Plus => Ok("+"@),
        UnaryOperator::Minus => Ok("-"@),
        UnaryOperator::Other(text) => Err(
            ErrorView::Unsupported("Unsupported unary operator: "@ + text@),
        ),
    }
}

/// How the operator treats the order of its operands: `AND`, `OR`, `=`, `!=` and `<=>` give one
/// predicate for either order. Arithmetic keeps its written order, since `+` also
/// concatenates strings in SQL Server.
pub open spec fn operand_order(op: BinaryOperator) -> OperandOrder {
    match op {
        BinaryOperator::And | BinaryOperator::Or | BinaryOperator::Eq | BinaryOperator::NotEq
        | BinaryOperator::Spaceship => OperandOrder::Sorted,
        _ => OperandOrder::Written,
    }
}

/// `(left operator right)`, with the operands in sorted order where `order` allows it.
pub open spec fn infix(
    left: Result<Seq<char>, ErrorView>,
    operator: Seq<char>,
    right: Result<Seq<char>, ErrorView>,
    order: OperandOrder,
) -> Result<Seq<char>, ErrorView> {
    match left {
        Err(e) => Err(e),
        Ok(l) => match right {
            Err(e) => Err(e),
            Ok(r) => if order == OperandOrder::Sorted && lex_lt(r, l) {
                Ok("("@ + r + " "@ + operator + " "@ + l + ")"@)
            } else {
                Ok("("@ + l + " "@ + operator + " "@ + r + ")"@)
            },
        },
    }
}

/// The suffix of a postfix test.
pub open spec fn postfix_suffix(test: PostfixTest) -> Seq<char> {
    match test {
        PostfixTest::IsNull => "IS NULL"@,
        PostfixTest::IsNotNull => "IS NOT NULL"@,
        PostfixTest::IsTrue => "IS TRUE"@,
        PostfixTest::IsNotTrue => "IS NOT TRUE"@,
        PostfixTest::IsFalse => "IS FALSE"@,
        PostfixTest::IsNotFalse => "IS NOT FALSE"@,
        PostfixTest::IsUnknown => "IS UNKNOWN"@,
        PostfixTest::IsNotUnknown => "IS NOT UNKNOWN"@,
    }
}

/// The suffix of `IS [NOT] JSON [kind] [unique keys]`.
pub open spec fn json_suffix(kind: Option<String>, unique_keys: Option<String>, negated: bool) -> Seq<
    char,
> {
    "IS "@ + not_word(negated) + "JSON"@ + match kind {
        Some(k) => " "@ + k@,
        None => Seq::empty(),
    } + match unique_keys {
        Some(u) => " "@ + u@,
        None => Seq::empty(),
    }
}

/// The suffix of `IS [NOT] [form] NORMALIZED`.
pub open spec fn normalized_suffix(form: Option<String>, negated: bool) -> Seq<char> {
    match form {
        Some(f) => "IS "@ + not_word(negated) + f@ + " NORMALIZED"@,
        None => "IS "@ + not_word(negated) + "NORMALIZED"@,
    }
}

/// The keyword that spells a cast.
pub open spec fn cast_word(kind: CastKind) -> Seq<char> {
    match kind {
        CastKind::Cast | CastKind::DoubleColon => "CAST"@,
        CastKind::TryCast => "TRY_CAST"@,
        CastKind::SafeCast => "SAFE_CAST"@,
    }
}

/// The target of a `CONVERT`, after its operand.
pub open spec fn convert_target(data_type: Option<String>, charset: Option<String>) -> Result<
    Seq<char>,
    ErrorView,
> {
    match (data_type, charset) {
        (Some(d), Some(c)) => Ok(", "@ + d@ + " CHARACTER SET "@ + c@),
        (Some(d), None) => Ok(", "@ + d@),
        (None, Some(c)) => Ok(" USING "@ + c@),
        (None, None) => Err(ErrorView::Unsupported("CONVERT without a target is not supported"@)),
    }
}

/// `CEIL` or `FLOOR` with its optional date part or scale.
pub open spec fn rounding(name: Seq<char>, operand: Result<Seq<char>, ErrorView>, field: CeilFloorKind) -> Result<
    Seq<char>,
    ErrorView,
> {
    match operand {
        Err(e) => Err(e),
        Ok(x) => Ok(
            match field {
                CeilFloorKind::NoDateTime => name + "("@ + x + ")"@,
                CeilFloorKind::DateTimeField(f) => name + "("@ + x + " TO "@ + f@ + ")"@,
                CeilFloorKind::Scale(s) => name + "("@ + x + ", "@ + s@ + ")"@,
            },
        ),
    }
}

/// The message that refuses an expression form.
pub open spec fn refused_message(form: Seq<char>) -> Seq<char> {
    form + " is not supported in a predicate"@
}

/// How the refusal of a form names it.
pub open spec fn refused_form_name(form: RefusedForm) -> Seq<char> {
    match form {
        RefusedForm::InUnnest => "IN UNNEST"@,
        RefusedForm::Struct => "STRUCT"@,
        RefusedForm::Named => "a named expression"@,
        RefusedForm::Dictionary => "a dictionary literal"@,
        RefusedForm::MapLiteral => "a map literal"@,
        RefusedForm::Lambda => "a lambda"@,
        RefusedForm::OuterJoin => "the (+) outer join marker"@,
        RefusedForm::Prior => "PRIOR"@,
        RefusedForm::GroupingSet => "a grouping set"@,
        RefusedForm::Wildcard => "a wildcard"@,
    }
}

/// The message for a field access on a literal or naming a field by one.
pub open spec fn literal_access_message() -> Seq<char> {
    "A field access on a literal is not supported"@
}

/// A literal's printed text, unless printing would change it.
pub open spec fn literal_spelling(kind: LiteralKind, text: Seq<char>) -> Result<Seq<char>, ErrorView> {
    if literal_intact(kind) {
        Ok(text)
    } else {
        Err(ErrorView::NotRoundTrippable("string literal"@))
    }
}

/// The folding of the part at `index` of a dotted name of `total` parts: the last part folds
/// as a column, the others as qualifiers, and a function name keeps its spelling.
pub open spec fn part_folding(index: int, total: int, place: NamePlace, context: Canonicalizer) -> Folding {
    if place == NamePlace::Function {
        Folding::Exact
    } else if index == total - 1 {
        context.folding
    } else {
        context.qualifier_folding
    }
}

/// The spellings of the first `parts.len()` parts of a dotted name of `total` parts.
pub open spec fn part_spellings(
    parts: Seq<Ident>,
    total: int,
    place: NamePlace,
    context: Canonicalizer,
) -> Result<Seq<Seq<char>>, ErrorView>
    decreases parts.len(),
{
    if parts.len() == 0 {
        Ok(Seq::empty())
    } else {
        match part_spellings(parts.drop_last(), total, place, context) {
            Err(e) => Err(e),
            Ok(prefix) => match identifier_spelling(
                parts.last().value@,
                parts.last().quote_style,
                part_folding(parts.len() - 1, total, place, context),
                place,
                context.identifier_quote,
            ) {
                Err(e) => Err(e),
                Ok(t) => Ok(prefix.push(t)),
            },
        }
    }
}

/// A dotted name, folding the last part as a column and the others as qualifiers.
pub open spec fn qualified_spelling(parts: Seq<Ident>, place: NamePlace, context: Canonicalizer) -> Result<
    Seq<char>,
    ErrorView,
> {
    match part_spellings(parts, parts.len() as int, place, context) {
        Err(e) => Err(e),
        Ok(texts) => Ok(join(texts, "."@)),
    }
}

/// The text of the first part of the name that a function computes, if one does.
pub open spec fn first_computed_part(parts: Seq<ObjectNamePart>) -> Option<Seq<char>>
    decreases parts.len(),
{
    if parts.len() == 0 {
        None
    } else {
        match parts[0] {
            ObjectNamePart::Computed(text) => Some(text@),
            ObjectNamePart::Identifier(_) => first_computed_part(parts.drop_first()),
        }
    }
}

/// The identifiers of a name none of whose parts is computed.
pub open spec fn identifier_parts(parts: Seq<ObjectNamePart>) -> Seq<Ident> {
    Seq::new(
        parts.len(),
        |i: int|
            match parts[i] {
                ObjectNamePart::Identifier(id) => id,
                ObjectNamePart::Computed(_) => Ident { value: arbitrary(), quote_style: None },
            },
    )
}

/// An object name, refusing a part computed by a function.
pub open spec fn object_name_spelling(name: ObjectName, place: NamePlace, context: Canonicalizer) -> Result<
    Seq<char>,
    ErrorView,
> {
    match first_computed_part(name.parts@) {
        Some(text) => Err(ErrorView::Unsupported("Computed name part: "@ + text)),
        None => qualified_spelling(identifier_parts(name.parts@), place, context),
    }
}

/// The spellings of MATCH columns.
pub open spec fn column_spellings(columns: Seq<ObjectName>, context: Canonicalizer) -> Result<
    Seq<Seq<char>>,
    ErrorView,
>
    decreases columns.len(),
{
    if columns.len() == 0 {
        Ok(Seq::empty())
    } else {
        match column_spellings(columns.drop_last(), context) {
            Err(e) => Err(e),
            Ok(prefix) => match object_name_spelling(columns.last(), NamePlace::Operand, context) {
                Err(e) => Err(e),
                Ok(t) => Ok(prefix.push(t)),
            },
        }
    }
}

/// Whether the call's name is a bare `ANY`, `SOME` or `ALL`, which reads back as a quantifier.
pub open spec fn quantifier_name(name: ObjectName) -> bool {
    name.parts@.len() == 1 && match name.parts@[0] {
        ObjectNamePart::Identifier(id) => id.quote_style is None && (eq_ignore_case(
            "ANY"@,
            id.value@,
        ) || eq_ignore_case("SOME"@, id.value@) || eq_ignore_case("ALL"@, id.value@)),
        ObjectNamePart::Computed(_) => false,
    }
}

/// The message refusing a call that is not a plain function call.
pub open spec fn call_refusal(name: ObjectName) -> ErrorView {
    ErrorView::Unsupported("Call to "@ + name.text@ + " is not a plain function call"@)
}

/// `Some` folded into the text with its separator, or nothing.
pub open spec fn optional_text(separator: Seq<char>, text: Option<String>) -> Seq<char> {
    match text {
        Some(t) => separator + t@,
        None => Seq::empty(),
    }
}

/// A precision in the text with its delimiters, or nothing.
pub open spec fn optional_precision(precision: Option<u64>) -> Seq<char> {
    match precision {
        Some(p) => " ("@ + decimal(p as nat) + ")"@,
        None => Seq::empty(),
    }
}

/// A date or time field in the text after `separator`, or nothing.
pub open spec fn optional_field(separator: Seq<char>, field: Option<crate::ast::DateTimeField>) -> Seq<
    char,
> {
    match field {
        Some(f) => separator + f.text@,
        None => Seq::empty(),
    }
}

/// The depth beyond which the canonicalizer refuses to walk.
pub open spec fn too_deep(depth: int) -> bool {
    depth > MAX_EXPR_DEPTH as int
}

/// The canonical text of an expression at `depth` levels of nesting, placed as `enclosure`
/// says.
pub open spec fn canon(e: Expr, depth: int, enclosure: Enclosure, context: Canonicalizer) -> Result<
    Seq<char>,
    ErrorView,
>
    decreases e, 2int,
{
    if too_deep(depth) {
        Err(ErrorView::TooDeep(MAX_EXPR_DEPTH))
    } else {
        match canon_body(e, depth, enclosure, context) {
            Err(x) => Err(x),
            Ok(t) => Ok(
                if needs_parens(e, enclosure) {
                    parenthesized(t)
                } else {
                    t
                },
            ),
        }
    }
}

/// The canonical text of an expression before any enclosing parentheses.
pub open spec fn canon_body(e: Expr, depth: int, enclosure: Enclosure, context: Canonicalizer) -> Result<
    Seq<char>,
    ErrorView,
>
    decreases e, 1int,
{
    let d = depth + 1;
    match e {
        Expr::BinaryOp { left, op, right } => match op {
            BinaryOperator::And | BinaryOperator::Or => {
                let conjunction = op is And;
                match chain_texts(*left, conjunction, depth, context) {
                    Err(x) => Err(x),
                    Ok(a) => match chain_texts(*right, conjunction, depth, context) {
                        Err(x) => Err(x),
                        Ok(b) => Ok(
                            fold_chain(
                                sort_texts(a + b),
                                if conjunction {
                                    "AND"@
                                } else {
                                    "OR"@
                                },
                            ),
                        ),
                    },
                }
            },
            _ => match operator_spelling(op) {
                Err(x) => Err(x),
                Ok(o) => infix(
                    canon(*left, d, Enclosure::Operand, context),
                    o,
                    canon(*right, d, Enclosure::Operand, context),
                    operand_order(op),
                ),
            },
        },
        Expr::IsDistinctFrom(left, right) => infix(
            canon(*left, d, Enclosure::Operand, context),
            "IS DISTINCT FROM"@,
            canon(*right, d, Enclosure::Operand, context),
            OperandOrder::Sorted,
        ),
        Expr::IsNotDistinctFrom(left, right) => infix(
            canon(*left, d, Enclosure::Operand, context),
            "IS NOT DISTINCT FROM"@,
            canon(*right, d, Enclosure::Operand, context),
            OperandOrder::Sorted,
        ),
        Expr::UnaryOp { op, expr } => match unary_spelling(op) {
            Err(x) => Err(x),
            Ok(o) => cat(Ok(o + " "@), canon(*expr, d, Enclosure::Operand, context)),
        },
        Expr::Postfix { operand, test } => cat(
            canon(*operand, d, Enclosure::TestOperand, context),
            Ok(" "@ + postfix_suffix(test)),
        ),
        Expr::IsJson { expr, kind, unique_keys, negated } => cat(
            canon(*expr, d, Enclosure::TestOperand, context),
            Ok(" "@ + json_suffix(kind, unique_keys, negated)),
        ),
        Expr::IsNormalized { expr, form, negated } => cat(
            canon(*expr, d, Enclosure::TestOperand, context),
            Ok(" "@ + normalized_suffix(form, negated)),
        ),
        Expr::InList { expr, list, negated } => match canon_list(
            list@,
            d,
            Enclosure::Operand,
            context,
        ) {
            Err(x) => Err(x),
            Ok(items) => cat(
                canon(*expr, d, Enclosure::Operand, context),
                Ok(" "@ + not_word(negated) + "IN ("@ + join(sort_texts(items), ", "@) + ")"@),
            ),
        },
        Expr::InSubquery { expr, subquery, negated } => cat(
            canon(*expr, d, Enclosure::Operand, context),
            cat(
                cat(Ok(" "@ + not_word(negated) + "IN ("@), subquery_spelling(*subquery, d, context)),
                Ok(")"@),
            ),
        ),
        Expr::Exists { subquery, negated } => cat(
            cat(Ok(not_word(negated) + "EXISTS ("@), subquery_spelling(*subquery, d, context)),
            Ok(")"@),
        ),
        Expr::Subquery(subquery) => match subquery_spelling(*subquery, d, context) {
            Err(x) => Err(x),
            Ok(t) => Ok(parenthesized(t)),
        },
        Expr::Between { expr, negated, low, high } => cat(
            cat(
                cat(
                    canon(*expr, d, Enclosure::Operand, context),
                    Ok(" "@ + not_word(negated) + "BETWEEN "@),
                ),
                canon(*low, d, Enclosure::Operand, context),
            ),
            cat(Ok(" AND "@), canon(*high, d, Enclosure::Operand, context)),
        ),
        Expr::Like { negated, any, expr, pattern, escape_char } => cat(
            cat(
                cat(
                    canon(*expr, d, Enclosure::Operand, context),
                    Ok(" "@ + match_word(negated, "LIKE"@) + " "@),
                ),
                if any {
                    cat(Ok("ANY "@), argument_spelling(*pattern, depth, context))
                } else {
                    canon(*pattern, d, Enclosure::Operand, context)
                },
            ),
            escape_spelling(escape_char, depth, context),
        ),
        Expr::ILike { negated, any, expr, pattern, escape_char } => cat(
            cat(
                cat(
                    canon(*expr, d, Enclosure::Operand, context),
                    Ok(" "@ + match_word(negated, "ILIKE"@) + " "@),
                ),
                if any {
                    cat(Ok("ANY "@), argument_spelling(*pattern, depth, context))
                } else {
                    canon(*pattern, d, Enclosure::Operand, context)
                },
            ),
            escape_spelling(escape_char, depth, context),
        ),
        Expr::SimilarTo { negated, expr, pattern, escape_char } => cat(
            cat(
                cat(
                    canon(*expr, d, Enclosure::Operand, context),
                    Ok(" "@ + match_word(negated, "SIMILAR TO"@) + " "@),
                ),
                canon(*pattern, d, Enclosure::Operand, context),
            ),
            escape_spelling(escape_char, depth, context),
        ),
        Expr::RLike { negated, expr, pattern, regexp } => cat(
            cat(
                canon(*expr, d, Enclosure::Operand, context),
                Ok(
                    " "@ + match_word(
                        negated,
                        if regexp {
                            "REGEXP"@
                        } else {
                            "RLIKE"@
                        },
                    ) + " "@,
                ),
            ),
            canon(*pattern, d, Enclosure::PatternOperand, context),
        ),
        Expr::AnyOp { left, compare_op, right } => cat(
            cat(cat(canon(*left, d, Enclosure::Operand, context), Ok(" "@)), operator_spelling(compare_op)),
            cat(Ok(" ANY"@), argument_spelling(*right, depth, context)),
        ),
        Expr::AllOp { left, compare_op, right } => cat(
            cat(cat(canon(*left, d, Enclosure::Operand, context), Ok(" "@)), operator_spelling(compare_op)),
            cat(Ok(" ALL"@), argument_spelling(*right, depth, context)),
        ),
        Expr::MemberOf { value, array } => cat(
            cat(canon(*value, d, Enclosure::Operand, context), Ok(" MEMBER OF("@)),
            cat(canon(*array, d, Enclosure::Bare, context), Ok(")"@)),
        ),
        Expr::AtTimeZone { timestamp, time_zone } => cat(
            cat(canon(*timestamp, d, Enclosure::Operand, context), Ok(" AT TIME ZONE "@)),
            canon(*time_zone, d, Enclosure::Operand, context),
        ),
        // A collation name is kept as written, because whether it is case sensitive differs
        // by dialect and by server.
        Expr::Collate { expr, collation } => cat(
            canon(*expr, d, Enclosure::Operand, context),
            Ok(" COLLATE "@ + collation@),
        ),
        Expr::MatchAgainst { columns, match_value, opt_search_modifier } => match column_spellings(
            columns@,
            context,
        ) {
            Err(x) => Err(x),
            Ok(names) => match literal_spelling(match_value.kind, match_value.text@) {
                Err(x) => Err(x),
                Ok(value) => Ok(
                    "MATCH ("@ + join(names, ", "@) + ") AGAINST ("@ + value + optional_text(
                        " "@,
                        opt_search_modifier,
                    ) + ")"@,
                ),
            },
        },
        Expr::Nested(inner) => canon(*inner, d, enclosure, context),
        Expr::Identifier(id) => identifier_spelling(
            id.value@,
            id.quote_style,
            context.folding,
            NamePlace::Operand,
            context.identifier_quote,
        ),
        Expr::CompoundIdentifier(parts) => qualified_spelling(parts@, NamePlace::Operand, context),
        Expr::Value(v) => literal_spelling(v.kind, v.text@),
        Expr::JsonAccess => Err(ErrorView::Unsupported("JSON path access is not supported"@)),
        Expr::Function(f) => function_spelling(f),
        // `x::T` and `CAST(x AS T)` are one cast, and every dialect reads the `CAST` spelling.
        Expr::Cast { kind, expr, data_type, has_format } => if has_format {
            Err(ErrorView::Unsupported("CAST with FORMAT is not supported"@))
        } else {
            Ok(cast_word(kind) + "("@ + expr@ + " AS "@ + data_type@ + ")"@)
        },
        // The SQL Server form puts the type first and takes styles.
        Expr::Convert { is_try, expr, data_type, charset, target_before_value, has_styles } => {
            if target_before_value || has_styles {
                Err(ErrorView::Unsupported("CONVERT with the type first is not supported"@))
            } else {
                match convert_target(data_type, charset) {
                    Err(x) => Err(x),
                    Ok(target) => cat(
                        cat(
                            Ok(
                                if is_try {
                                    "TRY_CONVERT("@
                                } else {
                                    "CONVERT("@
                                },
                            ),
                            canon(*expr, d, Enclosure::Bare, context),
                        ),
                        Ok(target + ")"@),
                    ),
                }
            }
        },
        Expr::Extract { field, syntax, expr } => match canon(*expr, d, Enclosure::Bare, context) {
            Err(x) => Err(x),
            Ok(x) => Ok(
                match syntax {
                    ExtractSyntax::From => "EXTRACT("@ + field@ + " FROM "@ + x + ")"@,
                    ExtractSyntax::Comma => "EXTRACT("@ + field@ + ", "@ + x + ")"@,
                },
            ),
        },
        Expr::Ceil { expr, field } => rounding(
            "CEIL"@,
            canon(*expr, d, Enclosure::Bare, context),
            field,
        ),
        Expr::Floor { expr, field } => rounding(
            "FLOOR"@,
            canon(*expr, d, Enclosure::Bare, context),
            field,
        ),
        // `IN` could continue the first operand, so it is enclosed like any operand.
        Expr::Position { expr, in_expr } => cat(
            cat(Ok("POSITION("@), canon(*expr, d, Enclosure::Operand, context)),
            cat(cat(Ok(" IN "@), canon(*in_expr, d, Enclosure::Bare, context)), Ok(")"@)),
        ),
        Expr::Substring { expr, substring_from, substring_for, special, shorthand } => cat(
            cat(
                cat(
                    Ok(
                        if shorthand {
                            "SUBSTR("@
                        } else {
                            "SUBSTRING("@
                        },
                    ),
                    canon(*expr, d, Enclosure::Bare, context),
                ),
                cat(
                    optional_spelling(
                        if special {
                            ", "@
                        } else {
                            " FROM "@
                        },
                        substring_from,
                        depth,
                        context,
                    ),
                    optional_spelling(
                        if special {
                            ", "@
                        } else {
                            " FOR "@
                        },
                        substring_for,
                        depth,
                        context,
                    ),
                ),
            ),
            Ok(")"@),
        ),
        Expr::Trim { trim_where, trim_what, expr, trim_characters } => cat(
            cat(
                cat(
                    Ok(
                        "TRIM("@ + match trim_where {
                            Some(w) => w@ + " "@,
                            None => Seq::empty(),
                        },
                    ),
                    trim_what_spelling(trim_what, depth, context),
                ),
                canon(*expr, d, Enclosure::Bare, context),
            ),
            cat(
                match trim_characters {
                    Some(items) => match canon_list(items@, d, Enclosure::Bare, context) {
                        Err(x) => Err(x),
                        Ok(texts) => Ok(", "@ + join(texts, ", "@)),
                    },
                    None => Ok(Seq::empty()),
                },
                Ok(")"@),
            ),
        ),
        Expr::Overlay { expr, overlay_what, overlay_from, overlay_for } => cat(
            cat(
                cat(
                    cat(
                        cat(
                            cat(Ok("OVERLAY("@), canon(*expr, d, Enclosure::Bare, context)),
                            Ok(" PLACING "@),
                        ),
                        canon(*overlay_what, d, Enclosure::Bare, context),
                    ),
                    Ok(" FROM "@),
                ),
                canon(*overlay_from, d, Enclosure::Bare, context),
            ),
            cat(optional_spelling(" FOR "@, overlay_for, depth, context), Ok(")"@)),
        ),
        Expr::Case(text) => Ok(text@),
        Expr::Tuple(items) => match canon_list(items@, d, Enclosure::Bare, context) {
            Err(x) => Err(x),
            Ok(texts) => Ok(parenthesized(join(texts, ", "@))),
        },
        Expr::Array { named, elem } => match canon_list(elem@, d, Enclosure::Bare, context) {
            Err(x) => Err(x),
            Ok(texts) => Ok(
                (if named {
                    "ARRAY["@
                } else {
                    "["@
                }) + join(texts, ", "@) + "]"@,
            ),
        },
        Expr::Interval(interval) => interval_spelling(interval, depth, context),
        Expr::TypedString { data_type, value, uses_odbc_syntax } => if uses_odbc_syntax {
            Err(ErrorView::Unsupported("ODBC escape literals are not supported"@))
        } else {
            match literal_spelling(value.kind, value.text@) {
                Err(x) => Err(x),
                Ok(v) => Ok(data_type@ + " "@ + v),
            }
        },
        Expr::Prefixed { prefix, value } => cat(
            Ok(prefix@ + " "@),
            canon(*value, d, Enclosure::Operand, context),
        ),
        Expr::CompoundFieldAccess { root, access_chain } => cat(
            root_spelling(*root, depth, context),
            access_spellings(access_chain@, depth, context),
        ),
        Expr::Refused(form) => Err(ErrorView::Unsupported(refused_message(refused_form_name(form)))),
    }
}

/// The canonical texts of the operands of an `AND` chain (`conjunction`) or an `OR` chain,
/// looking through parentheses and operators of the same kind.
pub open spec fn chain_texts(e: Expr, conjunction: bool, depth: int, context: Canonicalizer) -> Result<
    Seq<Seq<char>>,
    ErrorView,
>
    decreases e, 3int,
{
    match e {
        Expr::Nested(inner) => chain_texts(*inner, conjunction, depth, context),
        Expr::BinaryOp { left, op, right } => if (conjunction && op is And) || (!conjunction
            && op is Or) {
            match chain_texts(*left, conjunction, depth, context) {
                Err(x) => Err(x),
                Ok(a) => match chain_texts(*right, conjunction, depth, context) {
                    Err(x) => Err(x),
                    Ok(b) => Ok(a + b),
                },
            }
        } else {
            match canon(e, depth + 1, Enclosure::Bare, context) {
                Err(x) => Err(x),
                Ok(t) => Ok(seq![t]),
            }
        },
        _ => match canon(e, depth + 1, Enclosure::Bare, context) {
            Err(x) => Err(x),
            Ok(t) => Ok(seq![t]),
        },
    }
}

/// The sorted operands of a chain, each pair grouped from the left: `((a op b) op c)`.
pub open spec fn fold_chain(parts: Seq<Seq<char>>, operator: Seq<char>) -> Seq<char>
    decreases parts.len(),
{
    if parts.len() == 0 {
        Seq::empty()
    } else if parts.len() == 1 {
        parts[0]
    } else {
        "("@ + fold_chain(parts.drop_last(), operator) + " "@ + operator + " "@ + parts.last()
            + ")"@
    }
}

/// The canonical texts of a list of expressions, each at `depth` and placed as `enclosure`
/// says, or the first error among them.
pub open spec fn canon_list(
    items: Seq<Expr>,
    depth: int,
    enclosure: Enclosure,
    context: Canonicalizer,
) -> Result<Seq<Seq<char>>, ErrorView>
    decreases items, 3int,
{
    if items.len() == 0 {
        Ok(Seq::empty())
    } else {
        match canon_list(items.drop_last(), depth, enclosure, context) {
            Err(x) => Err(x),
            Ok(prefix) => match canon(items.last(), depth, enclosure, context) {
                Err(x) => Err(x),
                Ok(t) => Ok(prefix.push(t)),
            },
        }
    }
}

/// The refusal of a part of a subquery.
pub open spec fn subquery_refusal(part: Seq<char>) -> ErrorView {
    ErrorView::Unsupported(part + " in a subquery is not supported"@)
}

/// Checks the items of a subquery's `SELECT` list in order: an expression must have canonical
/// text, a wildcard must carry no options, and no item may have an alias.
pub open spec fn projection_check(items: Seq<SelectItem>, depth: int, context: Canonicalizer) -> Result<
    (),
    ErrorView,
>
    decreases items, 3int,
{
    if items.len() == 0 {
        Ok(())
    } else {
        match projection_check(items.drop_last(), depth, context) {
            Err(x) => Err(x),
            Ok(_) => match items.last() {
                SelectItem::Expr(e) => match canon(e, depth, Enclosure::Bare, context) {
                    Err(x) => Err(x),
                    Ok(_) => Ok(()),
                },
                SelectItem::Wildcard => Ok(()),
                SelectItem::Other => Err(subquery_refusal("an alias or qualified wildcard"@)),
            },
        }
    }
}

/// Checks the parts of a subquery's table name in order: each must be a name with a spelling
/// under the dialect's qualifier folding, not a computed part.
pub open spec fn table_name_check(parts: Seq<ObjectNamePart>, context: Canonicalizer) -> Result<
    (),
    ErrorView,
>
    decreases parts.len(),
{
    if parts.len() == 0 {
        Ok(())
    } else {
        match table_name_check(parts.drop_last(), context) {
            Err(x) => Err(x),
            Ok(_) => match parts.last() {
                ObjectNamePart::Identifier(id) => match identifier_spelling(
                    id.value@,
                    id.quote_style,
                    context.qualifier_folding,
                    NamePlace::Operand,
                    context.identifier_quote,
                ) {
                    Err(x) => Err(x),
                    Ok(_) => Ok(()),
                },
                ObjectNamePart::Computed(_) => Err(subquery_refusal("a computed table name"@)),
            },
        }
    }
}

/// A subquery as the parser prints it, where it has the shape a predicate may hold:
/// `SELECT items FROM table [WHERE filter]`, with no clause that changes which rows the
/// outer predicate sees besides a limit, no table alias, option or hint, and every item and
/// the filter with canonical text at `depth`. Otherwise the first refusal, in that order.
pub open spec fn subquery_spelling(sub: Subquery, depth: int, context: Canonicalizer) -> Result<
    Seq<char>,
    ErrorView,
>
    decreases sub, 3int,
{
    match served_select(sub.query, true) {
        Err(x) => Err(x),
        Ok(_) => if sub.order_by {
            Err(subquery_refusal("ORDER BY"@))
        } else if sub.group_by {
            Err(subquery_refusal("GROUP BY"@))
        } else if sub.having {
            Err(subquery_refusal("HAVING"@))
        } else if sub.table_options {
            Err(subquery_refusal("a table alias or table option"@))
        } else if sub.table_hints {
            Err(subquery_refusal("a table hint"@))
        } else {
            match projection_check(sub.projection@, depth, context) {
                Err(x) => Err(x),
                Ok(_) => match table_name_check(sub.table_name.parts@, context) {
                    Err(x) => Err(x),
                    Ok(_) => match sub.query.body {
                        SetExpr::Select(select) => match select.selection {
                            Some(filter) => match canon(filter, depth, Enclosure::Bare, context) {
                                Err(x) => Err(x),
                                Ok(_) => Ok(sub.text@),
                            },
                            None => Ok(sub.text@),
                        },
                        SetExpr::Other => Ok(sub.text@),
                    },
                },
            }
        },
    }
}

/// The parenthesized argument of `ANY`, `ALL` or `LIKE ANY`. A tuple or a subquery brings its
/// own parentheses, so however many enclose it in the input, it gets one pair.
pub open spec fn argument_spelling(argument: Expr, depth: int, context: Canonicalizer) -> Result<
    Seq<char>,
    ErrorView,
>
    decreases argument, 3int,
{
    match canon(argument, depth + 1, Enclosure::Bare, context) {
        Err(x) => Err(x),
        Ok(t) => Ok(
            if brings_parentheses(argument) {
                t
            } else {
                parenthesized(t)
            },
        ),
    }
}

/// ` ESCAPE e`, or nothing.
pub open spec fn escape_spelling(escape: Option<Box<Expr>>, depth: int, context: Canonicalizer) -> Result<
    Seq<char>,
    ErrorView,
>
    decreases escape, 3int,
{
    match escape {
        Some(x) => cat(Ok(" ESCAPE "@), canon(*x, depth + 1, Enclosure::Operand, context)),
        None => Ok(Seq::empty()),
    }
}

/// `separator e`, or nothing.
pub open spec fn optional_spelling(
    separator: Seq<char>,
    part: Option<Box<Expr>>,
    depth: int,
    context: Canonicalizer,
) -> Result<Seq<char>, ErrorView>
    decreases part, 3int,
{
    match part {
        Some(x) => cat(Ok(separator), canon(*x, depth + 1, Enclosure::Bare, context)),
        None => Ok(Seq::empty()),
    }
}

/// `what FROM `, or nothing.
pub open spec fn trim_what_spelling(what: Option<Box<Expr>>, depth: int, context: Canonicalizer) -> Result<
    Seq<char>,
    ErrorView,
>
    decreases what, 3int,
{
    match what {
        Some(x) => cat(canon(*x, depth + 1, Enclosure::Bare, context), Ok(" FROM "@)),
        None => Ok(Seq::empty()),
    }
}

/// Whether every argument is an unnamed expression.
pub open spec fn unnamed_arguments(args: Seq<FunctionArg>) -> bool {
    forall|i: int| 0 <= i < args.len() ==> args[i] is Expr
}

/// Whether the call has none of the ODBC braces, parameters, `FILTER`, null treatment,
/// `OVER` or `WITHIN GROUP` that make it an aggregate or window call.
pub open spec fn plain_call(f: Function) -> bool {
    !f.uses_odbc_syntax && !f.has_parameters && !f.has_filter && !f.has_null_treatment
        && !f.has_over && !f.has_within_group
}

/// A plain call as the parser prints it, refusing the aggregate and window forms no `WHERE`
/// clause can hold.
pub open spec fn function_spelling(f: Function) -> Result<Seq<char>, ErrorView> {
    if quantifier_name(f.name) {
        Err(
            ErrorView::Unsupported(
                "Function named "@ + f.name.text@ + " reads back as a quantifier"@,
            ),
        )
    } else if !plain_call(f) {
        Err(call_refusal(f.name))
    } else {
        match f.args {
            FunctionArguments::NoParentheses => Ok(f.text@),
            FunctionArguments::Subquery => Err(call_refusal(f.name)),
            FunctionArguments::List { has_duplicate_treatment, has_clauses, args } => {
                if has_duplicate_treatment || has_clauses || !unnamed_arguments(args@) {
                    Err(call_refusal(f.name))
                } else {
                    Ok(f.text@)
                }
            },
        }
    }
}

/// An interval with its value normalized and its qualifiers as sqlparser writes them.
pub open spec fn interval_spelling(interval: Interval, depth: int, context: Canonicalizer) -> Result<
    Seq<char>,
    ErrorView,
>
    decreases interval, 3int,
{
    match canon(*interval.value, depth + 1, Enclosure::Operand, context) {
        Err(x) => Err(x),
        Ok(v) => {
            let head = "INTERVAL "@ + v;
            match (interval.leading_field, interval.leading_precision, interval.fractional_seconds_precision) {
                (Some(f), Some(l), Some(s)) if f.is_second => Ok(
                    head + " SECOND ("@ + decimal(l as nat) + ", "@ + decimal(s as nat) + ")"@,
                ),
                _ => Ok(
                    head + optional_field(" "@, interval.leading_field) + optional_precision(
                        interval.leading_precision,
                    ) + optional_field(" TO "@, interval.last_field) + optional_precision(
                        interval.fractional_seconds_precision,
                    ),
                ),
            }
        },
    }
}

/// The root of a field access. Parentheses around it decide what it is, since `(c).f` reads
/// a field of the value `c` while `c.f` may read column `f` of table `c`, so a parenthesized
/// root keeps one pair. A bare name in the access may be a table, so it folds with the
/// qualifier rule.
pub open spec fn root_spelling(root: Expr, depth: int, context: Canonicalizer) -> Result<
    Seq<char>,
    ErrorView,
>
    decreases root, 3int,
{
    match root {
        Expr::Nested(inner) => cat(
            cat(Ok("("@), canon(*inner, depth + 1, Enclosure::Bare, context)),
            Ok(")"@),
        ),
        Expr::Identifier(id) => identifier_spelling(
            id.value@,
            id.quote_style,
            context.qualifier_folding,
            NamePlace::Operand,
            context.identifier_quote,
        ),
        Expr::Value(_) => Err(ErrorView::Unsupported(literal_access_message())),
        _ => canon(root, depth + 1, Enclosure::Operand, context),
    }
}

/// One step of a field or subscript access.
pub open spec fn access_spelling(access: AccessExpr, depth: int, context: Canonicalizer) -> Result<
    Seq<char>,
    ErrorView,
>
    decreases access, 3int,
{
    match access {
        AccessExpr::Dot(field) => match field {
            Expr::Identifier(id) => cat(
                Ok("."@),
                identifier_spelling(
                    id.value@,
                    id.quote_style,
                    context.qualifier_folding,
                    NamePlace::Operand,
                    context.identifier_quote,
                ),
            ),
            Expr::Value(_) => Err(ErrorView::Unsupported(literal_access_message())),
            _ => cat(Ok("."@), canon(field, depth + 1, Enclosure::Operand, context)),
        },
        AccessExpr::Index(index) => cat(
            cat(Ok("["@), canon(index, depth + 1, Enclosure::Bare, context)),
            Ok("]"@),
        ),
        AccessExpr::Slice { lower_bound, upper_bound, stride } => cat(
            cat(
                cat(
                    cat(
                        Ok("["@),
                        match lower_bound {
                            Some(x) => canon(x, depth + 1, Enclosure::Bare, context),
                            None => Ok(Seq::empty()),
                        },
                    ),
                    Ok(":"@),
                ),
                match upper_bound {
                    Some(x) => canon(x, depth + 1, Enclosure::Bare, context),
                    None => Ok(Seq::empty()),
                },
            ),
            cat(
                match stride {
                    Some(x) => cat(Ok(":"@), canon(x, depth + 1, Enclosure::Bare, context)),
                    None => Ok(Seq::empty()),
                },
                Ok("]"@),
            ),
        ),
    }
}

/// The steps of a field or subscript access, in order.
pub open spec fn access_spellings(chain: Seq<AccessExpr>, depth: int, context: Canonicalizer) -> Result<
    Seq<char>,
    ErrorView,
>
    decreases chain, 3int,
{
    if chain.len() == 0 {
        Ok(Seq::empty())
    } else {
        cat(
            access_spellings(chain.drop_last(), depth, context),
            access_spelling(chain.last(), depth, context),
        )
    }
}

} // verus!
