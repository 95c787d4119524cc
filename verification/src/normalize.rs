//! Computing canonical text, proved equal to the specification in `spec`.

use vstd::prelude::*;
use vstd::string::*;

use crate::ast::{
    AccessExpr, BinaryOperator, CastKind, CeilFloorKind, DateTimeField, Expr,
    ExtractSyntax, Function, FunctionArg, FunctionArguments, Ident, Interval, Literal,
    ObjectName, ObjectNamePart, PostfixTest, RefusedForm, UnaryOperator,
};
use crate::context::{Canonicalizer, Folding, NamePlace};
use crate::error::{outcome, unsupported, unsupported_str, CanonicalizeError, ErrorView};
use crate::literal::reject_lossy_quoting;
use crate::names::{identifier_text, text_eq_ignore_case};
use crate::order::sort_texts_exec;
use crate::sanity::MAX_EXPR_DEPTH;
use crate::spec::{
    Enclosure, OperandOrder, access_spelling, access_spellings, argument_spelling,
    brings_parentheses, call_refusal, canon, canon_body, canon_list, cast_word, cat, chain_texts,
    column_spellings, convert_target, encloses_itself, escape_spelling, first_computed_part,
    fold_chain, function_spelling, identifier_parts, infix, interval_spelling, json_suffix,
    literal_access_message, literal_spelling, match_word, needs_parens, normalized_suffix, not_word,
    object_name_spelling, operand_order, operator_spelling, optional_field, optional_precision,
    optional_spelling, optional_text, parenthesized, part_folding, part_spellings, postfix_suffix,
    qualified_spelling, quantifier_name, refused_form_name, refused_message, root_spelling,
    projection_check, rounding, subquery_refusal, subquery_spelling, table_name_check,
    trim_what_spelling, unary_spelling, unnamed_arguments,
};
use crate::statement::{single_table_select, SelectItem, SetExpr, Subquery};
use crate::text::{
    chars_of, join, join_texts, push_decimal, push_str, push_text, string_of, text_lt, views,
};

verus! {

/// The outcome of a step that yields a list of texts, with texts as character sequences.
pub open spec fn texts_outcome(r: Result<Vec<Vec<char>>, CanonicalizeError>) -> Result<
    Seq<Seq<char>>,
    ErrorView,
> {
    match r {
        Ok(v) => Ok(views(v@)),
        Err(e) => Err(e@),
    }
}

/// `a` followed by `b`, or the first error of the two.
fn cat_exec(a: Result<Vec<char>, CanonicalizeError>, b: Result<Vec<char>, CanonicalizeError>) -> (r:
    Result<Vec<char>, CanonicalizeError>)
    ensures
        outcome(r) == cat(outcome(a), outcome(b)),
{
    match a {
        Err(e) => Err(e),
        Ok(mut x) => match b {
            Err(e) => Err(e),
            Ok(y) => {
                push_text(&mut x, &y);
                Ok(x)
            },
        },
    }
}

/// The characters of `s`, as a successful step.
fn lit(s: &str) -> (r: Result<Vec<char>, CanonicalizeError>)
    ensures
        outcome(r) == Ok::<Seq<char>, ErrorView>(s@),
{
    Ok(chars_of(s))
}

/// The text in parentheses.
fn parenthesize(t: &Vec<char>) -> (r: Vec<char>)
    ensures
        r@ == parenthesized(t@),
{
    let mut r = chars_of("(");
    push_text(&mut r, t);
    push_str(&mut r, ")");
    r
}

/// Appends `NOT ` where the test is negated.
fn push_not(out: &mut Vec<char>, negated: bool)
    ensures
        final(out)@ == old(out)@ + not_word(negated),
{
    if negated {
        push_str(out, "NOT ");
    } else {
        assert(old(out)@ + not_word(negated) =~= old(out)@);
    }
}

/// Spells the operator of a pattern match, such as `NOT SIMILAR TO`.
pub fn match_operator(negated: bool, operator: &str) -> (r: String)
    ensures
        r@ == match_word(negated, operator@),
{
    let mut out: Vec<char> = Vec::new();
    if negated {
        push_str(&mut out, "NOT ");
    }
    push_str(&mut out, operator);
    assert(out@ =~= match_word(negated, operator@));
    string_of(&out)
}

/// The error for an expression form no `WHERE` clause of a served query can hold.
pub fn refused(form: &str) -> (e: CanonicalizeError)
    ensures
        e@ == ErrorView::Unsupported(refused_message(form@)),
{
    let mut message = chars_of(form);
    push_str(&mut message, " is not supported in a predicate");
    unsupported(&message)
}

/// The error for a field access on a literal or naming a field by one. Printed, `0 .l` reads
/// `0.l`, which a tokenizer splits into the number `0.` and a name.
pub fn literal_access() -> (e: CanonicalizeError)
    ensures
        e@ == ErrorView::Unsupported(literal_access_message()),
{
    unsupported_str("A field access on a literal is not supported")
}

/// How the refusal of a form names it.
fn refused_form_str(form: RefusedForm) -> (s: &'static str)
    ensures
        s@ == refused_form_name(form),
{
    match form {
        RefusedForm::InUnnest => "IN UNNEST",
        RefusedForm::Struct => "STRUCT",
        RefusedForm::Named => "a named expression",
        RefusedForm::Dictionary => "a dictionary literal",
        RefusedForm::MapLiteral => "a map literal",
        RefusedForm::Lambda => "a lambda",
        RefusedForm::OuterJoin => "the (+) outer join marker",
        RefusedForm::Prior => "PRIOR",
        RefusedForm::GroupingSet => "a grouping set",
        RefusedForm::Wildcard => "a wildcard",
    }
}

/// Reports whether the expression prints as text no neighbouring operator can split.
fn encloses_itself_exec(e: &Expr) -> (r: bool)
    ensures
        r == encloses_itself(*e),
{
    match e {
        Expr::UnaryOp { op, .. } => match op {
            UnaryOperator::Not => false,
            _ => true,
        },
        Expr::Exists { negated, .. } => !*negated,
        Expr::Identifier(_) | Expr::CompoundIdentifier(_) | Expr::CompoundFieldAccess { .. }
        | Expr::Value(_) | Expr::TypedString { .. } | Expr::Prefixed { .. } | Expr::Nested(_)
        | Expr::BinaryOp { .. } | Expr::IsDistinctFrom(..) | Expr::IsNotDistinctFrom(..)
        | Expr::Function(_) | Expr::Cast { .. } | Expr::Convert { .. } | Expr::Extract { .. }
        | Expr::Ceil { .. } | Expr::Floor { .. } | Expr::Position { .. } | Expr::Substring { .. }
        | Expr::Trim { .. } | Expr::Overlay { .. } | Expr::Case(_) | Expr::Subquery(_)
        | Expr::Tuple(_) | Expr::Array { .. } | Expr::MatchAgainst { .. } => true,
        Expr::Refused(form) => match form {
            RefusedForm::Wildcard => true,
            _ => false,
        },
        _ => false,
    }
}

/// Reports whether the expression, placed as `enclosure` says, is written in parentheses.
fn needs_parens_exec(e: &Expr, enclosure: Enclosure) -> (r: bool)
    ensures
        r == needs_parens(*e, enclosure),
{
    let tighter_than_is = match e {
        Expr::Like { .. } | Expr::ILike { .. } | Expr::SimilarTo { .. } | Expr::RLike { .. }
        | Expr::Between { .. } | Expr::InList { .. } | Expr::InSubquery { .. } => true,
        _ => false,
    };
    let range_test = match e {
        Expr::Between { .. } | Expr::InList { .. } | Expr::InSubquery { .. } => true,
        _ => false,
    };
    match enclosure {
        Enclosure::Bare => false,
        Enclosure::Operand => !encloses_itself_exec(e),
        Enclosure::TestOperand => !encloses_itself_exec(e) && !tighter_than_is,
        Enclosure::PatternOperand => !encloses_itself_exec(e) && !range_test,
    }
}

/// Reports whether `expr` is a tuple or a subquery, however many parentheses enclose it.
fn brings_own_parentheses(expr: &Expr) -> (r: bool)
    ensures
        r == brings_parentheses(*expr),
    decreases *expr,
{
    match expr {
        Expr::Nested(inner) => brings_own_parentheses(inner),
        Expr::Tuple(_) | Expr::Subquery(_) => true,
        _ => false,
    }
}

/// The canonical spelling of a binary operator, refusing any other.
fn operator_text(operator: &BinaryOperator) -> (r: Result<Vec<char>, CanonicalizeError>)
    ensures
        outcome(r) == operator_spelling(*operator),
{
    match operator {
        BinaryOperator::And => lit("AND"),
        BinaryOperator::Or => lit("OR"),
        BinaryOperator::Eq => lit("="),
        BinaryOperator::Spaceship => lit("<=>"),
        BinaryOperator::NotEq => lit("!="),
        BinaryOperator::Lt => lit("<"),
        BinaryOperator::LtEq => lit("<="),
        BinaryOperator::Gt => lit(">"),
        BinaryOperator::GtEq => lit(">="),
        BinaryOperator::Plus => lit("+"),
        BinaryOperator::Minus => lit("-"),
        BinaryOperator::Multiply => lit("*"),
        BinaryOperator::Divide => lit("/"),
        BinaryOperator::Modulo => lit("%"),
        BinaryOperator::Other(text) => {
            let mut message = chars_of("Unsupported binary operator: ");
            push_str(&mut message, text.as_str());
            Err(unsupported(&message))
        },
    }
}

/// The canonical spelling of a prefix operator, refusing any other.
fn unary_operator_text(operator: &UnaryOperator) -> (r: Result<Vec<char>, CanonicalizeError>)
    ensures
        outcome(r) == unary_spelling(*operator),
{
    match operator {
        UnaryOperator::Not => lit("NOT"),
        UnaryOperator::Plus => lit("+"),
        UnaryOperator::Minus => lit("-"),
        UnaryOperator::Other(text) => {
            let mut message = chars_of("Unsupported unary operator: ");
            push_str(&mut message, text.as_str());
            Err(unsupported(&message))
        },
    }
}

/// Reads how `operator` treats the order of its operands.
fn operand_order_exec(operator: &BinaryOperator) -> (r: OperandOrder)
    ensures
        r == operand_order(*operator),
{
    match operator {
        BinaryOperator::And | BinaryOperator::Or | BinaryOperator::Eq | BinaryOperator::NotEq
        | BinaryOperator::Spaceship => OperandOrder::Sorted,
        _ => OperandOrder::Written,
    }
}

/// Spells `left operator right` in parentheses, so it reads back whole wherever it is nested,
/// with the operands in sorted order where `order` allows it.
fn infix_text(
    left: Result<Vec<char>, CanonicalizeError>,
    operator: &Vec<char>,
    right: Result<Vec<char>, CanonicalizeError>,
    order: OperandOrder,
) -> (r: Result<Vec<char>, CanonicalizeError>)
    ensures
        outcome(r) == infix(outcome(left), operator@, outcome(right), order),
{
    let left = left?;
    let right = right?;
    let swap = match order {
        OperandOrder::Sorted => text_lt(&right, &left),
        OperandOrder::Written => false,
    };
    let (first, second) = if swap {
        (right, left)
    } else {
        (left, right)
    };
    let mut text = chars_of("(");
    push_text(&mut text, &first);
    push_str(&mut text, " ");
    push_text(&mut text, operator);
    push_str(&mut text, " ");
    push_text(&mut text, &second);
    push_str(&mut text, ")");
    Ok(text)
}

/// The suffix of a postfix test.
fn postfix_suffix_str(test: PostfixTest) -> (s: &'static str)
    ensures
        s@ == postfix_suffix(test),
{
    match test {
        PostfixTest::IsNull => "IS NULL",
        PostfixTest::IsNotNull => "IS NOT NULL",
        PostfixTest::IsTrue => "IS TRUE",
        PostfixTest::IsNotTrue => "IS NOT TRUE",
        PostfixTest::IsFalse => "IS FALSE",
        PostfixTest::IsNotFalse => "IS NOT FALSE",
        PostfixTest::IsUnknown => "IS UNKNOWN",
        PostfixTest::IsNotUnknown => "IS NOT UNKNOWN",
    }
}

/// Appends `separator text` where there is a text.
fn push_optional(out: &mut Vec<char>, separator: &str, text: &Option<String>)
    ensures
        final(out)@ == old(out)@ + optional_text(separator@, *text),
{
    match text {
        Some(t) => {
            push_str(out, separator);
            push_str(out, t.as_str());
            assert(final(out)@ =~= old(out)@ + optional_text(separator@, *text));
        },
        None => {
            assert(old(out)@ + optional_text(separator@, *text) =~= old(out)@);
        },
    }
}

/// A literal's printed text, unless printing would change it.
fn literal_text(value: &Literal) -> (r: Result<Vec<char>, CanonicalizeError>)
    ensures
        outcome(r) == literal_spelling(value.kind, value.text@),
{
    reject_lossy_quoting(value)?;
    Ok(chars_of(value.text.as_str()))
}

/// The sorted operands of a chain, each pair grouped from the left.
fn fold_chain_exec(parts: &Vec<Vec<char>>, operator: &str) -> (r: Vec<char>)
    ensures
        r@ == fold_chain(views(parts@), operator@),
{
    let ghost all = views(parts@);
    if parts.len() == 0 {
        return Vec::new();
    }
    let mut text: Vec<char> = Vec::new();
    push_text(&mut text, &parts[0]);
    assert(all.subrange(0, 1).drop_last() =~= Seq::<Seq<char>>::empty());
    assert(text@ =~= fold_chain(all.subrange(0, 1), operator@));
    let mut i: usize = 1;
    while i < parts.len()
        invariant
            1 <= i <= parts.len(),
            all == views(parts@),
            text@ == fold_chain(all.subrange(0, i as int), operator@),
        decreases parts.len() - i,
    {
        let mut next = chars_of("(");
        push_text(&mut next, &text);
        push_str(&mut next, " ");
        push_str(&mut next, operator);
        push_str(&mut next, " ");
        push_text(&mut next, &parts[i]);
        push_str(&mut next, ")");
        assert(all.subrange(0, i + 1).drop_last() =~= all.subrange(0, i as int));
        text = next;
        i = i + 1;
    }
    assert(all.subrange(0, parts.len() as int) =~= all);
    text
}

/// An error in the texts of a prefix of the list is the error of the whole list.
proof fn lemma_canon_list_prefix_error(
    items: Seq<Expr>,
    k: int,
    depth: int,
    enclosure: Enclosure,
    context: Canonicalizer,
)
    requires
        0 <= k <= items.len(),
        canon_list(items.subrange(0, k), depth, enclosure, context) is Err,
    ensures
        canon_list(items, depth, enclosure, context) == canon_list(
            items.subrange(0, k),
            depth,
            enclosure,
            context,
        ),
    decreases items.len() - k,
{
    if k < items.len() {
        assert(items.subrange(0, k + 1).drop_last() == items.subrange(0, k));
        lemma_canon_list_prefix_error(items, k + 1, depth, enclosure, context);
    } else {
        assert(items.subrange(0, k) == items);
    }
}

/// Canonicalizes each expression of a list, in order, stopping at the first error.
fn normalize_list(items: &Vec<Expr>, depth: usize, enclosure: Enclosure, context: &Canonicalizer) -> (r:
    Result<Vec<Vec<char>>, CanonicalizeError>)
    ensures
        texts_outcome(r) == canon_list(items@, depth as int, enclosure, *context),
    decreases *items, 3int,
{
    let mut texts: Vec<Vec<char>> = Vec::new();
    let mut i: usize = 0;
    assert(items@.subrange(0, 0) =~= Seq::<Expr>::empty());
    assert(views(texts@) =~= Seq::<Seq<char>>::empty());
    while i < items.len()
        invariant
            i <= items.len(),
            canon_list(items@.subrange(0, i as int), depth as int, enclosure, *context) == Ok::<
                Seq<Seq<char>>,
                ErrorView,
            >(views(texts@)),
        decreases items.len() - i,
    {
        proof {
            assert(decreases_to!(*items => items@));
            assert(decreases_to!(items@ => items@[i as int]));
        }
        let ghost prefix = items@.subrange(0, i + 1);
        assert(prefix.drop_last() =~= items@.subrange(0, i as int));
        assert(prefix.last() == items@[i as int]);
        match normalize_expr_inner(&items[i], depth, enclosure, context) {
            Err(e) => {
                proof {
                    lemma_canon_list_prefix_error(items@, i + 1, depth as int, enclosure, *context);
                }
                return Err(e);
            },
            Ok(t) => {
                let ghost before = views(texts@);
                let ghost tv = t@;
                texts.push(t);
                assert(views(texts@) =~= before.push(tv));
            },
        }
        i = i + 1;
    }
    assert(items@.subrange(0, items.len() as int) =~= items@);
    Ok(texts)
}

/// The canonical texts of the operands of an `AND` or `OR` chain.
fn chain_exec(e: &Expr, conjunction: bool, depth: usize, context: &Canonicalizer) -> (r: Result<
    Vec<Vec<char>>,
    CanonicalizeError,
>)
    requires
        depth <= MAX_EXPR_DEPTH,
    ensures
        texts_outcome(r) == chain_texts(*e, conjunction, depth as int, *context),
    decreases *e, 3int,
{
    let same = match e {
        Expr::BinaryOp { op, .. } => match op {
            BinaryOperator::And => conjunction,
            BinaryOperator::Or => !conjunction,
            _ => false,
        },
        _ => false,
    };
    match e {
        Expr::Nested(inner) => chain_exec(inner, conjunction, depth, context),
        Expr::BinaryOp { left, right, .. } if same => {
            let mut a = chain_exec(left, conjunction, depth, context)?;
            let mut b = chain_exec(right, conjunction, depth, context)?;
            let ghost va = views(a@);
            let ghost vb = views(b@);
            a.append(&mut b);
            assert(views(a@) =~= va + vb);
            Ok(a)
        },
        _ => {
            let t = normalize_expr_inner(e, depth + 1, Enclosure::Bare, context)?;
            let mut v: Vec<Vec<char>> = Vec::new();
            let ghost tv = t@;
            v.push(t);
            assert(views(v@) =~= seq![tv]);
            Ok(v)
        },
    }
}

/// Spells the parenthesized argument of `ANY`, `ALL` or `LIKE ANY`.
fn argument_text(argument: &Expr, depth: usize, context: &Canonicalizer) -> (r: Result<
    Vec<char>,
    CanonicalizeError,
>)
    requires
        depth <= MAX_EXPR_DEPTH,
    ensures
        outcome(r) == argument_spelling(*argument, depth as int, *context),
    decreases *argument, 3int,
{
    let text = normalize_expr_inner(argument, depth + 1, Enclosure::Bare, context)?;
    if brings_own_parentheses(argument) {
        Ok(text)
    } else {
        Ok(parenthesize(&text))
    }
}

/// ` ESCAPE e`, or nothing.
fn escape_text(escape: &Option<Box<Expr>>, depth: usize, context: &Canonicalizer) -> (r: Result<
    Vec<char>,
    CanonicalizeError,
>)
    requires
        depth <= MAX_EXPR_DEPTH,
    ensures
        outcome(r) == escape_spelling(*escape, depth as int, *context),
    decreases *escape, 3int,
{
    match escape {
        Some(x) => cat_exec(lit(" ESCAPE "), normalize_expr_inner(x, depth + 1, Enclosure::Operand, context)),
        None => Ok(Vec::new()),
    }
}

/// `separator e`, or nothing.
fn optional_part(separator: &str, part: &Option<Box<Expr>>, depth: usize, context: &Canonicalizer) -> (r:
    Result<Vec<char>, CanonicalizeError>)
    requires
        depth <= MAX_EXPR_DEPTH,
    ensures
        outcome(r) == optional_spelling(separator@, *part, depth as int, *context),
    decreases *part, 3int,
{
    match part {
        Some(x) => cat_exec(lit(separator), normalize_expr_inner(x, depth + 1, Enclosure::Bare, context)),
        None => Ok(Vec::new()),
    }
}

/// `what FROM `, or nothing.
fn trim_what_text(what: &Option<Box<Expr>>, depth: usize, context: &Canonicalizer) -> (r: Result<
    Vec<char>,
    CanonicalizeError,
>)
    requires
        depth <= MAX_EXPR_DEPTH,
    ensures
        outcome(r) == trim_what_spelling(*what, depth as int, *context),
    decreases *what, 3int,
{
    match what {
        Some(x) => cat_exec(normalize_expr_inner(x, depth + 1, Enclosure::Bare, context), lit(" FROM ")),
        None => Ok(Vec::new()),
    }
}

/// An error in a prefix of the name's parts is the error of the whole name.
proof fn lemma_parts_prefix_error(
    parts: Seq<Ident>,
    k: int,
    total: int,
    place: NamePlace,
    context: Canonicalizer,
)
    requires
        0 <= k <= parts.len(),
        part_spellings(parts.subrange(0, k), total, place, context) is Err,
    ensures
        part_spellings(parts, total, place, context) == part_spellings(
            parts.subrange(0, k),
            total,
            place,
            context,
        ),
    decreases parts.len() - k,
{
    if k < parts.len() {
        assert(parts.subrange(0, k + 1).drop_last() == parts.subrange(0, k));
        lemma_parts_prefix_error(parts, k + 1, total, place, context);
    } else {
        assert(parts.subrange(0, k) == parts);
    }
}

/// The folding of the part at `index` of a dotted name of `total` parts.
fn part_folding_exec(index: usize, total: usize, place: NamePlace, context: &Canonicalizer) -> (r:
    Folding)
    requires
        index < total,
    ensures
        r == part_folding(index as int, total as int, place, *context),
{
    if place == NamePlace::Function {
        Folding::Exact
    } else if index + 1 == total {
        context.folding
    } else {
        context.qualifier_folding
    }
}

/// Spells a dotted name, folding the last part as a column and the others as qualifiers.
fn qualified_name_text(parts: &Vec<Ident>, place: NamePlace, context: &Canonicalizer) -> (r: Result<
    Vec<char>,
    CanonicalizeError,
>)
    ensures
        outcome(r) == qualified_spelling(parts@, place, *context),
{
    let total = parts.len();
    let mut texts: Vec<Vec<char>> = Vec::new();
    let mut i: usize = 0;
    assert(parts@.subrange(0, 0) =~= Seq::<Ident>::empty());
    assert(views(texts@) =~= Seq::<Seq<char>>::empty());
    while i < total
        invariant
            i <= total,
            total == parts.len(),
            part_spellings(parts@.subrange(0, i as int), total as int, place, *context) == Ok::<
                Seq<Seq<char>>,
                ErrorView,
            >(views(texts@)),
        decreases total - i,
    {
        let ghost prefix = parts@.subrange(0, i + 1);
        assert(prefix.drop_last() =~= parts@.subrange(0, i as int));
        assert(prefix.last() == parts@[i as int]);
        let folding = part_folding_exec(i, total, place, context);
        match identifier_text(&parts[i], folding, place, context) {
            Err(e) => {
                proof {
                    lemma_parts_prefix_error(parts@, i + 1, total as int, place, *context);
                }
                return Err(e);
            },
            Ok(t) => {
                let ghost before = views(texts@);
                let ghost tv = t@;
                texts.push(t);
                assert(views(texts@) =~= before.push(tv));
            },
        }
        i = i + 1;
    }
    assert(parts@.subrange(0, total as int) =~= parts@);
    Ok(join_texts(&texts, "."))
}

/// Spells an object name, refusing a part computed by a function.
fn object_name_text(name: &ObjectName, place: NamePlace, context: &Canonicalizer) -> (r: Result<
    Vec<char>,
    CanonicalizeError,
>)
    ensures
        outcome(r) == object_name_spelling(*name, place, *context),
{
    let parts = &name.parts;
    let mut k: usize = 0;
    assert(parts@.skip(0) =~= parts@);
    while k < parts.len()
        invariant
            k <= parts.len(),
            parts@ == name.parts@,
            first_computed_part(parts@) == first_computed_part(parts@.skip(k as int)),
            forall|j: int| 0 <= j < k ==> parts@[j] is Identifier,
        decreases parts.len() - k,
    {
        assert(parts@.skip(k as int).drop_first() =~= parts@.skip(k + 1));
        assert(parts@.skip(k as int)[0] == parts@[k as int]);
        match &parts[k] {
            ObjectNamePart::Computed(text) => {
                let mut message = chars_of("Computed name part: ");
                push_str(&mut message, text.as_str());
                return Err(unsupported(&message));
            },
            ObjectNamePart::Identifier(_) => {},
        }
        k = k + 1;
    }
    assert(parts@.skip(parts.len() as int) =~= Seq::<ObjectNamePart>::empty());
    let ghost idents = identifier_parts(parts@);
    let total = parts.len();
    let mut texts: Vec<Vec<char>> = Vec::new();
    let mut i: usize = 0;
    assert(idents.subrange(0, 0) =~= Seq::<Ident>::empty());
    assert(views(texts@) =~= Seq::<Seq<char>>::empty());
    while i < total
        invariant
            i <= total,
            total == parts.len(),
            parts@ == name.parts@,
            first_computed_part(parts@) is None,
            idents.len() == total,
            idents == identifier_parts(parts@),
            forall|j: int| 0 <= j < total ==> parts@[j] is Identifier,
            part_spellings(idents.subrange(0, i as int), total as int, place, *context) == Ok::<
                Seq<Seq<char>>,
                ErrorView,
            >(views(texts@)),
        decreases total - i,
    {
        let ghost prefix = idents.subrange(0, i + 1);
        assert(prefix.drop_last() =~= idents.subrange(0, i as int));
        assert(prefix.last() == idents[i as int]);
        let folding = part_folding_exec(i, total, place, context);
        let step = match &parts[i] {
            ObjectNamePart::Identifier(id) => {
                assert(idents[i as int] == *id);
                identifier_text(id, folding, place, context)
            },
            ObjectNamePart::Computed(_) => {
                proof {
                    assert(false);
                }
                Err(unsupported_str(""))
            },
        };
        match step {
            Err(e) => {
                proof {
                    lemma_parts_prefix_error(idents, i + 1, total as int, place, *context);
                }
                return Err(e);
            },
            Ok(t) => {
                let ghost before = views(texts@);
                let ghost tv = t@;
                texts.push(t);
                assert(views(texts@) =~= before.push(tv));
            },
        }
        i = i + 1;
    }
    assert(idents.subrange(0, total as int) =~= idents);
    assert(idents.len() == total);
    Ok(join_texts(&texts, "."))
}

/// An error in a prefix of the columns is the error of them all.
proof fn lemma_columns_prefix_error(columns: Seq<ObjectName>, k: int, context: Canonicalizer)
    requires
        0 <= k <= columns.len(),
        column_spellings(columns.subrange(0, k), context) is Err,
    ensures
        column_spellings(columns, context) == column_spellings(columns.subrange(0, k), context),
    decreases columns.len() - k,
{
    if k < columns.len() {
        assert(columns.subrange(0, k + 1).drop_last() == columns.subrange(0, k));
        lemma_columns_prefix_error(columns, k + 1, context);
    } else {
        assert(columns.subrange(0, k) == columns);
    }
}

/// Spells the columns of a MATCH, in order.
fn column_texts(columns: &Vec<ObjectName>, context: &Canonicalizer) -> (r: Result<
    Vec<Vec<char>>,
    CanonicalizeError,
>)
    ensures
        texts_outcome(r) == column_spellings(columns@, *context),
{
    let mut texts: Vec<Vec<char>> = Vec::new();
    let mut i: usize = 0;
    assert(columns@.subrange(0, 0) =~= Seq::<ObjectName>::empty());
    assert(views(texts@) =~= Seq::<Seq<char>>::empty());
    while i < columns.len()
        invariant
            i <= columns.len(),
            column_spellings(columns@.subrange(0, i as int), *context) == Ok::<
                Seq<Seq<char>>,
                ErrorView,
            >(views(texts@)),
        decreases columns.len() - i,
    {
        let ghost prefix = columns@.subrange(0, i + 1);
        assert(prefix.drop_last() =~= columns@.subrange(0, i as int));
        assert(prefix.last() == columns@[i as int]);
        match object_name_text(&columns[i], NamePlace::Operand, context) {
            Err(e) => {
                proof {
                    lemma_columns_prefix_error(columns@, i + 1, *context);
                }
                return Err(e);
            },
            Ok(t) => {
                let ghost before = views(texts@);
                let ghost tv = t@;
                texts.push(t);
                assert(views(texts@) =~= before.push(tv));
            },
        }
        i = i + 1;
    }
    assert(columns@.subrange(0, columns.len() as int) =~= columns@);
    Ok(texts)
}

/// Reports whether the call's name is a bare `ANY`, `SOME` or `ALL`.
fn is_quantifier_name(name: &ObjectName) -> (r: bool)
    ensures
        r == quantifier_name(*name),
{
    if name.parts.len() != 1 {
        return false;
    }
    match &name.parts[0] {
        ObjectNamePart::Identifier(id) => {
            if id.quote_style.is_some() {
                return false;
            }
            let value = chars_of(id.value.as_str());
            text_eq_ignore_case(&chars_of("ANY"), &value) || text_eq_ignore_case(
                &chars_of("SOME"),
                &value,
            ) || text_eq_ignore_case(&chars_of("ALL"), &value)
        },
        ObjectNamePart::Computed(_) => false,
    }
}

/// The error refusing a call that is not a plain function call.
fn call_refusal_error(name: &ObjectName) -> (e: CanonicalizeError)
    ensures
        e@ == call_refusal(*name),
{
    let mut message = chars_of("Call to ");
    push_str(&mut message, name.text.as_str());
    push_str(&mut message, " is not a plain function call");
    unsupported(&message)
}

/// Reports whether every argument is an unnamed expression.
fn all_unnamed(args: &Vec<FunctionArg>) -> (r: bool)
    ensures
        r == unnamed_arguments(args@),
{
    let mut i: usize = 0;
    while i < args.len()
        invariant
            i <= args.len(),
            forall|k: int| 0 <= k < i ==> args@[k] is Expr,
        decreases args.len() - i,
    {
        match args[i] {
            FunctionArg::Expr => {},
            FunctionArg::Other => return false,
        }
        i = i + 1;
    }
    true
}

/// Spells a plain call as the parser prints it, refusing the aggregate and window forms no
/// `WHERE` clause can hold.
fn function_text(function: &Function) -> (r: Result<Vec<char>, CanonicalizeError>)
    ensures
        outcome(r) == function_spelling(*function),
{
    // Once ordering puts such a call on the right of a comparison, `1 = ANY(x)` reads back as
    // a quantified comparison, which is another predicate with the same text.
    if is_quantifier_name(&function.name) {
        let mut message = chars_of("Function named ");
        push_str(&mut message, function.name.text.as_str());
        push_str(&mut message, " reads back as a quantifier");
        return Err(unsupported(&message));
    }
    let plain = !function.uses_odbc_syntax && !function.has_parameters && !function.has_filter
        && !function.has_null_treatment && !function.has_over && !function.has_within_group;
    if !plain {
        return Err(call_refusal_error(&function.name));
    }
    match &function.args {
        FunctionArguments::NoParentheses => Ok(chars_of(function.text.as_str())),
        FunctionArguments::Subquery => Err(call_refusal_error(&function.name)),
        FunctionArguments::List { has_duplicate_treatment, has_clauses, args } => {
            if *has_duplicate_treatment || *has_clauses || !all_unnamed(args) {
                Err(call_refusal_error(&function.name))
            } else {
                Ok(chars_of(function.text.as_str()))
            }
        },
    }
}

/// Appends ` (precision)` where there is one.
fn push_precision(out: &mut Vec<char>, precision: Option<u64>)
    ensures
        final(out)@ == old(out)@ + optional_precision(precision),
{
    match precision {
        Some(p) => {
            push_str(out, " (");
            push_decimal(out, p);
            push_str(out, ")");
            assert(final(out)@ =~= old(out)@ + optional_precision(precision));
        },
        None => {
            assert(old(out)@ + optional_precision(precision) =~= old(out)@);
        },
    }
}

/// Appends `separator field` where there is a field.
fn push_field(out: &mut Vec<char>, separator: &str, field: &Option<DateTimeField>)
    ensures
        final(out)@ == old(out)@ + optional_field(separator@, *field),
{
    match field {
        Some(f) => {
            push_str(out, separator);
            push_str(out, f.text.as_str());
            assert(final(out)@ =~= old(out)@ + optional_field(separator@, *field));
        },
        None => {
            assert(old(out)@ + optional_field(separator@, *field) =~= old(out)@);
        },
    }
}

/// Spells an interval with its value normalized and its qualifiers as sqlparser writes them.
fn interval_text(interval: &Interval, depth: usize, context: &Canonicalizer) -> (r: Result<
    Vec<char>,
    CanonicalizeError,
>)
    requires
        depth <= MAX_EXPR_DEPTH,
    ensures
        outcome(r) == interval_spelling(*interval, depth as int, *context),
    decreases *interval, 3int,
{
    let value = normalize_expr_inner(&interval.value, depth + 1, Enclosure::Operand, context)?;
    let mut text = chars_of("INTERVAL ");
    push_text(&mut text, &value);
    let second = match &interval.leading_field {
        Some(f) => f.is_second,
        None => false,
    };
    if second && interval.leading_precision.is_some()
        && interval.fractional_seconds_precision.is_some() {
        let leading = interval.leading_precision.unwrap();
        let fractional = interval.fractional_seconds_precision.unwrap();
        push_str(&mut text, " SECOND (");
        push_decimal(&mut text, leading);
        push_str(&mut text, ", ");
        push_decimal(&mut text, fractional);
        push_str(&mut text, ")");
        return Ok(text);
    }
    push_field(&mut text, " ", &interval.leading_field);
    push_precision(&mut text, interval.leading_precision);
    push_field(&mut text, " TO ", &interval.last_field);
    push_precision(&mut text, interval.fractional_seconds_precision);
    Ok(text)
}

/// Spells the root of a field access.
fn root_text(root: &Expr, depth: usize, context: &Canonicalizer) -> (r: Result<
    Vec<char>,
    CanonicalizeError,
>)
    requires
        depth <= MAX_EXPR_DEPTH,
    ensures
        outcome(r) == root_spelling(*root, depth as int, *context),
    decreases *root, 3int,
{
    match root {
        Expr::Nested(inner) => cat_exec(
            cat_exec(lit("("), normalize_expr_inner(inner, depth + 1, Enclosure::Bare, context)),
            lit(")"),
        ),
        Expr::Identifier(name) => identifier_text(
            name,
            context.qualifier_folding,
            NamePlace::Operand,
            context,
        ),
        Expr::Value(_) => Err(literal_access()),
        _ => normalize_expr_inner(root, depth + 1, Enclosure::Operand, context),
    }
}

/// Spells an optional bound of a slice, or nothing.
fn bound_text(bound: &Option<Expr>, depth: usize, context: &Canonicalizer) -> (r: Result<
    Vec<char>,
    CanonicalizeError,
>)
    requires
        depth <= MAX_EXPR_DEPTH,
    ensures
        outcome(r) == match *bound {
            Some(x) => canon(x, depth + 1, Enclosure::Bare, *context),
            None => Ok(Seq::empty()),
        },
    decreases *bound, 3int,
{
    match bound {
        Some(x) => normalize_expr_inner(x, depth + 1, Enclosure::Bare, context),
        None => Ok(Vec::new()),
    }
}

/// Spells one step of a field or subscript access.
fn access_step_text(access: &AccessExpr, depth: usize, context: &Canonicalizer) -> (r: Result<
    Vec<char>,
    CanonicalizeError,
>)
    requires
        depth <= MAX_EXPR_DEPTH,
    ensures
        outcome(r) == access_spelling(*access, depth as int, *context),
    decreases *access, 3int,
{
    match access {
        AccessExpr::Dot(field) => match field {
            Expr::Identifier(name) => cat_exec(
                lit("."),
                identifier_text(name, context.qualifier_folding, NamePlace::Operand, context),
            ),
            Expr::Value(_) => Err(literal_access()),
            _ => cat_exec(lit("."), normalize_expr_inner(field, depth + 1, Enclosure::Operand, context)),
        },
        AccessExpr::Index(index) => cat_exec(
            cat_exec(lit("["), normalize_expr_inner(index, depth + 1, Enclosure::Bare, context)),
            lit("]"),
        ),
        AccessExpr::Slice { lower_bound, upper_bound, stride } => {
            let stride_text = match stride {
                Some(x) => cat_exec(lit(":"), normalize_expr_inner(x, depth + 1, Enclosure::Bare, context)),
                None => Ok(Vec::new()),
            };
            cat_exec(
                cat_exec(
                    cat_exec(cat_exec(lit("["), bound_text(lower_bound, depth, context)), lit(":")),
                    bound_text(upper_bound, depth, context),
                ),
                cat_exec(stride_text, lit("]")),
            )
        },
    }
}

/// An error in a prefix of the access chain is the error of the whole chain.
proof fn lemma_access_prefix_error(chain: Seq<AccessExpr>, k: int, depth: int, context: Canonicalizer)
    requires
        0 <= k <= chain.len(),
        access_spellings(chain.subrange(0, k), depth, context) is Err,
    ensures
        access_spellings(chain, depth, context) == access_spellings(chain.subrange(0, k), depth, context),
    decreases chain.len() - k,
{
    if k < chain.len() {
        assert(chain.subrange(0, k + 1).drop_last() == chain.subrange(0, k));
        lemma_access_prefix_error(chain, k + 1, depth, context);
    } else {
        assert(chain.subrange(0, k) == chain);
    }
}

/// Spells the steps of a field or subscript access, in order.
fn access_text(chain: &Vec<AccessExpr>, depth: usize, context: &Canonicalizer) -> (r: Result<
    Vec<char>,
    CanonicalizeError,
>)
    requires
        depth <= MAX_EXPR_DEPTH,
    ensures
        outcome(r) == access_spellings(chain@, depth as int, *context),
    decreases *chain, 3int,
{
    let mut text: Vec<char> = Vec::new();
    let mut i: usize = 0;
    while i < chain.len()
        invariant
            i <= chain.len(),
            depth <= MAX_EXPR_DEPTH,
            access_spellings(chain@.subrange(0, i as int), depth as int, *context) == Ok::<
                Seq<char>,
                ErrorView,
            >(text@),
        decreases chain.len() - i,
    {
        proof {
            assert(decreases_to!(*chain => chain@));
            assert(decreases_to!(chain@ => chain@[i as int]));
        }
        let ghost prefix = chain@.subrange(0, i + 1);
        assert(prefix.drop_last() =~= chain@.subrange(0, i as int));
        assert(prefix.last() == chain@[i as int]);
        match cat_exec(Ok(text), access_step_text(&chain[i], depth, context)) {
            Err(e) => {
                proof {
                    lemma_access_prefix_error(chain@, i + 1, depth as int, *context);
                }
                return Err(e);
            },
            Ok(t) => {
                text = t;
            },
        }
        i = i + 1;
    }
    assert(chain@.subrange(0, chain.len() as int) =~= chain@);
    Ok(text)
}

/// The target of a `CONVERT`, after its operand.
fn convert_target_text(data_type: &Option<String>, charset: &Option<String>) -> (r: Result<
    Vec<char>,
    CanonicalizeError,
>)
    ensures
        outcome(r) == convert_target(*data_type, *charset),
{
    match (data_type, charset) {
        (Some(d), Some(c)) => {
            let mut t = chars_of(", ");
            push_str(&mut t, d.as_str());
            push_str(&mut t, " CHARACTER SET ");
            push_str(&mut t, c.as_str());
            Ok(t)
        },
        (Some(d), None) => {
            let mut t = chars_of(", ");
            push_str(&mut t, d.as_str());
            Ok(t)
        },
        (None, Some(c)) => {
            let mut t = chars_of(" USING ");
            push_str(&mut t, c.as_str());
            Ok(t)
        },
        (None, None) => Err(unsupported_str("CONVERT without a target is not supported")),
    }
}

/// Spells `CEIL` or `FLOOR` with its optional date part or scale.
fn rounding_text(
    name: &str,
    operand: Result<Vec<char>, CanonicalizeError>,
    field: &CeilFloorKind,
) -> (r: Result<Vec<char>, CanonicalizeError>)
    ensures
        outcome(r) == rounding(name@, outcome(operand), *field),
{
    let x = operand?;
    let mut t = chars_of(name);
    push_str(&mut t, "(");
    push_text(&mut t, &x);
    match field {
        CeilFloorKind::NoDateTime => {},
        CeilFloorKind::DateTimeField(f) => {
            push_str(&mut t, " TO ");
            push_str(&mut t, f.as_str());
        },
        CeilFloorKind::Scale(s) => {
            push_str(&mut t, ", ");
            push_str(&mut t, s.as_str());
        },
    }
    push_str(&mut t, ")");
    Ok(t)
}

/// The keyword that spells a cast.
fn cast_word_str(kind: CastKind) -> (s: &'static str)
    ensures
        s@ == cast_word(kind),
{
    match kind {
        CastKind::Cast | CastKind::DoubleColon => "CAST",
        CastKind::TryCast => "TRY_CAST",
        CastKind::SafeCast => "SAFE_CAST",
    }
}

/// Canonical text for `expr` at `depth` levels of nesting, placed as `enclosure` says.
///
/// Refuses to walk deeper than `MAX_EXPR_DEPTH` levels, so a hostile tree cannot exhaust the
/// stack.
pub fn normalize_expr_inner(
    expr: &Expr,
    depth: usize,
    enclosure: Enclosure,
    context: &Canonicalizer,
) -> (r: Result<Vec<char>, CanonicalizeError>)
    ensures
        outcome(r) == canon(*expr, depth as int, enclosure, *context),
    decreases *expr, 2int,
{
    if depth > MAX_EXPR_DEPTH {
        return Err(CanonicalizeError::TooDeep { limit: MAX_EXPR_DEPTH });
    }
    let text = normalize_body(expr, depth, enclosure, context)?;
    if needs_parens_exec(expr, enclosure) {
        Ok(parenthesize(&text))
    } else {
        Ok(text)
    }
}

/// Canonical text for `expr` before any enclosing parentheses.
fn normalize_body(expr: &Expr, depth: usize, enclosure: Enclosure, context: &Canonicalizer) -> (r:
    Result<Vec<char>, CanonicalizeError>)
    requires
        depth <= MAX_EXPR_DEPTH,
    ensures
        outcome(r) == canon_body(*expr, depth as int, enclosure, *context),
    decreases *expr, 1int,
{
    match expr {
        Expr::BinaryOp { .. } | Expr::IsDistinctFrom(..) | Expr::IsNotDistinctFrom(..)
        | Expr::UnaryOp { .. } => operator_form_text(expr, depth, enclosure, context),
        Expr::Postfix { .. } | Expr::IsJson { .. } | Expr::IsNormalized { .. } | Expr::InList { .. }
        | Expr::InSubquery { .. } | Expr::Exists { .. } | Expr::Subquery(_) | Expr::Between { .. }
        | Expr::MemberOf { .. } | Expr::AtTimeZone { .. } | Expr::Collate { .. } => test_form_text(
            expr,
            depth,
            enclosure,
            context,
        ),
        Expr::Like { .. } | Expr::ILike { .. } | Expr::SimilarTo { .. } | Expr::RLike { .. }
        | Expr::AnyOp { .. } | Expr::AllOp { .. } => pattern_form_text(expr, depth, enclosure, context),
        Expr::Function(_) | Expr::Cast { .. } | Expr::Convert { .. } | Expr::Extract { .. }
        | Expr::Ceil { .. } | Expr::Floor { .. } => call_form_text(expr, depth, enclosure, context),
        Expr::Position { .. } | Expr::Substring { .. } | Expr::Trim { .. } | Expr::Overlay { .. } => {
            string_form_text(expr, depth, enclosure, context)
        },
        Expr::Nested(inner) => normalize_expr_inner(inner, depth + 1, enclosure, context),
        _ => other_form_text(expr, depth, enclosure, context),
    }
}

/// Canonical text for an operator application.
fn operator_form_text(expr: &Expr, depth: usize, enclosure: Enclosure, context: &Canonicalizer) -> (r:
    Result<Vec<char>, CanonicalizeError>)
    requires
        depth <= MAX_EXPR_DEPTH,
        expr is BinaryOp || expr is IsDistinctFrom || expr is IsNotDistinctFrom || expr is UnaryOp,
    ensures
        outcome(r) == canon_body(*expr, depth as int, enclosure, *context),
    decreases *expr, 0int,
{
    let d = depth + 1;
    match expr {
        Expr::BinaryOp { left, op, right } => match op {
            BinaryOperator::And | BinaryOperator::Or => {
                let conjunction = match op {
                    BinaryOperator::And => true,
                    _ => false,
                };
                let mut a = chain_exec(left, conjunction, depth, context)?;
                let mut b = chain_exec(right, conjunction, depth, context)?;
                let ghost va = views(a@);
                let ghost vb = views(b@);
                a.append(&mut b);
                assert(views(a@) =~= va + vb);
                let sorted = sort_texts_exec(a);
                let operator = if conjunction {
                    "AND"
                } else {
                    "OR"
                };
                Ok(fold_chain_exec(&sorted, operator))
            },
            _ => {
                let operator = operator_text(op)?;
                let order = operand_order_exec(op);
                infix_text(
                    normalize_expr_inner(left, d, Enclosure::Operand, context),
                    &operator,
                    normalize_expr_inner(right, d, Enclosure::Operand, context),
                    order,
                )
            },
        },
        Expr::IsDistinctFrom(left, right) => infix_text(
            normalize_expr_inner(left, d, Enclosure::Operand, context),
            &chars_of("IS DISTINCT FROM"),
            normalize_expr_inner(right, d, Enclosure::Operand, context),
            OperandOrder::Sorted,
        ),
        Expr::IsNotDistinctFrom(left, right) => infix_text(
            normalize_expr_inner(left, d, Enclosure::Operand, context),
            &chars_of("IS NOT DISTINCT FROM"),
            normalize_expr_inner(right, d, Enclosure::Operand, context),
            OperandOrder::Sorted,
        ),
        Expr::UnaryOp { op, expr: operand } => {
            let mut operator = unary_operator_text(op)?;
            push_str(&mut operator, " ");
            cat_exec(Ok(operator), normalize_expr_inner(operand, d, Enclosure::Operand, context))
        },
        _ => {
            proof {
                assert(false);
            }
            Err(unsupported_str("unreachable"))
        },
    }
}

/// The error refusing a part of a subquery.
fn subquery_refused(part: &str) -> (e: CanonicalizeError)
    ensures
        e@ == subquery_refusal(part@),
{
    let mut message = chars_of(part);
    push_str(&mut message, " in a subquery is not supported");
    unsupported(&message)
}

/// An error in a prefix of a `SELECT` list is the error of the whole list.
proof fn lemma_projection_prefix_error(
    items: Seq<SelectItem>,
    k: int,
    depth: int,
    context: Canonicalizer,
)
    requires
        0 <= k <= items.len(),
        projection_check(items.subrange(0, k), depth, context) is Err,
    ensures
        projection_check(items, depth, context) == projection_check(
            items.subrange(0, k),
            depth,
            context,
        ),
    decreases items.len() - k,
{
    if k < items.len() {
        assert(items.subrange(0, k + 1).drop_last() == items.subrange(0, k));
        lemma_projection_prefix_error(items, k + 1, depth, context);
    } else {
        assert(items.subrange(0, k) == items);
    }
}

/// Checks the items of a subquery's `SELECT` list in order, stopping at the first refusal.
fn check_projection(items: &Vec<SelectItem>, depth: usize, context: &Canonicalizer) -> (r: Result<
    (),
    CanonicalizeError,
>)
    ensures
        match r {
            Ok(_) => projection_check(items@, depth as int, *context) is Ok,
            Err(e) => projection_check(items@, depth as int, *context) == Err::<(), ErrorView>(e@),
        },
    decreases *items, 3int,
{
    let mut i: usize = 0;
    assert(items@.subrange(0, 0) =~= Seq::<SelectItem>::empty());
    while i < items.len()
        invariant
            i <= items.len(),
            projection_check(items@.subrange(0, i as int), depth as int, *context) is Ok,
        decreases items.len() - i,
    {
        proof {
            assert(decreases_to!(*items => items@));
            assert(decreases_to!(items@ => items@[i as int]));
        }
        let ghost prefix = items@.subrange(0, i + 1);
        assert(prefix.drop_last() =~= items@.subrange(0, i as int));
        assert(prefix.last() == items@[i as int]);
        let step: Result<(), CanonicalizeError> = match &items[i] {
            SelectItem::Expr(e) => match normalize_expr_inner(e, depth, Enclosure::Bare, context) {
                Ok(_) => Ok(()),
                Err(x) => Err(x),
            },
            SelectItem::Wildcard => Ok(()),
            SelectItem::Other => Err(subquery_refused("an alias or qualified wildcard")),
        };
        match step {
            Err(x) => {
                proof {
                    lemma_projection_prefix_error(items@, i + 1, depth as int, *context);
                }
                return Err(x);
            },
            Ok(_) => {},
        }
        i = i + 1;
    }
    assert(items@.subrange(0, items.len() as int) =~= items@);
    Ok(())
}

/// An error in a prefix of a table name's parts is the error of the whole name.
proof fn lemma_table_name_prefix_error(parts: Seq<ObjectNamePart>, k: int, context: Canonicalizer)
    requires
        0 <= k <= parts.len(),
        table_name_check(parts.subrange(0, k), context) is Err,
    ensures
        table_name_check(parts, context) == table_name_check(parts.subrange(0, k), context),
    decreases parts.len() - k,
{
    if k < parts.len() {
        assert(parts.subrange(0, k + 1).drop_last() == parts.subrange(0, k));
        lemma_table_name_prefix_error(parts, k + 1, context);
    } else {
        assert(parts.subrange(0, k) == parts);
    }
}

/// Checks the parts of a subquery's table name in order, stopping at the first refusal.
fn check_table_name(name: &ObjectName, context: &Canonicalizer) -> (r: Result<(), CanonicalizeError>)
    ensures
        match r {
            Ok(_) => table_name_check(name.parts@, *context) is Ok,
            Err(e) => table_name_check(name.parts@, *context) == Err::<(), ErrorView>(e@),
        },
{
    let parts = &name.parts;
    let mut i: usize = 0;
    assert(parts@.subrange(0, 0) =~= Seq::<ObjectNamePart>::empty());
    while i < parts.len()
        invariant
            i <= parts.len(),
            parts == &name.parts,
            table_name_check(parts@.subrange(0, i as int), *context) is Ok,
        decreases parts.len() - i,
    {
        let ghost prefix = parts@.subrange(0, i + 1);
        assert(prefix.drop_last() =~= parts@.subrange(0, i as int));
        assert(prefix.last() == parts@[i as int]);
        let step: Result<(), CanonicalizeError> = match &parts[i] {
            ObjectNamePart::Identifier(id) => match identifier_text(
                id,
                context.qualifier_folding,
                NamePlace::Operand,
                context,
            ) {
                Ok(_) => Ok(()),
                Err(x) => Err(x),
            },
            ObjectNamePart::Computed(_) => Err(subquery_refused("a computed table name")),
        };
        match step {
            Err(x) => {
                proof {
                    lemma_table_name_prefix_error(parts@, i + 1, *context);
                }
                return Err(x);
            },
            Ok(_) => {},
        }
        i = i + 1;
    }
    assert(parts@.subrange(0, parts.len() as int) =~= parts@);
    Ok(())
}

/// A subquery as the parser prints it, once its shape, its items, its table name and its
/// filter are found fit for a predicate.
fn subquery_text(sub: &Subquery, depth: usize, context: &Canonicalizer) -> (r: Result<
    Vec<char>,
    CanonicalizeError,
>)
    ensures
        outcome(r) == subquery_spelling(*sub, depth as int, *context),
    decreases *sub, 3int,
{
    let _ = single_table_select(&sub.query, true)?;
    if sub.order_by {
        return Err(subquery_refused("ORDER BY"));
    }
    if sub.group_by {
        return Err(subquery_refused("GROUP BY"));
    }
    if sub.having {
        return Err(subquery_refused("HAVING"));
    }
    if sub.table_options {
        return Err(subquery_refused("a table alias or table option"));
    }
    if sub.table_hints {
        return Err(subquery_refused("a table hint"));
    }
    check_projection(&sub.projection, depth, context)?;
    check_table_name(&sub.table_name, context)?;
    match &sub.query.body {
        SetExpr::Select(select) => match &select.selection {
            Some(filter) => {
                normalize_expr_inner(filter, depth, Enclosure::Bare, context)?;
            },
            None => {},
        },
        SetExpr::Other => {},
    }
    Ok(chars_of(sub.text.as_str()))
}

/// Canonical text for a test or a form with a suffix.
#[verifier::rlimit(50)]
fn test_form_text(expr: &Expr, depth: usize, enclosure: Enclosure, context: &Canonicalizer) -> (r:
    Result<Vec<char>, CanonicalizeError>)
    requires
        depth <= MAX_EXPR_DEPTH,
        expr is Postfix || expr is IsJson || expr is IsNormalized || expr is InList
            || expr is InSubquery || expr is Exists || expr is Subquery || expr is Between
            || expr is MemberOf || expr is AtTimeZone || expr is Collate,
    ensures
        outcome(r) == canon_body(*expr, depth as int, enclosure, *context),
    decreases *expr, 0int,
{
    let d = depth + 1;
    match expr {
        Expr::Postfix { operand, test } => {
            let mut suffix = chars_of(" ");
            push_str(&mut suffix, postfix_suffix_str(*test));
            cat_exec(normalize_expr_inner(operand, d, Enclosure::TestOperand, context), Ok(suffix))
        },
        Expr::IsJson { expr: operand, kind, unique_keys, negated } => {
            let mut suffix = chars_of(" ");
            push_str(&mut suffix, "IS ");
            push_not(&mut suffix, *negated);
            push_str(&mut suffix, "JSON");
            push_optional(&mut suffix, " ", kind);
            push_optional(&mut suffix, " ", unique_keys);
            assert(suffix@ =~= " "@ + json_suffix(*kind, *unique_keys, *negated));
            cat_exec(normalize_expr_inner(operand, d, Enclosure::TestOperand, context), Ok(suffix))
        },
        Expr::IsNormalized { expr: operand, form, negated } => {
            let mut suffix = chars_of(" ");
            push_str(&mut suffix, "IS ");
            push_not(&mut suffix, *negated);
            match form {
                Some(f) => {
                    push_str(&mut suffix, f.as_str());
                    push_str(&mut suffix, " NORMALIZED");
                },
                None => {
                    push_str(&mut suffix, "NORMALIZED");
                },
            }
            assert(suffix@ =~= " "@ + normalized_suffix(*form, *negated));
            cat_exec(normalize_expr_inner(operand, d, Enclosure::TestOperand, context), Ok(suffix))
        },
        Expr::InList { expr: operand, list, negated } => {
            let items = normalize_list(list, d, Enclosure::Operand, context)?;
            let sorted = sort_texts_exec(items);
            let mut tail = chars_of(" ");
            push_not(&mut tail, *negated);
            push_str(&mut tail, "IN (");
            push_text(&mut tail, &join_texts(&sorted, ", "));
            push_str(&mut tail, ")");
            cat_exec(normalize_expr_inner(operand, d, Enclosure::Operand, context), Ok(tail))
        },
        Expr::InSubquery { expr: operand, subquery, negated } => {
            let mut open = chars_of(" ");
            push_not(&mut open, *negated);
            push_str(&mut open, "IN (");
            cat_exec(
                normalize_expr_inner(operand, d, Enclosure::Operand, context),
                cat_exec(cat_exec(Ok(open), subquery_text(subquery, d, context)), lit(")")),
            )
        },
        Expr::Exists { subquery, negated } => {
            let mut open: Vec<char> = Vec::new();
            push_not(&mut open, *negated);
            push_str(&mut open, "EXISTS (");
            assert(open@ =~= not_word(*negated) + "EXISTS ("@);
            cat_exec(cat_exec(Ok(open), subquery_text(subquery, d, context)), lit(")"))
        },
        Expr::Subquery(subquery) => match subquery_text(subquery, d, context) {
            Err(x) => Err(x),
            Ok(t) => Ok(parenthesize(&t)),
        },
        Expr::Between { expr: operand, negated, low, high } => {
            let mut middle = chars_of(" ");
            push_not(&mut middle, *negated);
            push_str(&mut middle, "BETWEEN ");
            cat_exec(
                cat_exec(
                    cat_exec(normalize_expr_inner(operand, d, Enclosure::Operand, context), Ok(middle)),
                    normalize_expr_inner(low, d, Enclosure::Operand, context),
                ),
                cat_exec(lit(" AND "), normalize_expr_inner(high, d, Enclosure::Operand, context)),
            )
        },
        Expr::MemberOf { value, array } => cat_exec(
            cat_exec(normalize_expr_inner(value, d, Enclosure::Operand, context), lit(" MEMBER OF(")),
            cat_exec(normalize_expr_inner(array, d, Enclosure::Bare, context), lit(")")),
        ),
        Expr::AtTimeZone { timestamp, time_zone } => cat_exec(
            cat_exec(
                normalize_expr_inner(timestamp, d, Enclosure::Operand, context),
                lit(" AT TIME ZONE "),
            ),
            normalize_expr_inner(time_zone, d, Enclosure::Operand, context),
        ),
        Expr::Collate { expr: operand, collation } => {
            let mut tail = chars_of(" COLLATE ");
            push_str(&mut tail, collation.as_str());
            cat_exec(normalize_expr_inner(operand, d, Enclosure::Operand, context), Ok(tail))
        },
        _ => {
            proof {
                assert(false);
            }
            Err(unsupported_str("unreachable"))
        },
    }
}

/// ` operator ` for a pattern match, such as ` NOT LIKE `.
fn match_infix(negated: bool, operator: &str) -> (r: Vec<char>)
    ensures
        r@ == " "@ + match_word(negated, operator@) + " "@,
{
    let mut text = chars_of(" ");
    let word = match_operator(negated, operator);
    push_str(&mut text, word.as_str());
    push_str(&mut text, " ");
    text
}

/// Canonical text for a pattern match or a quantified comparison.
fn pattern_form_text(expr: &Expr, depth: usize, enclosure: Enclosure, context: &Canonicalizer) -> (r:
    Result<Vec<char>, CanonicalizeError>)
    requires
        depth <= MAX_EXPR_DEPTH,
        expr is Like || expr is ILike || expr is SimilarTo || expr is RLike || expr is AnyOp
            || expr is AllOp,
    ensures
        outcome(r) == canon_body(*expr, depth as int, enclosure, *context),
    decreases *expr, 0int,
{
    let d = depth + 1;
    match expr {
        Expr::Like { negated, any, expr: subject, pattern, escape_char } => {
            let pattern_text = if *any {
                cat_exec(lit("ANY "), argument_text(pattern, depth, context))
            } else {
                normalize_expr_inner(pattern, d, Enclosure::Operand, context)
            };
            cat_exec(
                cat_exec(
                    cat_exec(
                        normalize_expr_inner(subject, d, Enclosure::Operand, context),
                        Ok(match_infix(*negated, "LIKE")),
                    ),
                    pattern_text,
                ),
                escape_text(escape_char, depth, context),
            )
        },
        Expr::ILike { negated, any, expr: subject, pattern, escape_char } => {
            let pattern_text = if *any {
                cat_exec(lit("ANY "), argument_text(pattern, depth, context))
            } else {
                normalize_expr_inner(pattern, d, Enclosure::Operand, context)
            };
            cat_exec(
                cat_exec(
                    cat_exec(
                        normalize_expr_inner(subject, d, Enclosure::Operand, context),
                        Ok(match_infix(*negated, "ILIKE")),
                    ),
                    pattern_text,
                ),
                escape_text(escape_char, depth, context),
            )
        },
        Expr::SimilarTo { negated, expr: subject, pattern, escape_char } => cat_exec(
            cat_exec(
                cat_exec(
                    normalize_expr_inner(subject, d, Enclosure::Operand, context),
                    Ok(match_infix(*negated, "SIMILAR TO")),
                ),
                normalize_expr_inner(pattern, d, Enclosure::Operand, context),
            ),
            escape_text(escape_char, depth, context),
        ),
        Expr::RLike { negated, expr: subject, pattern, regexp } => {
            let word = if *regexp {
                "REGEXP"
            } else {
                "RLIKE"
            };
            cat_exec(
                cat_exec(
                    normalize_expr_inner(subject, d, Enclosure::Operand, context),
                    Ok(match_infix(*negated, word)),
                ),
                normalize_expr_inner(pattern, d, Enclosure::PatternOperand, context),
            )
        },
        Expr::AnyOp { left, compare_op, right } => cat_exec(
            cat_exec(
                cat_exec(normalize_expr_inner(left, d, Enclosure::Operand, context), lit(" ")),
                operator_text(compare_op),
            ),
            cat_exec(lit(" ANY"), argument_text(right, depth, context)),
        ),
        Expr::AllOp { left, compare_op, right } => cat_exec(
            cat_exec(
                cat_exec(normalize_expr_inner(left, d, Enclosure::Operand, context), lit(" ")),
                operator_text(compare_op),
            ),
            cat_exec(lit(" ALL"), argument_text(right, depth, context)),
        ),
        _ => {
            proof {
                assert(false);
            }
            Err(unsupported_str("unreachable"))
        },
    }
}

/// Canonical text for a call or a form spelled like one.
#[verifier::rlimit(50)]
fn call_form_text(expr: &Expr, depth: usize, enclosure: Enclosure, context: &Canonicalizer) -> (r:
    Result<Vec<char>, CanonicalizeError>)
    requires
        depth <= MAX_EXPR_DEPTH,
        expr is Function || expr is Cast || expr is Convert || expr is Extract || expr is Ceil
            || expr is Floor,
    ensures
        outcome(r) == canon_body(*expr, depth as int, enclosure, *context),
    decreases *expr, 0int,
{
    let d = depth + 1;
    match expr {
        Expr::Function(function) => function_text(function),
        Expr::Cast { kind, expr: operand, data_type, has_format } => {
            if *has_format {
                return Err(unsupported_str("CAST with FORMAT is not supported"));
            }
            let mut text = chars_of(cast_word_str(*kind));
            push_str(&mut text, "(");
            push_str(&mut text, operand.as_str());
            push_str(&mut text, " AS ");
            push_str(&mut text, data_type.as_str());
            push_str(&mut text, ")");
            assert(text@ =~= cast_word(*kind) + "("@ + operand@ + " AS "@ + data_type@ + ")"@);
            Ok(text)
        },
        Expr::Convert {
            is_try,
            expr: operand,
            data_type,
            charset,
            target_before_value,
            has_styles,
        } => {
            if *target_before_value || *has_styles {
                return Err(unsupported_str("CONVERT with the type first is not supported"));
            }
            let mut target = convert_target_text(data_type, charset)?;
            push_str(&mut target, ")");
            let head = if *is_try {
                "TRY_CONVERT("
            } else {
                "CONVERT("
            };
            cat_exec(
                cat_exec(lit(head), normalize_expr_inner(operand, d, Enclosure::Bare, context)),
                Ok(target),
            )
        },
        Expr::Extract { field, syntax, expr: operand } => {
            let x = normalize_expr_inner(operand, d, Enclosure::Bare, context)?;
            let mut text = chars_of("EXTRACT(");
            push_str(&mut text, field.as_str());
            match syntax {
                ExtractSyntax::From => push_str(&mut text, " FROM "),
                ExtractSyntax::Comma => push_str(&mut text, ", "),
            }
            push_text(&mut text, &x);
            push_str(&mut text, ")");
            Ok(text)
        },
        Expr::Ceil { expr: operand, field } => rounding_text(
            "CEIL",
            normalize_expr_inner(operand, d, Enclosure::Bare, context),
            field,
        ),
        Expr::Floor { expr: operand, field } => rounding_text(
            "FLOOR",
            normalize_expr_inner(operand, d, Enclosure::Bare, context),
            field,
        ),
        _ => {
            proof {
                assert(false);
            }
            Err(unsupported_str("unreachable"))
        },
    }
}

/// Canonical text for a string function with keywords between its arguments.
#[verifier::rlimit(50)]
fn string_form_text(expr: &Expr, depth: usize, enclosure: Enclosure, context: &Canonicalizer) -> (r:
    Result<Vec<char>, CanonicalizeError>)
    requires
        depth <= MAX_EXPR_DEPTH,
        expr is Position || expr is Substring || expr is Trim || expr is Overlay,
    ensures
        outcome(r) == canon_body(*expr, depth as int, enclosure, *context),
    decreases *expr, 0int,
{
    let d = depth + 1;
    match expr {
        Expr::Position { expr: operand, in_expr } => cat_exec(
            cat_exec(lit("POSITION("), normalize_expr_inner(operand, d, Enclosure::Operand, context)),
            cat_exec(
                cat_exec(lit(" IN "), normalize_expr_inner(in_expr, d, Enclosure::Bare, context)),
                lit(")"),
            ),
        ),
        Expr::Substring { expr: operand, substring_from, substring_for, special, shorthand } => {
            let name = if *shorthand {
                "SUBSTR("
            } else {
                "SUBSTRING("
            };
            let from = if *special {
                ", "
            } else {
                " FROM "
            };
            let length = if *special {
                ", "
            } else {
                " FOR "
            };
            cat_exec(
                cat_exec(
                    cat_exec(lit(name), normalize_expr_inner(operand, d, Enclosure::Bare, context)),
                    cat_exec(
                        optional_part(from, substring_from, depth, context),
                        optional_part(length, substring_for, depth, context),
                    ),
                ),
                lit(")"),
            )
        },
        Expr::Trim { trim_where, trim_what, expr: operand, trim_characters } => {
            let mut head = chars_of("TRIM(");
            match trim_where {
                Some(w) => {
                    push_str(&mut head, w.as_str());
                    push_str(&mut head, " ");
                },
                None => {},
            }
            assert(head@ =~= "TRIM("@ + match *trim_where {
                Some(w) => w@ + " "@,
                None => Seq::<char>::empty(),
            });
            let characters = match trim_characters {
                Some(items) => match normalize_list(items, d, Enclosure::Bare, context) {
                    Err(e) => Err(e),
                    Ok(texts) => {
                        let mut t = chars_of(", ");
                        push_text(&mut t, &join_texts(&texts, ", "));
                        Ok(t)
                    },
                },
                None => Ok(Vec::new()),
            };
            cat_exec(
                cat_exec(
                    cat_exec(Ok(head), trim_what_text(trim_what, depth, context)),
                    normalize_expr_inner(operand, d, Enclosure::Bare, context),
                ),
                cat_exec(characters, lit(")")),
            )
        },
        Expr::Overlay { expr: operand, overlay_what, overlay_from, overlay_for } => cat_exec(
            cat_exec(
                cat_exec(
                    cat_exec(
                        cat_exec(
                            cat_exec(
                                lit("OVERLAY("),
                                normalize_expr_inner(operand, d, Enclosure::Bare, context),
                            ),
                            lit(" PLACING "),
                        ),
                        normalize_expr_inner(overlay_what, d, Enclosure::Bare, context),
                    ),
                    lit(" FROM "),
                ),
                normalize_expr_inner(overlay_from, d, Enclosure::Bare, context),
            ),
            cat_exec(optional_part(" FOR ", overlay_for, depth, context), lit(")")),
        ),
        _ => {
            proof {
                assert(false);
            }
            Err(unsupported_str("unreachable"))
        },
    }
}

/// Canonical text for a name, a literal, a constructor or any form not grouped above.
fn other_form_text(expr: &Expr, depth: usize, enclosure: Enclosure, context: &Canonicalizer) -> (r:
    Result<Vec<char>, CanonicalizeError>)
    requires
        depth <= MAX_EXPR_DEPTH,
        expr is Case || expr is Tuple || expr is Array || expr is Interval || expr is TypedString
            || expr is Prefixed || expr is CompoundFieldAccess || expr is MatchAgainst
            || expr is Identifier || expr is CompoundIdentifier || expr is Value
            || expr is JsonAccess || expr is Refused,
    ensures
        outcome(r) == canon_body(*expr, depth as int, enclosure, *context),
    decreases *expr, 0int,
{
    let d = depth + 1;
    match expr {
        Expr::Case(text) => Ok(chars_of(text.as_str())),
        Expr::Tuple(items) => {
            let texts = normalize_list(items, d, Enclosure::Bare, context)?;
            Ok(parenthesize(&join_texts(&texts, ", ")))
        },
        Expr::Array { named, elem } => {
            let texts = normalize_list(elem, d, Enclosure::Bare, context)?;
            let mut text = if *named {
                chars_of("ARRAY[")
            } else {
                chars_of("[")
            };
            push_text(&mut text, &join_texts(&texts, ", "));
            push_str(&mut text, "]");
            Ok(text)
        },
        Expr::Interval(interval) => interval_text(interval, depth, context),
        Expr::TypedString { data_type, value, uses_odbc_syntax } => {
            if *uses_odbc_syntax {
                return Err(unsupported_str("ODBC escape literals are not supported"));
            }
            let v = literal_text(value)?;
            let mut text = chars_of(data_type.as_str());
            push_str(&mut text, " ");
            push_text(&mut text, &v);
            Ok(text)
        },
        Expr::Prefixed { prefix, value } => {
            let mut head = chars_of(prefix.as_str());
            push_str(&mut head, " ");
            cat_exec(Ok(head), normalize_expr_inner(value, d, Enclosure::Operand, context))
        },
        Expr::CompoundFieldAccess { root, access_chain } => cat_exec(
            root_text(root, depth, context),
            access_text(access_chain, depth, context),
        ),
        Expr::MatchAgainst { columns, match_value, opt_search_modifier } => {
            let names = column_texts(columns, context)?;
            let value = literal_text(match_value)?;
            let mut text = chars_of("MATCH (");
            push_text(&mut text, &join_texts(&names, ", "));
            push_str(&mut text, ") AGAINST (");
            push_text(&mut text, &value);
            push_optional(&mut text, " ", opt_search_modifier);
            push_str(&mut text, ")");
            Ok(text)
        },
        Expr::Identifier(name) => identifier_text(name, context.folding, NamePlace::Operand, context),
        Expr::CompoundIdentifier(parts) => qualified_name_text(parts, NamePlace::Operand, context),
        Expr::Value(value) => literal_text(value),
        Expr::JsonAccess => Err(unsupported_str("JSON path access is not supported")),
        Expr::Refused(form) => Err(refused(refused_form_str(*form))),
        _ => {
            proof {
                assert(false);
            }
            Err(unsupported_str("unreachable"))
        },
    }
}

} // verus!
