//! Spellings of one predicate that differ only in ways the dialect ignores get one text.
//!
//! A predicate built from names, literals, parentheses and operators may be respelled one
//! step at a time, anywhere inside it: parentheses added or dropped, a name's letter case
//! changed where the dialect folds it, the operands of `AND`, `OR`, `=`, `!=`, `<=>` and
//! `IS [NOT] DISTINCT FROM` swapped, an `AND` or `OR` chain regrouped. Keyword case, `<>` for
//! `!=` and `SOME` for `ANY` are gone once the parser has read the SQL, so the plain values
//! the library reads do not differ in them at all.

use vstd::prelude::*;
use vstd::seq_lib::{lemma_multiset_commutative, lemma_seq_union_to_multiset_commutative};

use crate::ast::{BinaryOperator, Expr, Ident};
use crate::context::{Canonicalizer, Folding, NamePlace};
use crate::error::ErrorView;
use crate::names::{all_ascii, eq_ignore_case, identifier_spelling, lower_text, upper_text};
use crate::order::{lemma_lex_asymmetric, lemma_lex_total, lemma_sort_ignores_order};
use crate::spec::{
    canon, canon_body, cat, chain_texts, fold_chain, infix, literal_spelling, needs_parens,
    operand_order, operator_spelling, parenthesized, unary_spelling, Enclosure, OperandOrder,
};
use crate::text::sort_texts;

verus! {

/// Whether the predicate is built from names, literals, parentheses and operators alone.
pub open spec fn operator_form(e: Expr) -> bool
    decreases e,
{
    match e {
        Expr::Identifier(_) | Expr::Value(_) => true,
        Expr::Nested(inner) => operator_form(*inner),
        Expr::UnaryOp { expr, .. } => operator_form(*expr),
        Expr::BinaryOp { left, right, .. } => operator_form(*left) && operator_form(*right),
        Expr::IsDistinctFrom(left, right) => operator_form(*left) && operator_form(*right),
        Expr::IsNotDistinctFrom(left, right) => operator_form(*left) && operator_form(*right),
        _ => false,
    }
}

/// Two spellings of one name that the dialect resolves alike: quoted alike, in ASCII, and
/// equal but for the case of letters, where the dialect folds that case away.
pub open spec fn names_alike(a: Ident, b: Ident, context: Canonicalizer) -> bool {
    &&& a.quote_style == b.quote_style
    &&& all_ascii(a.value@)
    &&& all_ascii(b.value@)
    &&& eq_ignore_case(a.value@, b.value@)
    &&& (context.folding == Folding::CaseInsensitive || (a.quote_style is None && (
    context.folding == Folding::LowerUnquoted || context.folding == Folding::UpperUnquoted)))
}

/// `(x op y) op z` regrouped as `x op (y op z)`, for `AND` or `OR`.
pub open spec fn regrouped(a: Expr, b: Expr) -> bool {
    match a {
        Expr::BinaryOp { left, op, right } => (op is And || op is Or) && match *left {
            Expr::BinaryOp { left: x, op: inner, right: y } => inner == op && b
                == Expr::BinaryOp {
                left: x,
                op: op,
                right: Box::new(Expr::BinaryOp { left: y, op: op, right: right }),
            },
            _ => false,
        },
        _ => false,
    }
}

/// `b` is `a` with its operands swapped, where their order carries no meaning.
pub open spec fn swapped(a: Expr, b: Expr) -> bool {
    match a {
        Expr::BinaryOp { left, op, right } => operand_order(op) == OperandOrder::Sorted && b
            == Expr::BinaryOp { left: right, op: op, right: left },
        Expr::IsDistinctFrom(left, right) => b == Expr::IsDistinctFrom(right, left),
        Expr::IsNotDistinctFrom(left, right) => b == Expr::IsNotDistinctFrom(right, left),
        _ => false,
    }
}

/// One respelling at the top of `a` gives `b`.
pub open spec fn respelled(a: Expr, b: Expr, context: Canonicalizer) -> bool {
    ||| b == Expr::Nested(Box::new(a))
    ||| a == Expr::Nested(Box::new(b))
    ||| swapped(a, b)
    ||| regrouped(a, b)
    ||| regrouped(b, a)
    ||| (a matches Expr::Identifier(x) && b matches Expr::Identifier(y) && names_alike(
        x,
        y,
        context,
    ))
}

/// One respelling at the top of `a` or anywhere inside it gives `b`.
pub open spec fn respelled_within(a: Expr, b: Expr, context: Canonicalizer) -> bool
    decreases a,
{
    respelled(a, b, context) || match a {
        Expr::Nested(x) => match b {
            Expr::Nested(y) => respelled_within(*x, *y, context),
            _ => false,
        },
        Expr::UnaryOp { op, expr } => match b {
            Expr::UnaryOp { op: op2, expr: expr2 } => op2 == op && respelled_within(
                *expr,
                *expr2,
                context,
            ),
            _ => false,
        },
        Expr::BinaryOp { left, op, right } => match b {
            Expr::BinaryOp { left: left2, op: op2, right: right2 } => op2 == op && ((
            respelled_within(*left, *left2, context) && right2 == right) || (left2 == left
                && respelled_within(*right, *right2, context))),
            _ => false,
        },
        Expr::IsDistinctFrom(left, right) => match b {
            Expr::IsDistinctFrom(left2, right2) => (respelled_within(*left, *left2, context)
                && right2 == right) || (left2 == left && respelled_within(*right, *right2, context)),
            _ => false,
        },
        Expr::IsNotDistinctFrom(left, right) => match b {
            Expr::IsNotDistinctFrom(left2, right2) => (respelled_within(*left, *left2, context)
                && right2 == right) || (left2 == left && respelled_within(*right, *right2, context)),
            _ => false,
        },
        _ => false,
    }
}

/// Each spelling of the sequence is a respelling of the one before it.
pub open spec fn spelled_alike(spellings: Seq<Expr>, context: Canonicalizer) -> bool {
    forall|i: int|
        0 <= i < spellings.len() - 1 ==> respelled_within(
            #[trigger] spellings[i],
            spellings[i + 1],
            context,
        )
}

/// The canonical text of an operator form, which does not depend on how deep it stands.
spec fn form_text(e: Expr, enclosure: Enclosure, context: Canonicalizer) -> Result<
    Seq<char>,
    ErrorView,
>
    decreases e, 1int,
{
    match form_body(e, enclosure, context) {
        Err(x) => Err(x),
        Ok(t) => Ok(
            if needs_parens(e, enclosure) {
                parenthesized(t)
            } else {
                t
            },
        ),
    }
}

/// The text of an operator form before any enclosing parentheses.
spec fn form_body(e: Expr, enclosure: Enclosure, context: Canonicalizer) -> Result<
    Seq<char>,
    ErrorView,
>
    decreases e, 0int,
{
    match e {
        Expr::BinaryOp { left, op, right } => match op {
            BinaryOperator::And | BinaryOperator::Or => {
                let conjunction = op is And;
                match form_chain(*left, conjunction, context) {
                    Err(x) => Err(x),
                    Ok(a) => match form_chain(*right, conjunction, context) {
                        Err(x) => Err(x),
                        Ok(b) => Ok(
                            fold_chain(
                                sort_texts(a + b),
                                if conjunction {
                                    "AND"@
                                } else {
                                    "OR"@
                                },
                            ),
                        ),
                    },
                }
            },
            _ => match operator_spelling(op) {
                Err(x) => Err(x),
                Ok(o) => infix(
                    form_text(*left, Enclosure::Operand, context),
                    o,
                    form_text(*right, Enclosure::Operand, context),
                    operand_order(op),
                ),
            },
        },
        Expr::IsDistinctFrom(left, right) => infix(
            form_text(*left, Enclosure::Operand, context),
            "IS DISTINCT FROM"@,
            form_text(*right, Enclosure::Operand, context),
            OperandOrder::Sorted,
        ),
        Expr::IsNotDistinctFrom(left, right) => infix(
            form_text(*left, Enclosure::Operand, context),
            "IS NOT DISTINCT FROM"@,
            form_text(*right, Enclosure::Operand, context),
            OperandOrder::Sorted,
        ),
        Expr::UnaryOp { op, expr } => match unary_spelling(op) {
            Err(x) => Err(x),
            Ok(o) => cat(Ok(o + " "@), form_text(*expr, Enclosure::Operand, context)),
        },
        Expr::Nested(inner) => form_text(*inner, enclosure, context),
        Expr::Identifier(id) => identifier_spelling(
            id.value@,
            id.quote_style,
            context.folding,
            NamePlace::Operand,
            context.identifier_quote,
        ),
        Expr::Value(v) => literal_spelling(v.kind, v.text@),
        _ => Err(ErrorView::Unsupported(Seq::empty())),
    }
}

/// The texts of the operands of an `AND` (`conjunction`) or `OR` chain.
spec fn form_chain(e: Expr, conjunction: bool, context: Canonicalizer) -> Result<
    Seq<Seq<char>>,
    ErrorView,
>
    decreases e, 2int,
{
    match e {
        Expr::Nested(inner) => form_chain(*inner, conjunction, context),
        Expr::BinaryOp { left, op, right } => if (conjunction && op is And) || (!conjunction
            && op is Or) {
            match form_chain(*left, conjunction, context) {
                Err(x) => Err(x),
                Ok(a) => match form_chain(*right, conjunction, context) {
                    Err(x) => Err(x),
                    Ok(b) => Ok(a + b),
                },
            }
        } else {
            match form_text(e, Enclosure::Bare, context) {
                Err(x) => Err(x),
                Ok(t) => Ok(seq![t]),
            }
        },
        _ => match form_text(e, Enclosure::Bare, context) {
            Err(x) => Err(x),
            Ok(t) => Ok(seq![t]),
        },
    }
}

/// Where an operator form has canonical text at some depth, that text is its depth-free
/// text.
proof fn lemma_form_text(e: Expr, depth: int, enclosure: Enclosure, context: Canonicalizer)
    requires
        operator_form(e),
        canon(e, depth, enclosure, context) is Ok,
    ensures
        canon(e, depth, enclosure, context) == form_text(e, enclosure, context),
    decreases e, 1int,
{
    lemma_form_body(e, depth, enclosure, context);
}

proof fn lemma_form_body(e: Expr, depth: int, enclosure: Enclosure, context: Canonicalizer)
    requires
        operator_form(e),
        canon_body(e, depth, enclosure, context) is Ok,
    ensures
        canon_body(e, depth, enclosure, context) == form_body(e, enclosure, context),
    decreases e, 0int,
{
    let d = depth + 1;
    match e {
        Expr::BinaryOp { left, op, right } => {
            if op is And || op is Or {
                let conjunction = op is And;
                lemma_form_chain(*left, conjunction, depth, context);
                lemma_form_chain(*right, conjunction, depth, context);
            } else {
                lemma_form_text(*left, d, Enclosure::Operand, context);
                lemma_form_text(*right, d, Enclosure::Operand, context);
            }
        },
        Expr::IsDistinctFrom(left, right) => {
            lemma_form_text(*left, d, Enclosure::Operand, context);
            lemma_form_text(*right, d, Enclosure::Operand, context);
        },
        Expr::IsNotDistinctFrom(left, right) => {
            lemma_form_text(*left, d, Enclosure::Operand, context);
            lemma_form_text(*right, d, Enclosure::Operand, context);
        },
        Expr::UnaryOp { op, expr } => {
            lemma_form_text(*expr, d, Enclosure::Operand, context);
        },
        Expr::Nested(inner) => {
            lemma_form_text(*inner, d, enclosure, context);
        },
        _ => {},
    }
}

proof fn lemma_form_chain(e: Expr, conjunction: bool, depth: int, context: Canonicalizer)
    requires
        operator_form(e),
        chain_texts(e, conjunction, depth, context) is Ok,
    ensures
        chain_texts(e, conjunction, depth, context) == form_chain(e, conjunction, context),
    decreases e, 2int,
{
    match e {
        Expr::Nested(inner) => {
            lemma_form_chain(*inner, conjunction, depth, context);
        },
        Expr::BinaryOp { left, op, right } => {
            if (conjunction && op is And) || (!conjunction && op is Or) {
                lemma_form_chain(*left, conjunction, depth, context);
                lemma_form_chain(*right, conjunction, depth, context);
            } else {
                lemma_form_text(e, depth + 1, Enclosure::Bare, context);
            }
        },
        _ => {
            lemma_form_text(e, depth + 1, Enclosure::Bare, context);
        },
    }
}

/// Swapping the operands of a sorted infix gives the same text.
proof fn lemma_sorted_infix(
    left: Result<Seq<char>, ErrorView>,
    operator: Seq<char>,
    right: Result<Seq<char>, ErrorView>,
)
    requires
        left is Ok,
        right is Ok,
    ensures
        infix(left, operator, right, OperandOrder::Sorted) == infix(
            right,
            operator,
            left,
            OperandOrder::Sorted,
        ),
{
    lemma_lex_total(left->Ok_0, right->Ok_0);
    lemma_lex_asymmetric(left->Ok_0, right->Ok_0);
}

/// Two names the dialect resolves alike are spelled alike.
proof fn lemma_names_alike(a: Ident, b: Ident, context: Canonicalizer)
    requires
        names_alike(a, b, context),
    ensures
        identifier_spelling(
            a.value@,
            a.quote_style,
            context.folding,
            NamePlace::Operand,
            context.identifier_quote,
        ) == identifier_spelling(
            b.value@,
            b.quote_style,
            context.folding,
            NamePlace::Operand,
            context.identifier_quote,
        ),
{
    assert(lower_text(a.value@) =~= lower_text(b.value@));
    assert(upper_text(a.value@) =~= upper_text(b.value@));
}

/// The sorted, folded texts of two chains are one text where their operand texts hold the
/// same items, each as often.
proof fn lemma_chain_order(a: Seq<Seq<char>>, b: Seq<Seq<char>>, operator: Seq<char>)
    requires
        a.to_multiset() =~= b.to_multiset(),
    ensures
        fold_chain(sort_texts(a), operator) == fold_chain(sort_texts(b), operator),
{
    lemma_sort_ignores_order(a, b);
}

/// Whether the expression is a link of an `AND` (`conjunction`) or `OR` chain.
spec fn links(e: Expr, conjunction: bool) -> bool {
    match e {
        Expr::BinaryOp { op, .. } => (conjunction && op is And) || (!conjunction && op is Or),
        _ => false,
    }
}

/// A respelling of an operator form is an operator form.
proof fn lemma_respelled_form(a: Expr, b: Expr, context: Canonicalizer)
    requires
        operator_form(a),
        respelled_within(a, b, context),
    ensures
        operator_form(b),
    decreases a,
{
    if respelled(a, b, context) {
        if regrouped(a, b) {
            match a {
                Expr::BinaryOp { left, op, right } => match *left {
                    Expr::BinaryOp { left: x, op: _, right: y } => {
                        assert(operator_form(*left));
                        assert(operator_form(*x) && operator_form(*y) && operator_form(*right));
                        let inner = Expr::BinaryOp { left: y, op: op, right: right };
                        assert(operator_form(inner));
                    },
                    _ => {},
                },
                _ => {},
            }
        } else if regrouped(b, a) {
            match b {
                Expr::BinaryOp { left: bl, op, right: br } => match *bl {
                    Expr::BinaryOp { left: x, op: _, right: y } => {
                        let inner = Expr::BinaryOp { left: y, op: op, right: br };
                        assert(a == Expr::BinaryOp { left: x, op: op, right: Box::new(inner) });
                        assert(operator_form(*x) && operator_form(inner));
                        assert(operator_form(*y) && operator_form(*br));
                        assert(operator_form(*bl));
                    },
                    _ => {},
                },
                _ => {},
            }
        }
    } else {
        match a {
            Expr::Nested(x) => match b {
                Expr::Nested(y) => lemma_respelled_form(*x, *y, context),
                _ => {},
            },
            Expr::UnaryOp { op: _, expr } => match b {
                Expr::UnaryOp { op: _, expr: expr2 } => lemma_respelled_form(*expr, *expr2, context),
                _ => {},
            },
            Expr::BinaryOp { left, op: _, right } => match b {
                Expr::BinaryOp { left: left2, op: _, right: right2 } => {
                    if respelled_within(*left, *left2, context) && right2 == right {
                        lemma_respelled_form(*left, *left2, context);
                    } else {
                        lemma_respelled_form(*right, *right2, context);
                    }
                },
                _ => {},
            },
            Expr::IsDistinctFrom(left, right) => match b {
                Expr::IsDistinctFrom(left2, right2) => {
                    if respelled_within(*left, *left2, context) && right2 == right {
                        lemma_respelled_form(*left, *left2, context);
                    } else {
                        lemma_respelled_form(*right, *right2, context);
                    }
                },
                _ => {},
            },
            Expr::IsNotDistinctFrom(left, right) => match b {
                Expr::IsNotDistinctFrom(left2, right2) => {
                    if respelled_within(*left, *left2, context) && right2 == right {
                        lemma_respelled_form(*left, *left2, context);
                    } else {
                        lemma_respelled_form(*right, *right2, context);
                    }
                },
                _ => {},
            },
            _ => {},
        }
    }
}

/// One respelling at the top, other than parentheses, keeps an operator form's text.
proof fn lemma_top_respelling_text(a: Expr, b: Expr, enclosure: Enclosure, context: Canonicalizer)
    requires
        operator_form(a),
        respelled(a, b, context),
        b != Expr::Nested(Box::new(a)),
        a != Expr::Nested(Box::new(b)),
        form_text(a, enclosure, context) is Ok,
    ensures
        form_text(b, enclosure, context) == form_text(a, enclosure, context),
{
    match a {
        Expr::BinaryOp { left, op, right } => {
            if op is And || op is Or {
                let conjunction = op is And;
                let operator = if conjunction {
                    "AND"@
                } else {
                    "OR"@
                };
                if swapped(a, b) {
                    let x = form_chain(*left, conjunction, context)->Ok_0;
                    let y = form_chain(*right, conjunction, context)->Ok_0;
                    lemma_seq_union_to_multiset_commutative(x, y);
                    lemma_chain_order(x + y, y + x, operator);
                } else if regrouped(a, b) {
                    match *left {
                        Expr::BinaryOp { left: x, op: _, right: y } => {
                            let fx = form_chain(*x, conjunction, context)->Ok_0;
                            let fy = form_chain(*y, conjunction, context)->Ok_0;
                            let fz = form_chain(*right, conjunction, context)->Ok_0;
                            assert((fx + fy) + fz =~= fx + (fy + fz));
                        },
                        _ => {},
                    }
                } else {
                    assert(regrouped(b, a));
                    match b {
                        Expr::BinaryOp { left: bl, op: _, right: br } => {
                            match *bl {
                                Expr::BinaryOp { left: x, op: _, right: y } => {
                                    let fx = form_chain(*x, conjunction, context)->Ok_0;
                                    let fy = form_chain(*y, conjunction, context)->Ok_0;
                                    let fz = form_chain(*br, conjunction, context)->Ok_0;
                                    assert((fx + fy) + fz =~= fx + (fy + fz));
                                },
                                _ => {},
                            }
                        },
                        _ => {},
                    }
                }
            } else {
                match operator_spelling(op) {
                    Ok(o) => lemma_sorted_infix(
                        form_text(*left, Enclosure::Operand, context),
                        o,
                        form_text(*right, Enclosure::Operand, context),
                    ),
                    Err(_) => {},
                }
            }
        },
        Expr::IsDistinctFrom(left, right) => lemma_sorted_infix(
            form_text(*left, Enclosure::Operand, context),
            "IS DISTINCT FROM"@,
            form_text(*right, Enclosure::Operand, context),
        ),
        Expr::IsNotDistinctFrom(left, right) => lemma_sorted_infix(
            form_text(*left, Enclosure::Operand, context),
            "IS NOT DISTINCT FROM"@,
            form_text(*right, Enclosure::Operand, context),
        ),
        Expr::Identifier(x) => match b {
            Expr::Identifier(y) => lemma_names_alike(x, y, context),
            _ => {},
        },
        _ => {},
    }
}

/// A respelling keeps an operator form's text, wherever the form has one.
proof fn lemma_respelled_text(a: Expr, b: Expr, enclosure: Enclosure, context: Canonicalizer)
    requires
        operator_form(a),
        respelled_within(a, b, context),
        form_text(a, enclosure, context) is Ok,
    ensures
        form_text(b, enclosure, context) == form_text(a, enclosure, context),
    decreases a, 1int,
{
    if b == Expr::Nested(Box::new(a)) || a == Expr::Nested(Box::new(b)) {
    } else if respelled(a, b, context) {
        lemma_top_respelling_text(a, b, enclosure, context);
    } else {
        match a {
            Expr::Nested(x) => match b {
                Expr::Nested(y) => lemma_respelled_text(*x, *y, enclosure, context),
                _ => {},
            },
            Expr::UnaryOp { op: _, expr } => match b {
                Expr::UnaryOp { op: _, expr: expr2 } => lemma_respelled_text(
                    *expr,
                    *expr2,
                    Enclosure::Operand,
                    context,
                ),
                _ => {},
            },
            Expr::BinaryOp { left, op, right } => match b {
                Expr::BinaryOp { left: left2, op: _, right: right2 } => {
                    if op is And || op is Or {
                        let conjunction = op is And;
                        let operator = if conjunction {
                            "AND"@
                        } else {
                            "OR"@
                        };
                        let x = form_chain(*left, conjunction, context)->Ok_0;
                        let y = form_chain(*right, conjunction, context)->Ok_0;
                        lemma_multiset_commutative(x, y);
                        if respelled_within(*left, *left2, context) && right2 == right {
                            lemma_respelled_chain(*left, *left2, conjunction, context);
                            let x2 = form_chain(*left2, conjunction, context)->Ok_0;
                            lemma_multiset_commutative(x2, y);
                            lemma_chain_order(x + y, x2 + y, operator);
                        } else {
                            lemma_respelled_chain(*right, *right2, conjunction, context);
                            let y2 = form_chain(*right2, conjunction, context)->Ok_0;
                            lemma_multiset_commutative(x, y2);
                            lemma_chain_order(x + y, x + y2, operator);
                        }
                    } else if respelled_within(*left, *left2, context) && right2 == right {
                        lemma_respelled_text(*left, *left2, Enclosure::Operand, context);
                    } else {
                        lemma_respelled_text(*right, *right2, Enclosure::Operand, context);
                    }
                },
                _ => {},
            },
            Expr::IsDistinctFrom(left, right) => match b {
                Expr::IsDistinctFrom(left2, right2) => {
                    if respelled_within(*left, *left2, context) && right2 == right {
                        lemma_respelled_text(*left, *left2, Enclosure::Operand, context);
                    } else {
                        lemma_respelled_text(*right, *right2, Enclosure::Operand, context);
                    }
                },
                _ => {},
            },
            Expr::IsNotDistinctFrom(left, right) => match b {
                Expr::IsNotDistinctFrom(left2, right2) => {
                    if respelled_within(*left, *left2, context) && right2 == right {
                        lemma_respelled_text(*left, *left2, Enclosure::Operand, context);
                    } else {
                        lemma_respelled_text(*right, *right2, Enclosure::Operand, context);
                    }
                },
                _ => {},
            },
            _ => {},
        }
    }
}

/// A respelling of an expression that is no chain link and no parenthesized expression,
/// other than wrapping it in parentheses, is no chain link and no parenthesized expression
/// either.
proof fn lemma_leaf_kept(a: Expr, b: Expr, conjunction: bool, context: Canonicalizer)
    requires
        respelled_within(a, b, context),
        !(a is Nested),
        !links(a, conjunction),
        b != Expr::Nested(Box::new(a)),
    ensures
        !(b is Nested),
        !links(b, conjunction),
{
    if regrouped(b, a) {
        match b {
            Expr::BinaryOp { left: bl, op, right: br } => match *bl {
                Expr::BinaryOp { left: x, op: _, right: y } => {
                    assert(a == Expr::BinaryOp {
                        left: x,
                        op: op,
                        right: Box::new(Expr::BinaryOp { left: y, op: op, right: br }),
                    });
                },
                _ => {},
            },
            _ => {},
        }
    }
}

/// A respelling of a chain link at its top keeps the operand texts of the chain.
proof fn lemma_top_respelling_chain(a: Expr, b: Expr, conjunction: bool, context: Canonicalizer)
    requires
        links(a, conjunction),
        respelled(a, b, context),
        b != Expr::Nested(Box::new(a)),
        form_chain(a, conjunction, context) is Ok,
    ensures
        form_chain(b, conjunction, context) is Ok,
        form_chain(b, conjunction, context)->Ok_0.to_multiset() =~= form_chain(
            a,
            conjunction,
            context,
        )->Ok_0.to_multiset(),
{
    match a {
        Expr::BinaryOp { left, op, right } => {
            let x = form_chain(*left, conjunction, context)->Ok_0;
            let y = form_chain(*right, conjunction, context)->Ok_0;
            assert(form_chain(a, conjunction, context) == Ok::<Seq<Seq<char>>, ErrorView>(x + y));
            if swapped(a, b) {
                assert(form_chain(b, conjunction, context) == Ok::<Seq<Seq<char>>, ErrorView>(y + x));
                lemma_seq_union_to_multiset_commutative(x, y);
            } else if regrouped(a, b) {
                match *left {
                    Expr::BinaryOp { left: p, op: _, right: q } => {
                        let fp = form_chain(*p, conjunction, context)->Ok_0;
                        let fq = form_chain(*q, conjunction, context)->Ok_0;
                        assert(x == fp + fq);
                        let inner = Expr::BinaryOp { left: q, op: op, right: right };
                        assert(form_chain(inner, conjunction, context) == Ok::<
                            Seq<Seq<char>>,
                            ErrorView,
                        >(fq + y));
                        assert(form_chain(b, conjunction, context) == Ok::<
                            Seq<Seq<char>>,
                            ErrorView,
                        >(fp + (fq + y)));
                        assert((fp + fq) + y =~= fp + (fq + y));
                    },
                    _ => {},
                }
            } else {
                assert(regrouped(b, a));
                match b {
                    Expr::BinaryOp { left: bl, op: bop, right: br } => {
                        match *bl {
                            Expr::BinaryOp { left: p, op: _, right: q } => {
                                assert(a == Expr::BinaryOp {
                                    left: p,
                                    op: bop,
                                    right: Box::new(Expr::BinaryOp { left: q, op: bop, right: br }),
                                });
                                let fp = form_chain(*p, conjunction, context)->Ok_0;
                                assert(*right == Expr::BinaryOp { left: q, op: bop, right: br });
                                let fq = form_chain(*q, conjunction, context)->Ok_0;
                                let fr = form_chain(*br, conjunction, context)->Ok_0;
                                assert(y == fq + fr);
                                assert(form_chain(*bl, conjunction, context) == Ok::<
                                    Seq<Seq<char>>,
                                    ErrorView,
                                >(fp + fq));
                                assert(form_chain(b, conjunction, context) == Ok::<
                                    Seq<Seq<char>>,
                                    ErrorView,
                                >((fp + fq) + fr));
                                assert((fp + fq) + fr =~= fp + (fq + fr));
                            },
                            _ => {},
                        }
                    },
                    _ => {},
                }
            }
        },
        _ => {},
    }
}

/// A respelling keeps the operand texts of a chain, each as often.
proof fn lemma_respelled_chain(a: Expr, b: Expr, conjunction: bool, context: Canonicalizer)
    requires
        operator_form(a),
        respelled_within(a, b, context),
        form_chain(a, conjunction, context) is Ok,
    ensures
        form_chain(b, conjunction, context) is Ok,
        form_chain(b, conjunction, context)->Ok_0.to_multiset() =~= form_chain(
            a,
            conjunction,
            context,
        )->Ok_0.to_multiset(),
    decreases a, 2int,
{
    if b == Expr::Nested(Box::new(a)) || a == Expr::Nested(Box::new(b)) {
    } else if a is Nested {
        match a {
            Expr::Nested(x) => match b {
                Expr::Nested(y) => lemma_respelled_chain(*x, *y, conjunction, context),
                _ => {},
            },
            _ => {},
        }
    } else if links(a, conjunction) {
        if respelled(a, b, context) {
            lemma_top_respelling_chain(a, b, conjunction, context);
        } else {
            match a {
                Expr::BinaryOp { left, op: _, right } => match b {
                    Expr::BinaryOp { left: left2, op: _, right: right2 } => {
                        let x = form_chain(*left, conjunction, context)->Ok_0;
                        let y = form_chain(*right, conjunction, context)->Ok_0;
                        lemma_multiset_commutative(x, y);
                        if respelled_within(*left, *left2, context) && right2 == right {
                            lemma_respelled_chain(*left, *left2, conjunction, context);
                            let x2 = form_chain(*left2, conjunction, context)->Ok_0;
                            lemma_multiset_commutative(x2, y);
                        } else {
                            lemma_respelled_chain(*right, *right2, conjunction, context);
                            let y2 = form_chain(*right2, conjunction, context)->Ok_0;
                            lemma_multiset_commutative(x, y2);
                        }
                    },
                    _ => {},
                },
                _ => {},
            }
        }
    } else {
        lemma_leaf_kept(a, b, conjunction, context);
        lemma_respelled_text(a, b, Enclosure::Bare, context);
        assert(form_chain(b, conjunction, context) == Ok::<Seq<Seq<char>>, ErrorView>(
            seq![form_text(b, Enclosure::Bare, context)->Ok_0],
        ));
    }
}

/// Each spelling of a sequence of respellings has the text of the first, wherever the first
/// has one.
proof fn lemma_spelled_alike(spellings: Seq<Expr>, k: int, context: Canonicalizer)
    requires
        0 <= k < spellings.len(),
        operator_form(spellings[0]),
        spelled_alike(spellings, context),
        form_text(spellings[0], Enclosure::Bare, context) is Ok,
    ensures
        operator_form(spellings[k]),
        form_text(spellings[k], Enclosure::Bare, context) == form_text(
            spellings[0],
            Enclosure::Bare,
            context,
        ),
    decreases k,
{
    if k > 0 {
        lemma_spelled_alike(spellings, k - 1, context);
        assert(respelled_within(spellings[k - 1], spellings[k - 1 + 1], context));
        lemma_respelled_form(spellings[k - 1], spellings[k], context);
        lemma_respelled_text(spellings[k - 1], spellings[k], Enclosure::Bare, context);
    }
}

/// Spellings of one predicate built from names, literals, parentheses and operators, each a
/// respelling of the one before it anywhere inside it (parentheses added or dropped, the case
/// of a name changed where the dialect folds it, the operands of `AND`, `OR`, `=`, `!=`, `<=>`
/// or `IS [NOT] DISTINCT FROM` swapped, an `AND` or `OR` chain regrouped), have one canonical
/// text wherever the first and the last have one.
pub proof fn law_equivalent_spellings_agree(spellings: Seq<Expr>, context: Canonicalizer)
    requires
        spellings.len() > 0,
        operator_form(spellings[0]),
        spelled_alike(spellings, context),
        canon(spellings[0], 0, Enclosure::Bare, context) is Ok,
        canon(spellings.last(), 0, Enclosure::Bare, context) is Ok,
    ensures
        canon(spellings.last(), 0, Enclosure::Bare, context) == canon(
            spellings[0],
            0,
            Enclosure::Bare,
            context,
        ),
{
    let last = spellings.len() - 1;
    lemma_form_text(spellings[0], 0, Enclosure::Bare, context);
    lemma_spelled_alike(spellings, last, context);
    lemma_form_text(spellings[last], 0, Enclosure::Bare, context);
}

} // verus!
