//! What canonical text promises across spellings: equivalent spellings of one predicate get
//! one text, so one hash key.

use vstd::prelude::*;
use vstd::seq_lib::{group_to_multiset_ensures, lemma_seq_union_to_multiset_commutative};

use crate::ast::{BinaryOperator, Expr, Ident};
use crate::context::{Canonicalizer, Folding};
use crate::hash::canonical_hash;
use crate::names::{all_ascii, eq_ignore_case, expression_syntax, lower_text, plain_non_keyword};
use crate::order::{lemma_lex_asymmetric, lemma_lex_total, lemma_sort_ignores_order};
use crate::spec::{
    canon, canon_list, chain_texts, infix, operand_order, Enclosure, OperandOrder,
};
use crate::statement::{
    accepted_spelling, statements_spelling, statements_where, where_clause_spelling, where_of,
    Statement,
};

verus! {

/// Whether the operator chains with itself: `AND` and `OR`.
pub open spec fn chains(op: BinaryOperator) -> bool {
    op is And || op is Or
}

/// `left op right`.
pub open spec fn binary(left: Expr, op: BinaryOperator, right: Expr) -> Expr {
    Expr::BinaryOp { left: Box::new(left), op, right: Box::new(right) }
}

/// The operands of an `AND` or `OR` chain may come in either order: whenever one of the two
/// spellings has canonical text, both have the same.
pub proof fn law_chain_operands_commute(
    x: Expr,
    op: BinaryOperator,
    y: Expr,
    depth: int,
    enclosure: Enclosure,
    context: Canonicalizer,
)
    requires
        chains(op),
    ensures
        canon(binary(x, op, y), depth, enclosure, context) is Ok || canon(
            binary(y, op, x),
            depth,
            enclosure,
            context,
        ) is Ok ==> canon(binary(x, op, y), depth, enclosure, context) == canon(
            binary(y, op, x),
            depth,
            enclosure,
            context,
        ),
{
    let conjunction = op is And;
    let a = chain_texts(x, conjunction, depth, context);
    let b = chain_texts(y, conjunction, depth, context);
    if a is Ok && b is Ok {
        let sa = a->Ok_0;
        let sb = b->Ok_0;
        lemma_seq_union_to_multiset_commutative(sa, sb);
        lemma_sort_ignores_order(sa + sb, sb + sa);
    }
}

/// An `AND` or `OR` chain may be grouped either way: `(x op y) op z` and `x op (y op z)` have
/// one canonical text, or fail alike.
pub proof fn law_chain_regroups(
    x: Expr,
    op: BinaryOperator,
    y: Expr,
    z: Expr,
    depth: int,
    enclosure: Enclosure,
    context: Canonicalizer,
)
    requires
        chains(op),
    ensures
        canon(binary(binary(x, op, y), op, z), depth, enclosure, context) == canon(
            binary(x, op, binary(y, op, z)),
            depth,
            enclosure,
            context,
        ),
{
    let conjunction = op is And;
    let a = chain_texts(x, conjunction, depth, context);
    let b = chain_texts(y, conjunction, depth, context);
    let c = chain_texts(z, conjunction, depth, context);
    assert(chain_texts(binary(x, op, y), conjunction, depth, context) == match a {
        Err(e) => Err(e),
        Ok(sa) => match b {
            Err(e) => Err(e),
            Ok(sb) => Ok::<Seq<Seq<char>>, crate::error::ErrorView>(sa + sb),
        },
    });
    assert(chain_texts(binary(y, op, z), conjunction, depth, context) == match b {
        Err(e) => Err(e),
        Ok(sb) => match c {
            Err(e) => Err(e),
            Ok(sc) => Ok::<Seq<Seq<char>>, crate::error::ErrorView>(sb + sc),
        },
    });
    if a is Ok && b is Ok && c is Ok {
        assert((a->Ok_0 + b->Ok_0) + c->Ok_0 =~= a->Ok_0 + (b->Ok_0 + c->Ok_0));
    }
}

/// `(l op r)` with the operands in sorted order is the same text from either order, where
/// the two texts exist.
proof fn lemma_sorted_infix_commutes(l: Seq<char>, o: Seq<char>, r: Seq<char>)
    ensures
        infix(Ok(l), o, Ok(r), OperandOrder::Sorted) == infix(Ok(r), o, Ok(l), OperandOrder::Sorted),
{
    lemma_lex_total(l, r);
    lemma_lex_asymmetric(l, r);
}

/// A comparison whose operand order carries no meaning, `=`, `!=` or `<=>`, gives one text for
/// either order of its operands, whenever one of the two spellings has canonical text.
pub proof fn law_symmetric_operator_commutes(
    x: Expr,
    op: BinaryOperator,
    y: Expr,
    depth: int,
    enclosure: Enclosure,
    context: Canonicalizer,
)
    requires
        !chains(op),
        operand_order(op) == OperandOrder::Sorted,
    ensures
        canon(binary(x, op, y), depth, enclosure, context) is Ok || canon(
            binary(y, op, x),
            depth,
            enclosure,
            context,
        ) is Ok ==> canon(binary(x, op, y), depth, enclosure, context) == canon(
            binary(y, op, x),
            depth,
            enclosure,
            context,
        ),
{
    let l = canon(x, depth + 1, Enclosure::Operand, context);
    let r = canon(y, depth + 1, Enclosure::Operand, context);
    if l is Ok && r is Ok {
        match crate::spec::operator_spelling(op) {
            Ok(o) => lemma_sorted_infix_commutes(l->Ok_0, o, r->Ok_0),
            Err(_) => {},
        }
    }
}

/// `x IS [NOT] DISTINCT FROM y` gives one text for either order of its operands, whenever one
/// of the two spellings has canonical text.
pub proof fn law_distinct_from_commutes(
    x: Expr,
    y: Expr,
    negated: bool,
    depth: int,
    enclosure: Enclosure,
    context: Canonicalizer,
)
    ensures
        ({
            let forward = if negated {
                Expr::IsNotDistinctFrom(Box::new(x), Box::new(y))
            } else {
                Expr::IsDistinctFrom(Box::new(x), Box::new(y))
            };
            let backward = if negated {
                Expr::IsNotDistinctFrom(Box::new(y), Box::new(x))
            } else {
                Expr::IsDistinctFrom(Box::new(y), Box::new(x))
            };
            canon(forward, depth, enclosure, context) is Ok || canon(
                backward,
                depth,
                enclosure,
                context,
            ) is Ok ==> canon(forward, depth, enclosure, context) == canon(
                backward,
                depth,
                enclosure,
                context,
            )
        }),
{
    let l = canon(x, depth + 1, Enclosure::Operand, context);
    let r = canon(y, depth + 1, Enclosure::Operand, context);
    if l is Ok && r is Ok {
        lemma_sorted_infix_commutes(l->Ok_0, "IS NOT DISTINCT FROM"@, r->Ok_0);
        lemma_sorted_infix_commutes(l->Ok_0, "IS DISTINCT FROM"@, r->Ok_0);
    }
}

/// Parentheses written around an expression change nothing: `(e)` at one level of nesting
/// has the text of `e` one level deeper.
pub proof fn law_parentheses_are_transparent(
    e: Expr,
    depth: int,
    enclosure: Enclosure,
    context: Canonicalizer,
)
    ensures
        canon(Expr::Nested(Box::new(e)), depth, enclosure, context) == canon(
            e,
            depth + 1,
            enclosure,
            context,
        ),
{
}

/// The canonical texts of a list, where every item has one, are the items' texts in order.
proof fn lemma_canon_list_items(items: Seq<Expr>, depth: int, enclosure: Enclosure, context: Canonicalizer)
    ensures
        canon_list(items, depth, enclosure, context) is Ok <==> forall|i: int|
            0 <= i < items.len() ==> #[trigger] canon(items[i], depth, enclosure, context) is Ok,
        canon_list(items, depth, enclosure, context) is Ok ==> canon_list(
            items,
            depth,
            enclosure,
            context,
        )->Ok_0 == items.map_values(|e: Expr| canon(e, depth, enclosure, context)->Ok_0),
    decreases items.len(),
{
    if items.len() > 0 {
        let front = items.drop_last();
        lemma_canon_list_items(front, depth, enclosure, context);
        assert forall|i: int| 0 <= i < front.len() implies front[i] == items[i] by {}
        if canon_list(items, depth, enclosure, context) is Ok {
            assert(items.map_values(|e: Expr| canon(e, depth, enclosure, context)->Ok_0) =~= front.map_values(
                |e: Expr| canon(e, depth, enclosure, context)->Ok_0,
            ).push(canon(items.last(), depth, enclosure, context)->Ok_0));
        }
        if forall|i: int|
            0 <= i < items.len() ==> #[trigger] canon(items[i], depth, enclosure, context) is Ok {
            assert(canon(items[items.len() - 1], depth, enclosure, context) is Ok);
        }
    }
}

/// Two lists holding the same items, each as often, map to lists holding the same images.
proof fn lemma_map_keeps_multiset(a: Seq<Expr>, b: Seq<Expr>, f: spec_fn(Expr) -> Seq<char>)
    requires
        a.to_multiset() =~= b.to_multiset(),
    ensures
        a.map_values(f).to_multiset() =~= b.map_values(f).to_multiset(),
    decreases a.len(),
{
    broadcast use group_to_multiset_ensures;
    broadcast use vstd::multiset::group_multiset_axioms;

    if a.len() > 0 {
        let last = a.last();
        let front = a.drop_last();
        assert(a =~= front.push(last));
        assert(b.to_multiset().count(last) > 0);
        assert(b.contains(last));
        let i = choose|i: int| 0 <= i < b.len() && b[i] == last;
        let rest = b.remove(i);
        assert(rest.to_multiset() =~= b.to_multiset().remove(last));
        assert(front.to_multiset() =~= a.to_multiset().remove(last));
        lemma_map_keeps_multiset(front, rest, f);
        assert(a.map_values(f) =~= front.map_values(f).push(f(last)));
        assert(rest.map_values(f) =~= b.map_values(f).remove(i));
        let mapped = b.map_values(f);
        assert(mapped[i] == f(last));
        assert(mapped.contains(f(last)));
        assert(mapped.remove(i).to_multiset() =~= mapped.to_multiset().remove(f(last)));
        assert(mapped.to_multiset().count(f(last)) > 0);
        assert(mapped.to_multiset() =~= rest.map_values(f).to_multiset().insert(f(last)));
    } else {
        assert(a.to_multiset().len() == a.len());
        assert(b.to_multiset().len() == b.len());
        assert(a.map_values(f) =~= b.map_values(f));
    }
}

/// The items of an `IN` list may come in any order: two lists holding the same items, each as
/// often, give one text whenever one of the two tests has canonical text.
pub proof fn law_in_list_order_is_irrelevant(
    x: Expr,
    list: Vec<Expr>,
    other: Vec<Expr>,
    negated: bool,
    depth: int,
    enclosure: Enclosure,
    context: Canonicalizer,
)
    requires
        list@.to_multiset() =~= other@.to_multiset(),
    ensures
        ({
            let first = Expr::InList { expr: Box::new(x), list, negated };
            let second = Expr::InList { expr: Box::new(x), list: other, negated };
            canon(first, depth, enclosure, context) is Ok || canon(
                second,
                depth,
                enclosure,
                context,
            ) is Ok ==> canon(first, depth, enclosure, context) == canon(
                second,
                depth,
                enclosure,
                context,
            )
        }),
{
    broadcast use group_to_multiset_ensures;

    let d = depth + 1;
    let f = |e: Expr| canon(e, d, Enclosure::Operand, context)->Ok_0;
    lemma_canon_list_items(list@, d, Enclosure::Operand, context);
    lemma_canon_list_items(other@, d, Enclosure::Operand, context);
    let a = canon_list(list@, d, Enclosure::Operand, context);
    let b = canon_list(other@, d, Enclosure::Operand, context);
    if a is Ok || b is Ok {
        if a is Ok {
            assert forall|i: int| 0 <= i < other@.len() implies #[trigger] canon(
                other@[i],
                d,
                Enclosure::Operand,
                context,
            ) is Ok by {
                assert(other@.to_multiset().count(other@[i]) > 0);
                assert(list@.contains(other@[i]));
            }
        } else {
            assert forall|i: int| 0 <= i < list@.len() implies #[trigger] canon(
                list@[i],
                d,
                Enclosure::Operand,
                context,
            ) is Ok by {
                assert(list@.to_multiset().count(list@[i]) > 0);
                assert(other@.contains(list@[i]));
            }
        }
        lemma_map_keeps_multiset(list@, other@, f);
        lemma_sort_ignores_order(list@.map_values(f), other@.map_values(f));
    }
}

/// In a dialect that ignores case, two spellings of a name that differ only in the case of
/// ASCII letters, quoted alike, are one name with one text.
pub proof fn law_case_insensitive_names_merge(
    a: Ident,
    b: Ident,
    depth: int,
    enclosure: Enclosure,
    context: Canonicalizer,
)
    requires
        context.folding == Folding::CaseInsensitive,
        a.quote_style == b.quote_style,
        all_ascii(a.value@),
        all_ascii(b.value@),
        eq_ignore_case(a.value@, b.value@),
    ensures
        canon(Expr::Identifier(a), depth, enclosure, context) == canon(
            Expr::Identifier(b),
            depth,
            enclosure,
            context,
        ),
{
    assert(lower_text(a.value@) =~= lower_text(b.value@));
}

/// In a dialect that ignores case, a quoted name that is a plain word and no keyword is the
/// name its unquoted spelling gives, in any case, so the two share one text.
pub proof fn law_case_insensitive_quotes_drop(
    quoted: Ident,
    bare: Ident,
    depth: int,
    enclosure: Enclosure,
    context: Canonicalizer,
)
    requires
        context.folding == Folding::CaseInsensitive,
        quoted.quote_style is Some,
        bare.quote_style is None,
        all_ascii(quoted.value@),
        all_ascii(bare.value@),
        eq_ignore_case(quoted.value@, bare.value@),
        plain_non_keyword(lower_text(bare.value@)),
        !expression_syntax(lower_text(bare.value@)),
    ensures
        canon(Expr::Identifier(quoted), depth, enclosure, context) == canon(
            Expr::Identifier(bare),
            depth,
            enclosure,
            context,
        ),
{
    assert(lower_text(quoted.value@) =~= lower_text(bare.value@));
}

/// The clause entry point answers exactly as the statement one: the text for the one
/// statement the parser made of some SQL is the text of that statement's `WHERE` clause.
pub proof fn law_statement_text_is_its_where_text(
    statements: Vec<Statement>,
    context: Canonicalizer,
)
    requires
        statements@.len() == 1,
        where_of(statements@[0]) is Ok,
    ensures
        statements_spelling(Ok(statements), context) == where_clause_spelling(
            where_of(statements@[0])->Ok_0,
            context,
        ),
{
}

/// Canonical text is a fixed point. Once some SQL is accepted with text `c`, replaying it as
/// `SELECT * FROM t WHERE c`, or as `SELECT * FROM t` where `c` is the `TRUE` of a missing
/// clause, is accepted with `c` again: the replayed statement's `WHERE` clause is what `c`
/// reads back as, and reading `c` back again gives the same expression.
pub proof fn law_canonical_text_is_a_fixed_point(
    first: Result<Vec<Statement>, String>,
    first_reread: Option<Expr>,
    replay: Result<Vec<Statement>, String>,
    replay_reread: Option<Expr>,
    context: Canonicalizer,
)
    requires
        accepted_spelling(first, first_reread, context) is Ok,
        statements_where(first) == Ok::<Option<Expr>, crate::error::ErrorView>(None)
            ==> statements_where(replay) == Ok::<Option<Expr>, crate::error::ErrorView>(None),
        statements_where(first) matches Ok(Some(_)) ==> statements_where(replay) == Ok::<
            Option<Expr>,
            crate::error::ErrorView,
        >(first_reread) && replay_reread == first_reread,
    ensures
        accepted_spelling(replay, replay_reread, context) == accepted_spelling(
            first,
            first_reread,
            context,
        ),
{
}

/// A key depends on the text alone: the same canonical text always gets the same key.
pub proof fn law_key_depends_on_text_only(a: Seq<char>, b: Seq<char>)
    requires
        a == b,
    ensures
        canonical_hash(a) == canonical_hash(b),
{
}

} // verus!
