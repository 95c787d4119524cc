//! What the screen, the name spelling, the dialect rules, the test forms and the key promise,
//! stated over every input.

use vstd::prelude::*;

use crate::ast::{Expr, Ident};
use crate::context::{canonicalizer_for, Dialect, DialectFamily, Folding, NamePlace};
use crate::hash::{canonical_hash, sea_hash, sea_hash_seeded};
use crate::names::{all_ascii, effective_folding, eq_ignore_case, fold_name, identifier_spelling, lower_text};
use crate::sanity::{is_control, sanity, scan_depths};
use crate::spec::{canon, canon_body, normalized_suffix, not_word, part_spellings, Enclosure};

verus! {

/// The delimiter a name must be written with to read back as a name: its own quote, else the
/// dialect's identifier quote, else a double quote.
pub open spec fn name_delimiter(quote_style: Option<char>, dialect_quote: Option<char>) -> char {
    if quote_style is Some {
        quote_style->Some_0
    } else if dialect_quote is Some {
        dialect_quote->Some_0
    } else {
        '"'
    }
}

/// A name is either written bare, as the dialect resolves it, or delimited on both sides by
/// the quote that makes it read back as a name: its own quote, else the dialect's identifier
/// quote. So in MySQL an unquoted name that must be delimited gets backquotes, never double
/// quotes, which MySQL would read as a string.
pub proof fn law_names_are_delimited_as_the_dialect_reads_names(
    value: Seq<char>,
    quote_style: Option<char>,
    folding: Folding,
    place: NamePlace,
    dialect_quote: Option<char>,
)
    ensures
        identifier_spelling(value, quote_style, folding, place, dialect_quote) matches Ok(t) ==> (
        t == fold_name(value, quote_style is Some, effective_folding(value, folding)) || (t.len()
            >= 2 && t[0] == name_delimiter(quote_style, dialect_quote) && t.last()
            == name_delimiter(quote_style, dialect_quote))),
{
}

/// `expr IS NOT [form] NORMALIZED` is spelled as `expr IS [form] NORMALIZED` with `NOT`
/// after `IS`, whatever the form: a negated test never shares the text of its opposite.
pub proof fn law_normalization_tests_keep_their_negation(
    expr: Expr,
    form: Option<String>,
    depth: int,
    context: crate::context::Canonicalizer,
)
    requires
        canon(
            Expr::IsNormalized { expr: Box::new(expr), form: form, negated: false },
            depth,
            Enclosure::Bare,
            context,
        ) is Ok,
    ensures
        ({
            let plain = canon(
                Expr::IsNormalized { expr: Box::new(expr), form: form, negated: false },
                depth,
                Enclosure::Bare,
                context,
            )->Ok_0;
            let negated = canon(
                Expr::IsNormalized { expr: Box::new(expr), form: form, negated: true },
                depth,
                Enclosure::Bare,
                context,
            );
            let operand = canon(expr, depth + 1, Enclosure::TestOperand, context)->Ok_0;
            let rest = plain.subrange(operand.len() + 4int, plain.len() as int);
            &&& plain == operand + " IS "@ + rest
            &&& negated == Ok::<Seq<char>, crate::error::ErrorView>(operand + " IS NOT "@ + rest)
            &&& negated->Ok_0 != plain
        }),
{
    let pos = Expr::IsNormalized { expr: Box::new(expr), form: form, negated: false };
    let neg = Expr::IsNormalized { expr: Box::new(expr), form: form, negated: true };
    assert(canon(pos, depth, Enclosure::Bare, context) == canon_body(pos, depth, Enclosure::Bare, context));
    assert(canon(neg, depth, Enclosure::Bare, context) == canon_body(neg, depth, Enclosure::Bare, context));
    let plain = canon(pos, depth, Enclosure::Bare, context)->Ok_0;
    let operand = canon(expr, depth + 1, Enclosure::TestOperand, context)->Ok_0;
    let tail = match form {
        Some(f) => f@ + " NORMALIZED"@,
        None => "NORMALIZED"@,
    };
    reveal_strlit(" ");
    reveal_strlit("IS ");
    reveal_strlit("NOT ");
    reveal_strlit(" IS ");
    reveal_strlit(" IS NOT ");
    assert(not_word(false) =~= Seq::<char>::empty());
    assert(" "@ + normalized_suffix(form, false) =~= " IS "@ + tail);
    assert(" "@ + normalized_suffix(form, true) =~= " IS NOT "@ + tail);
    assert(plain =~= operand + " IS "@ + tail);
    let rest = plain.subrange(operand.len() + 4int, plain.len() as int);
    assert(rest =~= tail);
    let negated = canon(neg, depth, Enclosure::Bare, context)->Ok_0;
    assert(negated =~= operand + " IS NOT "@ + rest);
    assert(negated.len() == plain.len() + 4);
}

/// Only MySQL keeps the case of a table or schema qualifier: every other dialect folds a
/// qualifier as it folds a column name.
pub proof fn law_only_mysql_keeps_qualifier_case(dialect: Dialect)
    ensures
        dialect.family == DialectFamily::MySql ==> canonicalizer_for(dialect).qualifier_folding
            == Folding::Exact,
        dialect.family != DialectFamily::MySql ==> canonicalizer_for(dialect).qualifier_folding
            == canonicalizer_for(dialect).folding,
        dialect.family == DialectFamily::SQLite ==> canonicalizer_for(dialect).folding
            == Folding::CaseInsensitive,
{
}

/// Two dotted names whose parts are quoted alike and equal but for the case of ASCII letters.
pub open spec fn parts_alike(a: Seq<Ident>, b: Seq<Ident>) -> bool {
    &&& a.len() == b.len()
    &&& forall|i: int|
        0 <= i < a.len() ==> {
            &&& (#[trigger] a[i]).quote_style == b[i].quote_style
            &&& all_ascii(a[i].value@)
            &&& all_ascii(b[i].value@)
            &&& eq_ignore_case(a[i].value@, b[i].value@)
        }
}

proof fn lemma_parts_alike(
    a: Seq<Ident>,
    b: Seq<Ident>,
    total: int,
    context: crate::context::Canonicalizer,
)
    requires
        parts_alike(a, b),
        context.folding == Folding::CaseInsensitive,
        context.qualifier_folding == Folding::CaseInsensitive,
    ensures
        part_spellings(a, total, NamePlace::Operand, context) == part_spellings(
            b,
            total,
            NamePlace::Operand,
            context,
        ),
    decreases a.len(),
{
    if a.len() > 0 {
        let n = a.len() - 1;
        assert(a.drop_last().len() == b.drop_last().len());
        assert forall|i: int| 0 <= i < a.drop_last().len() implies {
            &&& (#[trigger] a.drop_last()[i]).quote_style == b.drop_last()[i].quote_style
            &&& all_ascii(a.drop_last()[i].value@)
            &&& all_ascii(b.drop_last()[i].value@)
            &&& eq_ignore_case(a.drop_last()[i].value@, b.drop_last()[i].value@)
        } by {
            assert(a.drop_last()[i] == a[i]);
            assert(b.drop_last()[i] == b[i]);
        }
        lemma_parts_alike(a.drop_last(), b.drop_last(), total, context);
        assert(a.last() == a[n] && b.last() == b[n]);
        assert(lower_text(a[n].value@) =~= lower_text(b[n].value@));
    }
}

/// In SQLite, qualified names whose parts differ only in the case of ASCII letters, quoted
/// alike, name one column of one table and share one text.
pub proof fn law_sqlite_qualified_names_ignore_case(
    a: Vec<Ident>,
    b: Vec<Ident>,
    dialect: Dialect,
    depth: int,
    enclosure: Enclosure,
)
    requires
        dialect.family == DialectFamily::SQLite,
        parts_alike(a@, b@),
    ensures
        canon(Expr::CompoundIdentifier(a), depth, enclosure, canonicalizer_for(dialect)) == canon(
            Expr::CompoundIdentifier(b),
            depth,
            enclosure,
            canonicalizer_for(dialect),
        ),
{
    lemma_parts_alike(a@, b@, a@.len() as int, canonicalizer_for(dialect));
}

/// Screening reads the same through two byte strings that differ in one place, where each
/// holds a byte that is no control character and that counts as an ordinary word byte.
proof fn lemma_scan_alike(x: Seq<u8>, y: Seq<u8>, at: int, k: int)
    requires
        x.len() == y.len(),
        0 <= k <= x.len(),
        0 <= at < x.len(),
        forall|i: int| 0 <= i < x.len() && i != at ==> x[i] == y[i],
        x[at] >= 0x80 && y[at] == 0x61,
    ensures
        scan_depths(x.subrange(0, k)) == scan_depths(y.subrange(0, k)),
    decreases k,
{
    if k > 0 {
        lemma_scan_alike(x, y, at, k - 1);
        assert(x.subrange(0, k).drop_last() =~= x.subrange(0, k - 1));
        assert(y.subrange(0, k).drop_last() =~= y.subrange(0, k - 1));
        assert(x.subrange(0, k).last() == x[k - 1]);
        assert(y.subrange(0, k).last() == y[k - 1]);
    }
}

/// The screen reads a byte from 0x80 up, any byte of a non-ASCII character, as it reads an
/// ordinary letter: it is never a control character, and SQL with such a byte in a literal
/// or a name passes or fails exactly as it would with the letter `a` there.
pub proof fn law_non_ascii_bytes_pass_the_screen(bytes: Seq<u8>, at: int, b: u8)
    requires
        0 <= at < bytes.len(),
        b >= 0x80,
    ensures
        !is_control(b),
        sanity(bytes.update(at, b)) == sanity(bytes.update(at, 0x61)),
{
    let x = bytes.update(at, b);
    let y = bytes.update(at, 0x61);
    lemma_scan_alike(x, y, at, x.len() as int);
    assert(x.subrange(0, x.len() as int) =~= x);
    assert(y.subrange(0, y.len() as int) =~= y);
}

/// The key is SeaHash of the whole text: its high half is the default-seeded SeaHash of every
/// character, its low half SeaHash of every character seeded from the high half and the next
/// three values. So two texts whose whole-text SeaHash differs never share a key, however
/// far into them they first differ.
pub proof fn law_key_hashes_the_whole_text(text: Seq<char>, other: Seq<char>)
    ensures
        (canonical_hash(text) >> 64u32) as u64 == sea_hash(text),
        canonical_hash(text) as u64 == sea_hash_seeded(
            text,
            sea_hash(text),
            ((sea_hash(text) + 1) % 0x1_0000_0000_0000_0000) as u64,
            ((sea_hash(text) + 2) % 0x1_0000_0000_0000_0000) as u64,
            ((sea_hash(text) + 3) % 0x1_0000_0000_0000_0000) as u64,
        ),
        sea_hash(text) != sea_hash(other) ==> canonical_hash(text) != canonical_hash(other),
{
    lemma_key_halves(text);
    lemma_key_halves(other);
}

proof fn lemma_key_halves(text: Seq<char>)
    ensures
        (canonical_hash(text) >> 64u32) as u64 == sea_hash(text),
        canonical_hash(text) as u64 == sea_hash_seeded(
            text,
            sea_hash(text),
            ((sea_hash(text) + 1) % 0x1_0000_0000_0000_0000) as u64,
            ((sea_hash(text) + 2) % 0x1_0000_0000_0000_0000) as u64,
            ((sea_hash(text) + 3) % 0x1_0000_0000_0000_0000) as u64,
        ),
{
    let f = sea_hash(text);
    let s = sea_hash_seeded(
        text,
        f,
        ((f + 1) % 0x1_0000_0000_0000_0000) as u64,
        ((f + 2) % 0x1_0000_0000_0000_0000) as u64,
        ((f + 3) % 0x1_0000_0000_0000_0000) as u64,
    );
    let h = canonical_hash(text);
    assert(h == (f as int * 0x1_0000_0000_0000_0000 + s as int) as u128);
    let hi = f as u128;
    let lo = s as u128;
    assert(h == hi * 0x1_0000_0000_0000_0000 + lo);
    assert((h >> 64u32) as u64 == f && h as u64 == s) by (bit_vector)
        requires
            h == hi * 0x1_0000_0000_0000_0000 + lo,
            hi == f as u128,
            lo == s as u128,
    ;
}

} // verus!
