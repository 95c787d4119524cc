//! Resolving a name the way the dialect would, and spelling it the one way that reads back as
//! that same name.

use vstd::prelude::*;

use crate::ast::Ident;
use crate::context::{Canonicalizer, Folding, NamePlace};
use crate::error::{outcome, unsupported, CanonicalizeError, ErrorView};
use crate::text::{chars_of, push_str, push_text, string_of};

verus! {

/// Whether `c` is an ASCII upper-case letter.
pub open spec fn is_ascii_upper(c: char) -> bool {
    65 <= (c as u32) && (c as u32) <= 90
}

/// Whether `c` is an ASCII lower-case letter.
pub open spec fn is_ascii_lower(c: char) -> bool {
    97 <= (c as u32) && (c as u32) <= 122
}

/// Whether `c` is an ASCII letter.
pub open spec fn is_ascii_alpha(c: char) -> bool {
    is_ascii_upper(c) || is_ascii_lower(c)
}

/// Whether `c` is an ASCII digit.
pub open spec fn is_ascii_digit(c: char) -> bool {
    48 <= (c as u32) && (c as u32) <= 57
}

/// Whether `c` is ASCII.
pub open spec fn is_ascii_char(c: char) -> bool {
    (c as u32) < 128
}

/// `c` with an ASCII upper-case letter turned to lower case.
pub open spec fn to_lower(c: char) -> char {
    if is_ascii_upper(c) {
        (((c as u32) + 32) as u8) as char
    } else {
        c
    }
}

/// `c` with an ASCII lower-case letter turned to upper case.
pub open spec fn to_upper(c: char) -> char {
    if is_ascii_lower(c) {
        (((c as u32) - 32) as u8) as char
    } else {
        c
    }
}

/// The text with its ASCII letters in lower case.
pub open spec fn lower_text(s: Seq<char>) -> Seq<char> {
    Seq::new(s.len(), |i: int| to_lower(s[i]))
}

/// The text with its ASCII letters in upper case.
pub open spec fn upper_text(s: Seq<char>) -> Seq<char> {
    Seq::new(s.len(), |i: int| to_upper(s[i]))
}

/// Whether every character of the text is ASCII.
pub open spec fn all_ascii(s: Seq<char>) -> bool {
    forall|i: int| 0 <= i < s.len() ==> is_ascii_char(#[trigger] s[i])
}

/// Whether the two texts are the same once ASCII letters are compared without case.
pub open spec fn eq_ignore_case(a: Seq<char>, b: Seq<char>) -> bool {
    a.len() == b.len() && forall|i: int| 0 <= i < a.len() ==> to_lower(#[trigger] a[i]) == to_lower(
        b[i],
    )
}

/// `c` with an ASCII upper-case letter turned to lower case.
fn lower_char(c: char) -> (r: char)
    ensures
        r == to_lower(c),
{
    if (c as u32) >= 65 && (c as u32) <= 90 {
        ((c as u8) + 32) as char
    } else {
        c
    }
}

/// `c` with an ASCII lower-case letter turned to upper case.
fn upper_char(c: char) -> (r: char)
    ensures
        r == to_upper(c),
{
    if (c as u32) >= 97 && (c as u32) <= 122 {
        ((c as u8) - 32) as char
    } else {
        c
    }
}

/// The text with its ASCII letters in lower case.
pub fn lowercase(t: &Vec<char>) -> (r: Vec<char>)
    ensures
        r@ == lower_text(t@),
{
    let mut r: Vec<char> = Vec::new();
    let mut i: usize = 0;
    while i < t.len()
        invariant
            i <= t.len(),
            r@ == lower_text(t@).subrange(0, i as int),
        decreases t.len() - i,
    {
        r.push(lower_char(t[i]));
        assert(lower_text(t@).subrange(0, i + 1) =~= lower_text(t@).subrange(0, i as int).push(
            to_lower(t@[i as int]),
        ));
        i = i + 1;
    }
    assert(lower_text(t@).subrange(0, t.len() as int) =~= lower_text(t@));
    r
}

/// The text with its ASCII letters in upper case.
pub fn uppercase(t: &Vec<char>) -> (r: Vec<char>)
    ensures
        r@ == upper_text(t@),
{
    let mut r: Vec<char> = Vec::new();
    let mut i: usize = 0;
    while i < t.len()
        invariant
            i <= t.len(),
            r@ == upper_text(t@).subrange(0, i as int),
        decreases t.len() - i,
    {
        r.push(upper_char(t[i]));
        assert(upper_text(t@).subrange(0, i + 1) =~= upper_text(t@).subrange(0, i as int).push(
            to_upper(t@[i as int]),
        ));
        i = i + 1;
    }
    assert(upper_text(t@).subrange(0, t.len() as int) =~= upper_text(t@));
    r
}

/// Reports whether every character of the text is ASCII.
pub fn text_is_ascii(t: &Vec<char>) -> (r: bool)
    ensures
        r == all_ascii(t@),
{
    let mut i: usize = 0;
    while i < t.len()
        invariant
            i <= t.len(),
            forall|k: int| 0 <= k < i ==> is_ascii_char(#[trigger] t@[k]),
        decreases t.len() - i,
    {
        if (t[i] as u32) >= 128 {
            return false;
        }
        i = i + 1;
    }
    true
}

/// Reports whether the two texts are the same once ASCII letters are compared without case.
pub fn text_eq_ignore_case(a: &Vec<char>, b: &Vec<char>) -> (r: bool)
    ensures
        r == eq_ignore_case(a@, b@),
{
    if a.len() != b.len() {
        return false;
    }
    let mut i: usize = 0;
    while i < a.len()
        invariant
            i <= a.len(),
            a.len() == b.len(),
            forall|k: int| 0 <= k < i ==> to_lower(#[trigger] a@[k]) == to_lower(b@[k]),
        decreases a.len() - i,
    {
        if lower_char(a[i]) != lower_char(b[i]) {
            return false;
        }
        i = i + 1;
    }
    true
}

/// The number of words sqlparser reads as the start of an expression.
pub const EXPRESSION_KEYWORD_COUNT: usize = 44;

/// Words sqlparser reads as the start of an expression, taking one as a name only when the
/// expression it starts fails to parse. Such a name, like `NOT` inside `POSITION(NOT - x IN
/// y)`, reads as the keyword again once canonicalization moves it. The list is the one
/// `parse_expr_prefix_by_reserved_word` handles in sqlparser 0.63.
pub open spec fn expression_keyword(i: int) -> Seq<char> {
    if i == 0 { "ARRAY"@ } else if i == 1 { "BOX"@ } else if i == 2 { "CASE"@ }
    else if i == 3 { "CAST"@ } else if i == 4 { "CEIL"@ } else if i == 5 { "CIRCLE"@ }
    else if i == 6 { "CONVERT"@ } else if i == 7 { "CURRENT_CATALOG"@ }
    else if i == 8 { "CURRENT_DATE"@ } else if i == 9 { "CURRENT_TIME"@ }
    else if i == 10 { "CURRENT_TIMESTAMP"@ } else if i == 11 { "CURRENT_USER"@ }
    else if i == 12 { "EXISTS"@ } else if i == 13 { "EXTRACT"@ } else if i == 14 { "FALSE"@ }
    else if i == 15 { "FLOOR"@ } else if i == 16 { "INTERVAL"@ } else if i == 17 { "LAMBDA"@ }
    else if i == 18 { "LINE"@ } else if i == 19 { "LOCALTIME"@ }
    else if i == 20 { "LOCALTIMESTAMP"@ } else if i == 21 { "LSEG"@ } else if i == 22 { "MAP"@ }
    else if i == 23 { "MATCH"@ } else if i == 24 { "NOT"@ } else if i == 25 { "NULL"@ }
    else if i == 26 { "OVERLAY"@ } else if i == 27 { "PATH"@ } else if i == 28 { "POINT"@ }
    else if i == 29 { "POLYGON"@ } else if i == 30 { "POSITION"@ } else if i == 31 { "PRIOR"@ }
    else if i == 32 { "SAFE_CAST"@ } else if i == 33 { "SELECT"@ }
    else if i == 34 { "SESSION_USER"@ } else if i == 35 { "STRUCT"@ }
    else if i == 36 { "SUBSTR"@ } else if i == 37 { "SUBSTRING"@ } else if i == 38 { "TRIM"@ }
    else if i == 39 { "TRUE"@ } else if i == 40 { "TRY_CAST"@ } else if i == 41 { "TRY_CONVERT"@ }
    else if i == 42 { "USER"@ } else { "WITH"@ }
}

/// The word at `i` of the list `expression_keyword` states.
fn expression_keyword_at(i: usize) -> (k: &'static str)
    requires
        i < EXPRESSION_KEYWORD_COUNT,
    ensures
        k@ == expression_keyword(i as int),
{
    if i == 0 { "ARRAY" } else if i == 1 { "BOX" } else if i == 2 { "CASE" }
    else if i == 3 { "CAST" } else if i == 4 { "CEIL" } else if i == 5 { "CIRCLE" }
    else if i == 6 { "CONVERT" } else if i == 7 { "CURRENT_CATALOG" }
    else if i == 8 { "CURRENT_DATE" } else if i == 9 { "CURRENT_TIME" }
    else if i == 10 { "CURRENT_TIMESTAMP" } else if i == 11 { "CURRENT_USER" }
    else if i == 12 { "EXISTS" } else if i == 13 { "EXTRACT" } else if i == 14 { "FALSE" }
    else if i == 15 { "FLOOR" } else if i == 16 { "INTERVAL" } else if i == 17 { "LAMBDA" }
    else if i == 18 { "LINE" } else if i == 19 { "LOCALTIME" }
    else if i == 20 { "LOCALTIMESTAMP" } else if i == 21 { "LSEG" } else if i == 22 { "MAP" }
    else if i == 23 { "MATCH" } else if i == 24 { "NOT" } else if i == 25 { "NULL" }
    else if i == 26 { "OVERLAY" } else if i == 27 { "PATH" } else if i == 28 { "POINT" }
    else if i == 29 { "POLYGON" } else if i == 30 { "POSITION" } else if i == 31 { "PRIOR" }
    else if i == 32 { "SAFE_CAST" } else if i == 33 { "SELECT" }
    else if i == 34 { "SESSION_USER" } else if i == 35 { "STRUCT" }
    else if i == 36 { "SUBSTR" } else if i == 37 { "SUBSTRING" } else if i == 38 { "TRIM" }
    else if i == 39 { "TRUE" } else if i == 40 { "TRY_CAST" } else if i == 41 { "TRY_CONVERT" }
    else if i == 42 { "USER" } else { "WITH" }
}

/// Whether sqlparser may read `name` written bare as the start of an expression.
pub open spec fn expression_syntax(name: Seq<char>) -> bool {
    exists|i: int| 0 <= i < EXPRESSION_KEYWORD_COUNT as int && eq_ignore_case(
        #[trigger] expression_keyword(i),
        name,
    )
}

/// Reports whether sqlparser may read `name` written bare as the start of an expression.
pub fn starts_expression_syntax(name: &str) -> (r: bool)
    ensures
        r == expression_syntax(name@),
{
    let chars = chars_of(name);
    let mut i: usize = 0;
    while i < EXPRESSION_KEYWORD_COUNT
        invariant
            i <= EXPRESSION_KEYWORD_COUNT,
            chars@ == name@,
            forall|k: int| 0 <= k < i ==> !eq_ignore_case(#[trigger] expression_keyword(k), name@),
        decreases EXPRESSION_KEYWORD_COUNT - i,
    {
        let keyword = chars_of(expression_keyword_at(i));
        if text_eq_ignore_case(&keyword, &chars) {
            assert(eq_ignore_case(expression_keyword(i as int), name@));
            return true;
        }
        i = i + 1;
    }
    false
}

/// Whether `word` is in sqlparser's list of keywords, `sqlparser::keywords::ALL_KEYWORDS`.
pub uninterp spec fn sqlparser_keyword(word: Seq<char>) -> bool;

/// Searches `sqlparser::keywords::ALL_KEYWORDS`, which sqlparser keeps sorted, with
/// `binary_search`. The contract names the result only: the list of several hundred words
/// is sqlparser's.
#[verifier::external_body]
fn listed_keyword(word: &str) -> (r: bool)
    ensures
        r == sqlparser_keyword(word@),
{
    sqlparser::keywords::ALL_KEYWORDS.binary_search(&word).is_ok()
}

/// Whether `name` is spelled like a keyword of any dialect.
pub open spec fn keyword(name: Seq<char>) -> bool {
    sqlparser_keyword(upper_text(name))
}

/// Reports whether `name` is spelled like a keyword of any dialect.
fn is_keyword(name: &Vec<char>) -> (r: bool)
    ensures
        r == keyword(name@),
{
    let upper = string_of(&uppercase(name));
    listed_keyword(upper.as_str())
}

/// Whether `c` may start a bare word.
pub open spec fn is_word_start(c: char) -> bool {
    is_ascii_alpha(c) || c == '_'
}

/// Whether `c` may continue a bare word.
pub open spec fn is_word_char(c: char) -> bool {
    is_ascii_alpha(c) || is_ascii_digit(c) || c == '_'
}

/// Whether `name` is a bare word no dialect reads as a keyword.
pub open spec fn plain_non_keyword(name: Seq<char>) -> bool {
    &&& name.len() > 0
    &&& is_word_start(name[0])
    &&& forall|i: int| 1 <= i < name.len() ==> is_word_char(#[trigger] name[i])
    &&& !keyword(name)
}

/// Reports whether `name` is a bare word no dialect reads as a keyword.
///
/// Whether a given keyword may still name a column is dialect and position specific, so this
/// errs towards keeping the quotes. The cost is that a quoted keyword does not share a key
/// with its unquoted spelling, which splits one column into two entries rather than merging
/// two columns into one.
pub fn is_plain_non_keyword(name: &str) -> (r: bool)
    ensures
        r == plain_non_keyword(name@),
{
    let chars = chars_of(name);
    if chars.len() == 0 {
        return false;
    }
    let first = chars[0];
    let first_ok = ((first as u32) >= 65 && (first as u32) <= 90) || ((first as u32) >= 97
        && (first as u32) <= 122) || first == '_';
    if !first_ok {
        return false;
    }
    let mut i: usize = 1;
    while i < chars.len()
        invariant
            1 <= i <= chars.len(),
            chars@ == name@,
            forall|k: int| 1 <= k < i ==> is_word_char(#[trigger] chars@[k]),
        decreases chars.len() - i,
    {
        let c = chars[i];
        let ok = ((c as u32) >= 65 && (c as u32) <= 90) || ((c as u32) >= 97 && (c as u32)
            <= 122) || ((c as u32) >= 48 && (c as u32) <= 57) || c == '_';
        if !ok {
            assert(!is_word_char(chars@[i as int]));
            return false;
        }
        i = i + 1;
    }
    !is_keyword(&chars)
}

/// Whether no character of the text is an ASCII upper-case letter.
pub open spec fn no_upper(s: Seq<char>) -> bool {
    forall|i: int| 0 <= i < s.len() ==> !is_ascii_upper(#[trigger] s[i])
}

/// Whether no character of the text is an ASCII lower-case letter.
pub open spec fn no_lower(s: Seq<char>) -> bool {
    forall|i: int| 0 <= i < s.len() ==> !is_ascii_lower(#[trigger] s[i])
}

/// Whether writing `name` without quotes reads back as `name` itself.
pub open spec fn bare_faithful(name: Seq<char>, quoted: bool, folding: Folding, place: NamePlace) -> bool {
    if !quoted {
        place == NamePlace::Function || !expression_syntax(name)
    } else if place == NamePlace::Function || !plain_non_keyword(name) {
        false
    } else {
        match folding {
            Folding::LowerUnquoted => no_upper(name),
            Folding::UpperUnquoted => no_lower(name),
            Folding::CaseInsensitive => true,
            Folding::Exact => false,
        }
    }
}

/// Reports whether the text holds an ASCII upper-case letter.
fn text_has_upper(t: &Vec<char>) -> (r: bool)
    ensures
        r == !no_upper(t@),
{
    let mut i: usize = 0;
    while i < t.len()
        invariant
            i <= t.len(),
            forall|k: int| 0 <= k < i ==> !is_ascii_upper(#[trigger] t@[k]),
        decreases t.len() - i,
    {
        if (t[i] as u32) >= 65 && (t[i] as u32) <= 90 {
            return true;
        }
        i = i + 1;
    }
    false
}

/// Reports whether the text holds an ASCII lower-case letter.
fn text_has_lower(t: &Vec<char>) -> (r: bool)
    ensures
        r == !no_lower(t@),
{
    let mut i: usize = 0;
    while i < t.len()
        invariant
            i <= t.len(),
            forall|k: int| 0 <= k < i ==> !is_ascii_lower(#[trigger] t@[k]),
        decreases t.len() - i,
    {
        if (t[i] as u32) >= 97 && (t[i] as u32) <= 122 {
            return true;
        }
        i = i + 1;
    }
    false
}

/// Reports whether writing `name` without quotes reads back as `name` itself.
///
/// The answer depends only on the name, never on how canonicalization is going, so one
/// predicate cannot end up with two spellings and so two keys.
pub fn bare_spelling_is_faithful(name: &str, quoted: bool, folding: Folding, place: NamePlace) -> (r:
    bool)
    ensures
        r == bare_faithful(name@, quoted, folding, place),
{
    if !quoted {
        // Folding only applied the change the dialect makes itself, so the bare name is the
        // same name as long as it reads as a name wherever canonicalization puts it. A call
        // keeps its name, because it is only a call once its name failed as special syntax,
        // and its enclosed arguments fail that syntax again.
        return place == NamePlace::Function || !starts_expression_syntax(name);
    }
    // A quoted function name stays quoted, because MySQL looks it up among stored functions.
    if place == NamePlace::Function || !is_plain_non_keyword(name) {
        return false;
    }
    let chars = chars_of(name);
    match folding {
        // Dropping the quotes hands the name to the dialect's folding, so it may only go bare
        // when it is already in the folded form.
        Folding::LowerUnquoted => !text_has_upper(&chars),
        Folding::UpperUnquoted => !text_has_lower(&chars),
        Folding::CaseInsensitive => true,
        Folding::Exact => false,
    }
}

/// The name as the dialect resolves it under `folding`.
pub open spec fn fold_name(value: Seq<char>, quoted: bool, folding: Folding) -> Seq<char> {
    match folding {
        Folding::LowerUnquoted => if quoted { value } else { lower_text(value) },
        Folding::UpperUnquoted => if quoted { value } else { upper_text(value) },
        Folding::CaseInsensitive => lower_text(value),
        Folding::Exact => value,
    }
}

/// The folding applied to a name: case rules are stated for ASCII, so any other name keeps
/// its exact spelling.
pub open spec fn effective_folding(value: Seq<char>, folding: Folding) -> Folding {
    if all_ascii(value) {
        folding
    } else {
        Folding::Exact
    }
}

/// The name with every `quote` in it doubled.
pub open spec fn escape_delimiter(name: Seq<char>, quote: char) -> Seq<char>
    decreases name.len(),
{
    if name.len() == 0 {
        name
    } else {
        escape_delimiter(name.drop_last(), quote) + if name.last() == quote {
            seq![quote, quote]
        } else {
            seq![name.last()]
        }
    }
}

/// The name delimited by `quote`, which it escapes by doubling.
pub open spec fn delimit(name: Seq<char>, quote: char) -> Seq<char> {
    seq![quote] + escape_delimiter(name, quote) + seq![quote]
}

/// The delimiter a name is quoted with: its own, else the dialect's, else a double quote.
pub open spec fn quote_for(quote_style: Option<char>, dialect_quote: Option<char>) -> char {
    match quote_style {
        Some(q) => q,
        None => match dialect_quote {
            Some(q) => q,
            None => '"',
        },
    }
}

/// The canonical spelling of a name: the name the database would see, spelled the one way
/// that reads back as that same name.
pub open spec fn identifier_spelling(
    value: Seq<char>,
    quote_style: Option<char>,
    folding: Folding,
    place: NamePlace,
    dialect_quote: Option<char>,
) -> Result<Seq<char>, ErrorView> {
    let quoted = quote_style is Some;
    let folding = effective_folding(value, folding);
    let resolved = fold_name(value, quoted, folding);
    if bare_faithful(resolved, quoted, folding, place) {
        Ok(resolved)
    } else if !quoted && folding == Folding::Exact {
        Err(ErrorView::Unsupported("Name "@ + resolved + " reads as a keyword out of its place"@))
    } else {
        Ok(delimit(resolved, quote_for(quote_style, dialect_quote)))
    }
}

/// Resolves an identifier to the name the database would see, then spells it the one way
/// that reads back as that same name.
pub fn identifier_text(
    identifier: &Ident,
    folding: Folding,
    place: NamePlace,
    context: &Canonicalizer,
) -> (r: Result<Vec<char>, CanonicalizeError>)
    ensures
        outcome(r) == identifier_spelling(
            identifier.value@,
            identifier.quote_style,
            folding,
            place,
            context.identifier_quote,
        ),
{
    let quoted = identifier.quote_style.is_some();
    let value = chars_of(identifier.value.as_str());
    // Case folding rules are stated for ASCII. Anything else keeps its exact spelling,
    // because merging two names the database might separate is the unsafe direction.
    let folding = if text_is_ascii(&value) {
        folding
    } else {
        Folding::Exact
    };
    let resolved = match folding {
        Folding::LowerUnquoted => if quoted { value } else { lowercase(&value) },
        Folding::UpperUnquoted => if quoted { value } else { uppercase(&value) },
        Folding::CaseInsensitive => lowercase(&value),
        Folding::Exact => value,
    };
    let resolved_string = string_of(&resolved);
    if bare_spelling_is_faithful(resolved_string.as_str(), quoted, folding, place) {
        return Ok(resolved);
    }
    // Where no folding rule ties the two spellings, quoting a bare name could name another
    // column, so a bare name that cannot stay bare is refused.
    if !quoted && folding == Folding::Exact {
        let mut message = chars_of("Name ");
        push_text(&mut message, &resolved);
        push_str(&mut message, " reads as a keyword out of its place");
        return Err(unsupported(&message));
    }
    // A delimited name escapes its own delimiter by doubling it, so `a"b` is written
    // `"a""b"`. Emitting the delimiter raw produces a name that reads back as something else.
    let quote = match identifier.quote_style {
        Some(q) => q,
        None => match context.identifier_quote {
            Some(q) => q,
            None => '"',
        },
    };
    let mut delimited: Vec<char> = Vec::new();
    delimited.push(quote);
    let mut i: usize = 0;
    while i < resolved.len()
        invariant
            i <= resolved.len(),
            delimited@ == seq![quote] + escape_delimiter(resolved@.subrange(0, i as int), quote),
        decreases resolved.len() - i,
    {
        let character = resolved[i];
        assert(resolved@.subrange(0, i + 1).drop_last() =~= resolved@.subrange(0, i as int));
        if character == quote {
            delimited.push(quote);
        }
        delimited.push(character);
        assert(delimited@ =~= seq![quote] + escape_delimiter(resolved@.subrange(0, i + 1), quote));
        i = i + 1;
    }
    assert(resolved@.subrange(0, resolved.len() as int) =~= resolved@);
    delimited.push(quote);
    assert(quote == quote_for(identifier.quote_style, context.identifier_quote));
    assert(delimited@ =~= delimit(resolved@, quote));
    Ok(delimited)
}

} // verus!
