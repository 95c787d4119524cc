//! The dialect rules a canonicalizer applies.

use vstd::prelude::*;

verus! {

/// How a dialect decides whether two spellings name the same column or table.
#[derive(Clone, Copy, Debug, PartialEq, Eq, Structural)]
pub enum Folding {
    /// An unquoted name folds to lower case, a quoted one keeps its spelling.
    LowerUnquoted,
    /// An unquoted name folds to upper case, a quoted one keeps its spelling.
    UpperUnquoted,
    /// Every spelling of the same letters is one name.
    CaseInsensitive,
    /// Unknown rule, so keep the name exactly as written and never merge two spellings.
    Exact,
}

/// Where a name stands in canonical text.
#[derive(Clone, Copy, Debug, PartialEq, Eq, Structural)]
pub enum NamePlace {
    /// A column, table or field name, which a keyword spelling can turn into an expression.
    Operand,
    /// A function name, which keeps its spelling and whether it was quoted, because MySQL
    /// looks a quoted function name up among stored functions and not among its own.
    Function,
}

/// The family of SQL dialect whose rules decide how names fold.
#[derive(Clone, Copy, Debug, PartialEq, Eq, Structural)]
pub enum DialectFamily {
    PostgreSql,
    Ansi,
    MySql,
    SQLite,
    /// Any dialect whose folding rule the crate does not know.
    Other,
}

/// What the canonicalizer reads of a dialect: its family, and the delimiter the dialect quotes
/// an identifier with, if it names one.
#[derive(Clone, Copy, Debug, PartialEq, Eq)]
pub struct Dialect {
    pub family: DialectFamily,
    pub identifier_quote: Option<char>,
}

/// Canonicalizes predicates under one SQL dialect.
///
/// The dialect decides how identifiers fold, so it decides which two spellings mean one
/// column. Build this from the dialect that parsed whatever you hand it.
#[derive(Clone, Copy, Debug, PartialEq, Eq)]
pub struct Canonicalizer {
    /// How a column name folds.
    pub folding: Folding,
    /// How a table or schema qualifier folds.
    pub qualifier_folding: Folding,
    /// The delimiter the dialect quotes an identifier with, if it names one.
    pub identifier_quote: Option<char>,
}

/// How names fold in a dialect family.
pub open spec fn family_folding(family: DialectFamily) -> Folding {
    match family {
        DialectFamily::PostgreSql => Folding::LowerUnquoted,
        DialectFamily::Ansi => Folding::UpperUnquoted,
        DialectFamily::MySql => Folding::CaseInsensitive,
        DialectFamily::SQLite => Folding::CaseInsensitive,
        DialectFamily::Other => Folding::Exact,
    }
}

/// The canonicalizer `Canonicalizer::new` builds for a dialect.
pub open spec fn canonicalizer_for(dialect: Dialect) -> Canonicalizer {
    Canonicalizer {
        folding: family_folding(dialect.family),
        // MySQL matches table and database names by case unless the server sets
        // `lower_case_table_names`, so folding them could merge two tables.
        qualifier_folding: if dialect.family == DialectFamily::MySql {
            Folding::Exact
        } else {
            family_folding(dialect.family)
        },
        identifier_quote: dialect.identifier_quote,
    }
}

impl Canonicalizer {
    /// Reads the folding rules for `dialect`.
    pub fn new(dialect: Dialect) -> (c: Canonicalizer)
        ensures
            c == canonicalizer_for(dialect),
    {
        let folding = match dialect.family {
            DialectFamily::PostgreSql => Folding::LowerUnquoted,
            DialectFamily::Ansi => Folding::UpperUnquoted,
            DialectFamily::MySql => Folding::CaseInsensitive,
            DialectFamily::SQLite => Folding::CaseInsensitive,
            DialectFamily::Other => Folding::Exact,
        };
        let is_mysql = match dialect.family {
            DialectFamily::MySql => true,
            _ => false,
        };
        Canonicalizer {
            folding,
            qualifier_folding: if is_mysql { Folding::Exact } else { folding },
            identifier_quote: dialect.identifier_quote,
        }
    }
}

} // verus!
