//! A byte-level screen that refuses input the parser should never see.

use vstd::prelude::*;
use vstd::string::*;

use crate::error::{outcome, unsupported_str, CanonicalizeError, ErrorView};

verus! {

/// The deepest nesting the crate walks, in parentheses, brackets, operator runs or syntax levels.
pub const MAX_EXPR_DEPTH: usize = 128;

/// The longest SQL text the crate accepts, in bytes.
pub const MAX_SQL_LEN: usize = 8192;

/// Open parentheses, open square brackets, and the current run of operator bytes.
pub struct Depths {
    pub parens: int,
    pub brackets: int,
    pub operators: int,
}

/// A byte the screen refuses outright: a control character other than tab, newline and
/// carriage return.
pub open spec fn is_control(b: u8) -> bool {
    b <= 0x08 || b == 0x0B || b == 0x0C || (0x0E <= b && b <= 0x1F) || b == 0x7F
}

/// A byte that extends a run of operators.
pub open spec fn is_operator_byte(b: u8) -> bool {
    b == 0x2B || b == 0x2D || b == 0x2A || b == 0x2F || b == 0x3D || b == 0x3C || b == 0x3E
        || b == 0x21 || b == 0x7E
}

/// A byte that leaves every count as it is.
pub open spec fn is_blank(b: u8) -> bool {
    b == 0x20 || b == 0x09 || b == 0x0A || b == 0x0D
}

/// The counts after reading byte `b`, which is not a control character.
pub open spec fn next_depths(d: Depths, b: u8) -> Depths {
    if b == 0x28 {
        Depths { parens: d.parens + 1, brackets: d.brackets, operators: d.operators + 1 }
    } else if b == 0x29 {
        Depths {
            parens: if d.parens > 0 { d.parens - 1 } else { 0 },
            brackets: d.brackets,
            operators: 0,
        }
    } else if b == 0x5B {
        Depths { parens: d.parens, brackets: d.brackets + 1, operators: 0 }
    } else if b == 0x5D {
        Depths {
            parens: d.parens,
            brackets: if d.brackets > 0 { d.brackets - 1 } else { 0 },
            operators: 0,
        }
    } else if is_operator_byte(b) {
        Depths { parens: d.parens, brackets: d.brackets, operators: d.operators + 1 }
    } else if is_blank(b) {
        d
    } else {
        Depths { parens: d.parens, brackets: d.brackets, operators: 0 }
    }
}

/// Whether any count is beyond the deepest nesting the crate walks.
pub open spec fn too_deep(d: Depths) -> bool {
    d.parens > MAX_EXPR_DEPTH || d.brackets > MAX_EXPR_DEPTH || d.operators > MAX_EXPR_DEPTH
}

/// The counts after reading `bytes`, or the error that stopped the reading.
pub open spec fn scan_depths(bytes: Seq<u8>) -> Result<Depths, ErrorView>
    decreases bytes.len(),
{
    if bytes.len() == 0 {
        Ok(Depths { parens: 0, brackets: 0, operators: 0 })
    } else {
        match scan_depths(bytes.drop_last()) {
            Err(e) => Err(e),
            Ok(d) => if is_control(bytes.last()) {
                Err(ErrorView::Unsupported("Control character in SQL"@))
            } else if too_deep(next_depths(d, bytes.last())) {
                Err(ErrorView::TooDeep(MAX_EXPR_DEPTH))
            } else {
                Ok(next_depths(d, bytes.last()))
            },
        }
    }
}

/// The screen's verdict on the bytes of some SQL text.
pub open spec fn sanity(bytes: Seq<u8>) -> Result<(), ErrorView> {
    match scan_depths(bytes) {
        Err(e) => Err(e),
        Ok(d) => if d.parens != 0 {
            Err(ErrorView::Unsupported("Unbalanced parentheses"@))
        } else if d.brackets != 0 {
            Err(ErrorView::Unsupported("Unbalanced square brackets"@))
        } else {
            Ok(())
        },
    }
}

/// Refuses control characters, nesting deeper than `MAX_EXPR_DEPTH`, and unbalanced
/// parentheses or square brackets.
pub fn check_sql_sanity(sql: &str) -> (r: Result<(), CanonicalizeError>)
    ensures
        outcome(r) == sanity(sql.spec_bytes()),
{
    let bytes = sql.as_bytes();
    let mut paren_depth: usize = 0;
    let mut bracket_depth: usize = 0;
    let mut consecutive_ops: usize = 0;
    let mut i: usize = 0;
    while i < bytes.len()
        invariant
            i <= bytes.len(),
            bytes@ == sql.spec_bytes(),
            scan_depths(bytes@.subrange(0, i as int)) == Ok::<Depths, ErrorView>(
                Depths {
                    parens: paren_depth as int,
                    brackets: bracket_depth as int,
                    operators: consecutive_ops as int,
                },
            ),
            paren_depth <= MAX_EXPR_DEPTH,
            bracket_depth <= MAX_EXPR_DEPTH,
            consecutive_ops <= MAX_EXPR_DEPTH,
        decreases bytes.len() - i,
    {
        let byte = bytes[i];
        let ghost prefix = bytes@.subrange(0, i + 1);
        assert(prefix.drop_last() == bytes@.subrange(0, i as int));
        assert(prefix.last() == byte);
        if byte <= 0x08 || byte == 0x0B || byte == 0x0C || (0x0E <= byte && byte <= 0x1F)
            || byte == 0x7F {
            proof {
                lemma_scan_error_persists(bytes@, i as int + 1);
            }
            return Err(unsupported_str("Control character in SQL"));
        }
        if byte == 0x28 {
            paren_depth = paren_depth + 1;
            consecutive_ops = consecutive_ops + 1;
        } else if byte == 0x29 {
            paren_depth = if paren_depth > 0 { paren_depth - 1 } else { 0 };
            consecutive_ops = 0;
        } else if byte == 0x5B {
            bracket_depth = bracket_depth + 1;
            consecutive_ops = 0;
        } else if byte == 0x5D {
            bracket_depth = if bracket_depth > 0 { bracket_depth - 1 } else { 0 };
            consecutive_ops = 0;
        } else if byte == 0x2B || byte == 0x2D || byte == 0x2A || byte == 0x2F || byte == 0x3D
            || byte == 0x3C || byte == 0x3E || byte == 0x21 || byte == 0x7E {
            consecutive_ops = consecutive_ops + 1;
        } else if byte == 0x20 || byte == 0x09 || byte == 0x0A || byte == 0x0D {
        } else {
            consecutive_ops = 0;
        }
        if paren_depth > MAX_EXPR_DEPTH || bracket_depth > MAX_EXPR_DEPTH || consecutive_ops
            > MAX_EXPR_DEPTH {
            proof {
                lemma_scan_error_persists(bytes@, i as int + 1);
            }
            return Err(CanonicalizeError::TooDeep { limit: MAX_EXPR_DEPTH });
        }
        i = i + 1;
    }
    assert(bytes@.subrange(0, bytes.len() as int) == bytes@);
    if paren_depth != 0 {
        return Err(unsupported_str("Unbalanced parentheses"));
    }
    if bracket_depth != 0 {
        return Err(unsupported_str("Unbalanced square brackets"));
    }
    Ok(())
}

/// Once a prefix of the bytes fails the scan, the whole fails it with the same error.
proof fn lemma_scan_error_persists(bytes: Seq<u8>, k: int)
    requires
        0 <= k <= bytes.len(),
        scan_depths(bytes.subrange(0, k)) is Err,
    ensures
        scan_depths(bytes) == scan_depths(bytes.subrange(0, k)),
    decreases bytes.len() - k,
{
    if k < bytes.len() {
        assert(bytes.subrange(0, k + 1).drop_last() == bytes.subrange(0, k));
        lemma_scan_error_persists(bytes, k + 1);
    } else {
        assert(bytes.subrange(0, k) == bytes);
    }
}

} // verus!
