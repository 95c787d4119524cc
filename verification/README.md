# sqlparser-canonicalize

Canonical predicate text and stable 128-bit hashes for SQL `WHERE` clauses. Equivalent
spellings of a predicate produce identical bytes, so they share one key for durable
deduplication:

- the operands of `AND` and `OR` chains are flattened and sorted, as are those of `=`, `!=`,
  `<=>`, `IS [NOT] DISTINCT FROM` and the items of `IN` lists; arithmetic keeps its written
  order;
- function calls, the operand of a `CAST` and `CASE` expressions are kept as the parser prints
  them, and so is a subquery of the shape `SELECT items FROM table [WHERE filter] [LIMIT ...]`;
  a subquery of any other shape, or whose items or filter have no canonical text, is refused;
- names fold the way the dialect folds them, and keep their quotes exactly where dropping them
  would name something else;
- parentheses are kept exactly where the grouping needs them.

The dialect belongs to the canonicalizer because it decides the answer: whether `"Status"`
and `Status` are one column or two is a PostgreSQL question, not a SQL one.

## Layout

- `src/` is the verified library. It works on what the parser made of the SQL, held as plain
  values (`Expr`, `Statement`), and every function carries a contract Verus proves:
  - `spec.rs` says what canonical text is; `normalize.rs` computes it and is proved equal;
  - `statement.rs` takes the `WHERE` clause of the one served `SELECT` shape, screens input,
    and confirms that canonical text reads back as itself;
  - `laws.rs` proves what holds across spellings: chains commute and regroup, symmetric
    operators commute, `IN` list order is irrelevant, parentheses are transparent, names that
    differ only in case merge where the dialect ignores case, and accepted text is a fixed
    point of the whole pipeline;
  - `respelling.rs` proves that respellings of a predicate of names, literals, parentheses and
    operators, made one step at a time anywhere inside it, keep its canonical text;
  - `order.rs` proves the text order total and sorting a permutation into that order;
  - `hash.rs` builds the key from two SeaHash runs.
- `app/` parses with `sqlparser`, converts its syntax tree into the library's values, reads the
  canonical text back with the same dialect, and offers the `Canonicalizer` that takes a
  `sqlparser` dialect.
- `tests/` runs the library on predicates built as the parser hands them over.
