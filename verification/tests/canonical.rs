//! Canonical text of predicates, built as the parser would hand them over.

use sqlparser_canonicalize::{
    AccessExpr, BinaryOperator, CanonicalizeError, Canonicalizer, CastKind, Dialect,
    DialectFamily, Expr, Function, FunctionArg, FunctionArguments, Ident, Literal, LiteralKind,
    LimitClause, ObjectName, ObjectNamePart, PostfixTest, Query, Select, SelectItem, SetExpr,
    Subquery, TableWithJoins, UnaryOperator,
};

fn canonicalizer(family: DialectFamily) -> Canonicalizer {
    let identifier_quote = match family {
        DialectFamily::MySql | DialectFamily::SQLite => '`',
        _ => '"',
    };
    Canonicalizer::new(Dialect { family, identifier_quote: Some(identifier_quote) })
}

fn pg() -> Canonicalizer {
    canonicalizer(DialectFamily::PostgreSql)
}

fn mysql() -> Canonicalizer {
    canonicalizer(DialectFamily::MySql)
}

fn sqlite() -> Canonicalizer {
    canonicalizer(DialectFamily::SQLite)
}

fn ansi() -> Canonicalizer {
    canonicalizer(DialectFamily::Ansi)
}

fn generic() -> Canonicalizer {
    canonicalizer(DialectFamily::Other)
}

fn name(value: &str) -> Ident {
    Ident { value: value.to_string(), quote_style: None }
}

fn col(value: &str) -> Expr {
    Expr::Identifier(name(value))
}

fn quoted(value: &str, quote: char) -> Expr {
    Expr::Identifier(Ident { value: value.to_string(), quote_style: Some(quote) })
}

fn num(text: &str) -> Expr {
    Expr::Value(Literal { kind: LiteralKind::Other, text: text.to_string() })
}

fn string(value: &str) -> Expr {
    Expr::Value(Literal {
        kind: LiteralKind::SingleQuoted(value.to_string()),
        text: format!("'{}'", value.replace('\'', "''")),
    })
}

fn boolean(value: bool) -> Expr {
    Expr::Value(Literal { kind: LiteralKind::Boolean(value), text: value.to_string() })
}

fn bin(left: Expr, op: BinaryOperator, right: Expr) -> Expr {
    Expr::BinaryOp { left: Box::new(left), op, right: Box::new(right) }
}

fn eq(left: Expr, right: Expr) -> Expr {
    bin(left, BinaryOperator::Eq, right)
}

fn and(left: Expr, right: Expr) -> Expr {
    bin(left, BinaryOperator::And, right)
}

fn or(left: Expr, right: Expr) -> Expr {
    bin(left, BinaryOperator::Or, right)
}

fn paren(inner: Expr) -> Expr {
    Expr::Nested(Box::new(inner))
}

fn not(operand: Expr) -> Expr {
    Expr::UnaryOp { op: UnaryOperator::Not, expr: Box::new(operand) }
}

fn minus(operand: Expr) -> Expr {
    Expr::UnaryOp { op: UnaryOperator::Minus, expr: Box::new(operand) }
}

fn test(operand: Expr, test: PostfixTest) -> Expr {
    Expr::Postfix { operand: Box::new(operand), test }
}

fn in_list(operand: Expr, list: Vec<Expr>, negated: bool) -> Expr {
    Expr::InList { expr: Box::new(operand), list, negated }
}

fn in_subquery(operand: Expr, subquery: Box<Subquery>, negated: bool) -> Expr {
    Expr::InSubquery { expr: Box::new(operand), subquery, negated }
}

/// `SELECT column FROM table [WHERE owner = 'value'] [LIMIT 1]`.
fn ids(column: &str, table: &str, owner: Option<&str>, limited: bool) -> Box<Subquery> {
    select_from(SelectItem::Expr(col(column)), table, owner, limited)
}

/// `SELECT item FROM table [WHERE owner = 'value'] [LIMIT 1]`, with the text the parser
/// prints for it.
fn select_from(item: SelectItem, table: &str, owner: Option<&str>, limited: bool) -> Box<Subquery> {
    let item_text = match &item {
        SelectItem::Expr(Expr::Identifier(id)) => id.value.clone(),
        SelectItem::Expr(Expr::Value(literal)) => literal.text.clone(),
        _ => "*".to_string(),
    };
    let mut text = format!("SELECT {item_text} FROM {table}");
    if let Some(value) = owner {
        text.push_str(&format!(" WHERE owner = '{value}'"));
    }
    if limited {
        text.push_str(" LIMIT 1");
    }
    let selection = owner.map(|value| {
        Expr::BinaryOp {
            left: Box::new(Expr::Identifier(Ident { value: "owner".to_string(), quote_style: None })),
            op: BinaryOperator::Eq,
            right: Box::new(Expr::Value(Literal {
                kind: LiteralKind::SingleQuoted(value.to_string()),
                text: format!("'{value}'"),
            })),
        }
    });
    let select = Select {
        optimizer_hints: false,
        distinct: None,
        select_modifiers: false,
        top: false,
        exclude: false,
        into: false,
        from: vec![TableWithJoins { relation_is_table: true, join_count: 0 }],
        lateral_views: false,
        prewhere: false,
        selection,
        connect_by: false,
        cluster_by: false,
        distribute_by: false,
        sort_by: false,
        named_window: false,
        qualify: false,
        value_table_mode: false,
    };
    Box::new(Subquery {
        text,
        query: Query {
            with: false,
            body: SetExpr::Select(select),
            limit_clause: if limited {
                Some(LimitClause::LimitOffset { has_limit: true, has_offset: false, has_limit_by: false })
            } else {
                None
            },
            fetch: false,
            locks: false,
            for_clause: false,
            settings: false,
            format_clause: false,
            pipe_operators: false,
        },
        order_by: false,
        group_by: false,
        having: false,
        table_options: false,
        table_hints: false,
        table_name: ObjectName {
            parts: vec![ObjectNamePart::Identifier(Ident { value: table.to_string(), quote_style: None })],
            text: table.to_string(),
        },
        projection: vec![item],
    })
}


fn between(operand: Expr, low: Expr, high: Expr, negated: bool) -> Expr {
    Expr::Between { expr: Box::new(operand), negated, low: Box::new(low), high: Box::new(high) }
}

fn like(operand: Expr, pattern: Expr, negated: bool) -> Expr {
    Expr::Like {
        negated,
        any: false,
        expr: Box::new(operand),
        pattern: Box::new(pattern),
        escape_char: None,
    }
}

fn ilike(operand: Expr, pattern: Expr, negated: bool) -> Expr {
    Expr::ILike {
        negated,
        any: false,
        expr: Box::new(operand),
        pattern: Box::new(pattern),
        escape_char: None,
    }
}

fn distinct_from(left: Expr, right: Expr, negated: bool) -> Expr {
    if negated {
        Expr::IsNotDistinctFrom(Box::new(left), Box::new(right))
    } else {
        Expr::IsDistinctFrom(Box::new(left), Box::new(right))
    }
}

/// A plain call with `arguments` unnamed arguments, printed as `text`.
fn call(function: &str, arguments: usize, text: &str) -> Expr {
    Expr::Function(Function {
        name: ObjectName {
            parts: vec![ObjectNamePart::Identifier(name(function))],
            text: function.to_string(),
        },
        uses_odbc_syntax: false,
        has_parameters: false,
        args: FunctionArguments::List {
            has_duplicate_treatment: false,
            has_clauses: false,
            args: vec![FunctionArg::Expr; arguments],
        },
        has_filter: false,
        has_null_treatment: false,
        has_over: false,
        has_within_group: false,
        text: text.to_string(),
    })
}

/// Canonical text for a `WHERE` clause, accepted once reading it back gives `reread`.
fn normalize_with(
    canonicalizer: &Canonicalizer,
    predicate: &Expr,
    reread: &Expr,
) -> Result<String, CanonicalizeError> {
    let text = canonicalizer.normalize_where_clause_inner(Some(predicate))?;
    canonicalizer.confirm_reads_back_as_itself(Some(predicate), text, Some(reread))
}

/// Canonical text for a `WHERE` clause whose text reads back as the same predicate.
fn normalize(canonicalizer: &Canonicalizer, predicate: &Expr) -> String {
    normalize_with(canonicalizer, predicate, predicate).unwrap()
}

fn assert_canonical(canonicalizer: &Canonicalizer, cases: Vec<(Expr, &str)>) {
    for (predicate, expected) in cases {
        assert_eq!(normalize(canonicalizer, &predicate), expected);
    }
}

#[test]
fn test_normalize_simple() {
    let normalized = normalize(&pg(), &bin(col("age"), BinaryOperator::Gt, num("18")));
    assert!(normalized.contains("age"));
    assert!(normalized.contains(">"));
    assert!(normalized.contains("18"));
    assert_eq!(normalized, "(age > 18)");
}

#[test]
fn test_normalize_commutative_and() {
    let norm1 = normalize(&pg(), &and(eq(col("a"), num("1")), eq(col("b"), num("2"))));
    let norm2 = normalize(&pg(), &and(eq(col("b"), num("2")), eq(col("a"), num("1"))));
    assert_eq!(norm1, norm2);
    assert_eq!(norm1, "((1 = a) AND (2 = b))");
}

#[test]
fn test_normalize_commutative_or() {
    let norm1 = normalize(&pg(), &or(eq(col("a"), num("1")), eq(col("b"), num("2"))));
    let norm2 = normalize(&pg(), &or(eq(col("b"), num("2")), eq(col("a"), num("1"))));
    assert_eq!(norm1, norm2);
    assert_eq!(norm1, "((1 = a) OR (2 = b))");
}

#[test]
fn test_normalize_in_list_sorted() {
    let norm1 = normalize(&pg(), &in_list(col("x"), vec![num("1"), num("2"), num("3")], false));
    let norm2 = normalize(&pg(), &in_list(col("x"), vec![num("3"), num("1"), num("2")], false));
    assert_eq!(norm1, norm2);
    assert_eq!(norm1, "x IN (1, 2, 3)");
}

#[test]
fn a_membership_term_normalizes_the_same_under_two_spellings() {
    // The parser prints a subquery one way however it was spaced or cased.
    let one = normalize(&pg(), &in_subquery(col("x"), ids("id", "m", Some("a"), false), false));
    let two = normalize(&pg(), &in_subquery(col("X"), ids("id", "m", Some("a"), false), false));
    assert_eq!(one, two, "one filter, two spellings, one predicate");
    assert_eq!(one, "x IN (SELECT id FROM m WHERE owner = 'a')");
}

#[test]
fn two_different_membership_terms_are_two_predicates() {
    let base = normalize(&pg(), &in_subquery(col("x"), ids("id", "m", Some("a"), false), false));
    for other in [
        in_subquery(col("x"), ids("id", "n", Some("a"), false), false),
        in_subquery(col("x"), ids("ref", "m", Some("a"), false), false),
        in_subquery(col("x"), ids("id", "m", Some("b"), false), false),
        in_subquery(col("y"), ids("id", "m", Some("a"), false), false),
        in_subquery(col("x"), ids("id", "m", Some("a"), true), false),
        in_subquery(col("x"), ids("id", "m", Some("a"), false), true),
    ] {
        assert_ne!(base, normalize(&pg(), &other));
    }
}

#[test]
fn test_normalize_nested_parentheses() {
    let norm1 = normalize(&pg(), &paren(paren(bin(col("age"), BinaryOperator::Gt, num("18")))));
    let norm2 = normalize(&pg(), &bin(col("age"), BinaryOperator::Gt, num("18")));
    assert_eq!(norm1, norm2);
}

#[test]
fn test_normalize_preserves_order_noncommutative() {
    let norm1 = normalize(&pg(), &bin(col("a"), BinaryOperator::Lt, col("b")));
    let norm2 = normalize(&pg(), &bin(col("b"), BinaryOperator::Lt, col("a")));
    assert_ne!(norm1, norm2);
    assert_eq!(norm1, "(a < b)");
    assert_eq!(norm2, "(b < a)");
}

#[test]
fn test_normalize_all_operators() {
    for op in [
        BinaryOperator::Eq,
        BinaryOperator::NotEq,
        BinaryOperator::Lt,
        BinaryOperator::Gt,
        BinaryOperator::LtEq,
        BinaryOperator::GtEq,
    ] {
        let result = pg().normalize_where_clause_inner(Some(&bin(col("a"), op, col("b"))));
        assert!(result.is_ok());
    }
    for op in [BinaryOperator::And, BinaryOperator::Or] {
        let predicate = bin(eq(col("a"), num("1")), op, eq(col("b"), num("2")));
        assert!(pg().normalize_where_clause_inner(Some(&predicate)).is_ok());
    }
}

#[test]
fn test_normalize_arithmetic_operators() {
    let expected = [
        (BinaryOperator::Plus, "((a + b) > 10)"),
        (BinaryOperator::Minus, "((a - b) > 10)"),
        (BinaryOperator::Multiply, "((a * b) > 10)"),
        (BinaryOperator::Divide, "((a / b) > 10)"),
        (BinaryOperator::Modulo, "((a % b) > 10)"),
    ];
    for (op, text) in expected {
        let predicate = bin(bin(col("a"), op, col("b")), BinaryOperator::Gt, num("10"));
        assert_eq!(normalize(&pg(), &predicate), text);
    }
}

#[test]
fn test_normalize_not_operator() {
    let norm1 = normalize(&pg(), &not(paren(eq(col("a"), num("1")))));
    let norm2 = normalize(&pg(), &bin(col("a"), BinaryOperator::NotEq, num("1")));
    assert_ne!(norm1, norm2);
    assert_eq!(norm1, "NOT (1 = a)");
}

#[test]
fn test_normalize_complex_nested_expression() {
    let predicate = and(
        paren(or(
            paren(and(eq(col("a"), num("1")), eq(col("b"), num("2")))),
            paren(and(eq(col("c"), num("3")), eq(col("d"), num("4")))),
        )),
        eq(col("e"), num("5")),
    );
    assert_eq!(
        normalize(&pg(), &predicate),
        "((((1 = a) AND (2 = b)) OR ((3 = c) AND (4 = d))) AND (5 = e))"
    );
}

#[test]
fn test_normalize_in_list_order() {
    let norm1 = normalize(
        &pg(),
        &in_list(col("status"), vec![string("active"), string("pending"), string("processing")], false),
    );
    let norm2 = normalize(
        &pg(),
        &in_list(col("status"), vec![string("processing"), string("active"), string("pending")], false),
    );
    assert_eq!(norm1, norm2);
    assert_eq!(norm1, "status IN ('active', 'pending', 'processing')");
}

#[test]
fn test_normalize_is_null() {
    let result = normalize(&pg(), &test(col("age"), PostfixTest::IsNull));
    assert!(result.contains("IS NULL"));
    assert_eq!(result, "age IS NULL");
}

#[test]
fn test_normalize_is_not_null() {
    let result = normalize(&pg(), &test(col("age"), PostfixTest::IsNotNull));
    assert!(result.contains("IS NOT NULL"));
}

#[test]
fn test_normalize_between() {
    let result = normalize(&pg(), &between(col("age"), num("18"), num("65"), false));
    assert!(result.contains("BETWEEN"));
    assert!(result.contains("18"));
    assert!(result.contains("65"));
    assert_eq!(result, "age BETWEEN 18 AND 65");
}

#[test]
fn test_normalize_not_between() {
    let result = normalize(&pg(), &between(col("age"), num("18"), num("65"), true));
    assert!(result.contains("NOT BETWEEN"));
}

#[test]
fn test_normalize_like() {
    let result = normalize(&pg(), &like(col("name"), string("John%"), false));
    assert!(result.contains("LIKE"));
    assert_eq!(result, "name LIKE 'John%'");
}

#[test]
fn test_normalize_not_like() {
    let result = normalize(&pg(), &like(col("name"), string("John%"), true));
    assert!(result.contains("NOT LIKE"));
}

fn with_escape(matching: Expr, escape: Expr) -> Expr {
    match matching {
        Expr::Like { negated, any, expr, pattern, .. } => {
            Expr::Like { negated, any, expr, pattern, escape_char: Some(Box::new(escape)) }
        },
        Expr::ILike { negated, any, expr, pattern, .. } => {
            Expr::ILike { negated, any, expr, pattern, escape_char: Some(Box::new(escape)) }
        },
        other => other,
    }
}

#[test]
fn test_normalize_like_with_escape() {
    let predicate = with_escape(like(col("name"), string("John\\%"), false), string("\\"));
    let result = normalize(&pg(), &predicate);
    assert!(result.contains("LIKE"));
    assert!(result.contains("ESCAPE"));
    assert_eq!(result, "name LIKE 'John\\%' ESCAPE '\\'");
}

#[test]
fn test_normalize_ilike() {
    let result = normalize(&pg(), &ilike(col("name"), string("john%"), false));
    assert!(result.contains("ILIKE"));
}

#[test]
fn test_normalize_not_ilike() {
    let result = normalize(&pg(), &ilike(col("name"), string("john%"), true));
    assert!(result.contains("NOT ILIKE"));
}

#[test]
fn test_normalize_ilike_with_escape() {
    let predicate = with_escape(ilike(col("name"), string("john\\%"), false), string("\\"));
    let result = normalize(&pg(), &predicate);
    assert!(result.contains("ILIKE"));
    assert!(result.contains("ESCAPE"));
}

#[test]
fn test_normalize_compound_identifier() {
    let predicate = eq(
        Expr::CompoundIdentifier(vec![name("schema"), name("table"), name("column")]),
        num("1"),
    );
    let result = normalize(&pg(), &predicate);
    assert!(result.contains("schema.table.column"));
    assert_eq!(result, "(1 = schema.table.column)");
}

#[test]
fn test_normalize_unary_plus() {
    let predicate =
        eq(Expr::UnaryOp { op: UnaryOperator::Plus, expr: Box::new(col("age")) }, num("10"));
    let result = normalize(&pg(), &predicate);
    assert!(result.contains("+"));
    assert_eq!(result, "(+ age = 10)");
}

#[test]
fn test_normalize_unary_minus() {
    let predicate = bin(minus(col("balance")), BinaryOperator::Gt, num("100"));
    let result = normalize(&pg(), &predicate);
    assert!(result.contains("-"));
    assert_eq!(result, "(- balance > 100)");
}

#[test]
fn test_normalize_not_in_list() {
    let predicate = in_list(col("status"), vec![string("active"), string("pending")], true);
    let result = normalize(&pg(), &predicate);
    assert!(result.contains("NOT IN"));
}

#[test]
fn test_fallback_expression_is_idempotent() {
    let cast = || Expr::Cast {
        kind: CastKind::Cast,
        expr: "a".to_string(),
        data_type: "TEXT".to_string(),
        has_format: false,
    };
    let normalized = normalize(&pg(), &eq(cast(), string("hello")));
    assert_eq!(normalized, "('hello' = CAST(a AS TEXT))");
    // Read back, the text is the comparison with its operands swapped, in parentheses.
    let replay = paren(eq(string("hello"), cast()));
    assert_eq!(normalize(&pg(), &replay), normalized);
}

#[test]
fn test_boolean_truth_test_is_idempotent() {
    let normalized = normalize(&pg(), &test(col("enabled"), PostfixTest::IsTrue));
    assert_eq!(normalized, "enabled IS TRUE");
    assert_eq!(normalize(&pg(), &test(col("enabled"), PostfixTest::IsTrue)), normalized);
}

#[test]
fn test_normalize_unknown_unary_op_fallback() {
    let predicate = eq(
        Expr::UnaryOp { op: UnaryOperator::Other("~".to_string()), expr: Box::new(col("a")) },
        num("1"),
    );
    let result = pg().normalize_where_clause_inner(Some(&predicate));
    assert!(matches!(result, Err(CanonicalizeError::Unsupported(_))));
    assert_eq!(
        result,
        Err(CanonicalizeError::Unsupported("Unsupported unary operator: ~".to_string()))
    );
}

#[test]
fn test_and_tree_flattening() {
    let a = || eq(col("a"), num("1"));
    let b = || eq(col("b"), num("2"));
    let c = || eq(col("c"), num("3"));
    let norm1 = normalize(&pg(), &and(and(a(), b()), c()));
    let norm2 = normalize(&pg(), &and(paren(and(a(), b())), c()));
    let norm3 = normalize(&pg(), &and(a(), paren(and(b(), c()))));
    assert_eq!(norm1, norm2, "Flat AND should equal left-associated AND");
    assert_eq!(norm1, norm3, "Flat AND should equal right-associated AND");
    assert_eq!(norm1, "(((1 = a) AND (2 = b)) AND (3 = c))");
}

#[test]
fn test_or_tree_flattening() {
    let a = || eq(col("a"), num("1"));
    let b = || eq(col("b"), num("2"));
    let c = || eq(col("c"), num("3"));
    let norm1 = normalize(&pg(), &or(or(a(), b()), c()));
    let norm2 = normalize(&pg(), &or(paren(or(a(), b())), c()));
    let norm3 = normalize(&pg(), &or(a(), paren(or(b(), c()))));
    assert_eq!(norm1, norm2);
    assert_eq!(norm1, norm3);
}

#[test]
fn test_distinct_operators_produce_different_strings() {
    let plus = bin(bin(col("a"), BinaryOperator::Plus, col("b")), BinaryOperator::Gt, num("0"));
    let minus_ = bin(bin(col("a"), BinaryOperator::Minus, col("b")), BinaryOperator::Gt, num("0"));
    assert_ne!(normalize(&pg(), &plus), normalize(&pg(), &minus_));
}

#[test]
fn test_reject_uncanonicalizable_binary_operator() {
    let predicate = eq(bin(col("a"), BinaryOperator::Other("#".to_string()), col("b")), num("1"));
    assert_eq!(
        pg().normalize_where_clause_inner(Some(&predicate)),
        Err(CanonicalizeError::Unsupported("Unsupported binary operator: #".to_string()))
    );
}

#[test]
fn test_reject_literal_that_loses_a_quote_level() {
    let predicate = eq(col("a"), string("''"));
    assert!(matches!(
        pg().normalize_where_clause_inner(Some(&predicate)),
        Err(CanonicalizeError::NotRoundTrippable(_))
    ));
}

#[test]
fn test_reject_mysql_pattern_ending_with_the_escape() {
    let predicate = like(col("name"), string("a\\"), false);
    // MySQL reads the backslash as escaping the closing quote, so its parser reads nothing
    // back from the canonical text.
    let canonicalizer = mysql();
    let text = canonicalizer.normalize_where_clause_inner(Some(&predicate)).unwrap();
    assert_eq!(
        canonicalizer.confirm_reads_back_as_itself(Some(&predicate), text, None),
        Err(CanonicalizeError::NotRoundTrippable("name LIKE 'a\\'".to_string()))
    );
    assert_eq!(normalize(&pg(), &predicate), "name LIKE 'a\\'");
}

#[test]
fn test_quoted_identifier_carrying_its_delimiter_is_escaped() {
    assert_eq!(normalize(&pg(), &eq(quoted("a\"b", '"'), num("7"))), "(\"a\"\"b\" = 7)");
    assert_eq!(normalize(&pg(), &eq(quoted("a\"\"b", '"'), num("1"))), "(\"a\"\"\"\"b\" = 1)");
}

#[test]
fn test_function_call_in_predicate_is_canonicalized() {
    let predicate = bin(call("COALESCE", 2, "COALESCE(a, 1)"), BinaryOperator::Gt, num("0"));
    assert_eq!(normalize(&pg(), &predicate), "(COALESCE(a, 1) > 0)");
}

#[test]
fn predicate_operands_keep_their_parentheses() {
    let cases = || {
        vec![
            (eq(col("flag"), paren(test(col("value"), PostfixTest::IsNull))), "((value IS NULL) = flag)"),
            (eq(paren(test(col("a"), PostfixTest::IsNull)), col("b")), "((a IS NULL) = b)"),
            (
                eq(col("flag"), paren(test(col("v"), PostfixTest::IsNotNull))),
                "((v IS NOT NULL) = flag)",
            ),
            (
                eq(col("flag"), paren(in_list(col("v"), vec![num("1"), num("2")], false))),
                "((v IN (1, 2)) = flag)",
            ),
            (
                bin(col("flag"), BinaryOperator::Lt, paren(in_subquery(col("v"), ids("id", "u", None, false), false))),
                "(flag < (v IN (SELECT id FROM u)))",
            ),
            (
                eq(col("flag"), paren(between(col("v"), num("1"), num("2"), true))),
                "((v NOT BETWEEN 1 AND 2) = flag)",
            ),
            (eq(col("flag"), paren(like(col("v"), string("x"), false))), "((v LIKE 'x') = flag)"),
            (
                test(paren(test(col("a"), PostfixTest::IsNull)), PostfixTest::IsNull),
                "(a IS NULL) IS NULL",
            ),
            (
                between(col("v"), paren(test(col("a"), PostfixTest::IsNull)), col("b"), false),
                "v BETWEEN (a IS NULL) AND b",
            ),
            (not(paren(test(col("a"), PostfixTest::IsNull))), "NOT (a IS NULL)"),
        ]
    };
    assert_canonical(&pg(), cases());
    assert_canonical(&mysql(), cases());
    assert_canonical(
        &pg(),
        vec![(eq(col("flag"), paren(ilike(col("v"), string("x"), false))), "((v ILIKE 'x') = flag)")],
    );
}

#[test]
fn predicates_that_are_not_operands_stay_unparenthesized() {
    assert_canonical(
        &pg(),
        vec![
            (paren(test(col("a"), PostfixTest::IsNull)), "a IS NULL"),
            (
                and(paren(like(col("v"), string("x"), false)), paren(in_list(col("w"), vec![num("1")], false))),
                "(v LIKE 'x' AND w IN (1))",
            ),
        ],
    );
}

#[test]
fn null_safe_equality_orders_its_operands() {
    let spaceship = |left, right| bin(left, BinaryOperator::Spaceship, right);
    for predicate in [
        spaceship(col("n"), col("m")),
        spaceship(col("M"), col("N")),
        spaceship(col("m"), paren(col("n"))),
    ] {
        assert_eq!(normalize(&mysql(), &predicate), "(m <=> n)");
    }
}

#[test]
fn is_not_distinct_from_normalizes_and_orders_its_operands() {
    for predicate in [
        distinct_from(col("n"), col("m"), true),
        distinct_from(col("M"), col("N"), true),
        distinct_from(col("m"), paren(col("n")), true),
    ] {
        assert_eq!(normalize(&pg(), &predicate), "(m IS NOT DISTINCT FROM n)");
    }
}

#[test]
fn is_distinct_from_normalizes_and_orders_its_operands() {
    for predicate in
        [distinct_from(col("n"), col("m"), false), distinct_from(col("M"), paren(col("N")), false)]
    {
        assert_eq!(normalize(&pg(), &predicate), "(m IS DISTINCT FROM n)");
    }
}

#[test]
fn inequality_orders_its_operands() {
    for predicate in [
        bin(col("a"), BinaryOperator::NotEq, col("b")),
        bin(col("b"), BinaryOperator::NotEq, col("a")),
    ] {
        assert_eq!(normalize(&pg(), &predicate), "(a != b)");
    }
}

#[test]
fn nested_distinctness_tests_read_back_as_themselves() {
    assert_canonical(
        &pg(),
        vec![
            (
                eq(paren(distinct_from(col("a"), col("b"), false)), col("c")),
                "((a IS DISTINCT FROM b) = c)",
            ),
            (
                distinct_from(col("c"), paren(distinct_from(col("b"), col("a"), false)), true),
                "((a IS DISTINCT FROM b) IS NOT DISTINCT FROM c)",
            ),
        ],
    );
}

#[test]
fn null_safe_comparisons_keep_predicate_operands_enclosed() {
    assert_canonical(
        &pg(),
        vec![
            (
                distinct_from(col("flag"), paren(test(col("value"), PostfixTest::IsNull)), false),
                "((value IS NULL) IS DISTINCT FROM flag)",
            ),
            (
                distinct_from(paren(test(col("value"), PostfixTest::IsNull)), col("flag"), true),
                "((value IS NULL) IS NOT DISTINCT FROM flag)",
            ),
            (
                distinct_from(col("z"), paren(like(col("v"), string("x"), false)), false),
                "((v LIKE 'x') IS DISTINCT FROM z)",
            ),
            (
                distinct_from(col("a"), paren(in_list(col("v"), vec![num("1"), num("2")], false)), true),
                "((v IN (1, 2)) IS NOT DISTINCT FROM a)",
            ),
        ],
    );
    assert_canonical(
        &mysql(),
        vec![
            (
                bin(col("flag"), BinaryOperator::Spaceship, paren(test(col("value"), PostfixTest::IsNull))),
                "((value IS NULL) <=> flag)",
            ),
            (
                bin(paren(test(col("b"), PostfixTest::IsNull)), BinaryOperator::NotEq, col("a")),
                "((b IS NULL) != a)",
            ),
            (
                bin(col("z"), BinaryOperator::NotEq, paren(test(col("b"), PostfixTest::IsNull))),
                "((b IS NULL) != z)",
            ),
        ],
    );
}

fn rlike(operand: Expr, pattern: Expr, regexp: bool) -> Expr {
    Expr::RLike { negated: false, expr: Box::new(operand), pattern: Box::new(pattern), regexp }
}

#[test]
fn a_verbatim_predicate_as_operand_keeps_its_grouping() {
    let any_of = Expr::AnyOp {
        left: Box::new(col("x")),
        compare_op: BinaryOperator::Eq,
        right: Box::new(col("y")),
    };
    let similar = Expr::SimilarTo {
        negated: false,
        expr: Box::new(col("x")),
        pattern: Box::new(string("y")),
        escape_char: None,
    };
    assert_canonical(
        &pg(),
        vec![
            (like(col("z"), paren(test(col("x"), PostfixTest::IsTrue)), false), "z LIKE (x IS TRUE)"),
            (test(like(col("z"), col("x"), false), PostfixTest::IsTrue), "z LIKE x IS TRUE"),
            (
                ilike(col("z"), paren(test(col("x"), PostfixTest::IsUnknown)), true),
                "z NOT ILIKE (x IS UNKNOWN)",
            ),
            (test(ilike(col("z"), col("x"), true), PostfixTest::IsUnknown), "z NOT ILIKE x IS UNKNOWN"),
            (
                between(col("z"), num("1"), paren(test(col("x"), PostfixTest::IsTrue)), false),
                "z BETWEEN 1 AND (x IS TRUE)",
            ),
            (
                test(between(col("z"), num("1"), col("x"), false), PostfixTest::IsTrue),
                "z BETWEEN 1 AND x IS TRUE",
            ),
            (like(col("z"), paren(any_of), false), "z LIKE (x = ANY(y))"),
            (like(col("z"), paren(similar), false), "z LIKE (x SIMILAR TO 'y')"),
        ],
    );
    let member_of =
        Expr::MemberOf { value: Box::new(col("x")), array: Box::new(paren(col("y"))) };
    assert_canonical(
        &mysql(),
        vec![
            (in_list(paren(rlike(col("x"), string("y"), true)), vec![num("1")], false), "(x REGEXP 'y') IN (1)"),
            (rlike(col("x"), in_list(string("y"), vec![num("1")], false), true), "x REGEXP 'y' IN (1)"),
            (
                between(paren(rlike(col("x"), string("y"), false)), num("1"), num("2"), false),
                "(x RLIKE 'y') BETWEEN 1 AND 2",
            ),
            (
                rlike(col("x"), between(string("y"), num("1"), num("2"), false), false),
                "x RLIKE 'y' BETWEEN 1 AND 2",
            ),
            (like(col("z"), paren(member_of), false), "z LIKE (x MEMBER OF(y))"),
        ],
    );
}

#[test]
fn a_verbatim_predicate_as_operand_is_accepted() {
    assert_canonical(
        &pg(),
        vec![
            (minus(paren(test(col("x"), PostfixTest::IsTrue))), "- (x IS TRUE)"),
            (
                between(col("z"), paren(test(col("x"), PostfixTest::IsTrue)), num("2"), false),
                "z BETWEEN (x IS TRUE) AND 2",
            ),
            (
                bin(paren(test(col("x"), PostfixTest::IsNotFalse)), BinaryOperator::NotEq, col("z")),
                "((x IS NOT FALSE) != z)",
            ),
        ],
    );
    let similar = Expr::SimilarTo {
        negated: false,
        expr: Box::new(col("x")),
        pattern: Box::new(string("y")),
        escape_char: None,
    };
    assert_canonical(&mysql(), vec![(eq(paren(similar), col("z")), "((x SIMILAR TO 'y') = z)")]);
}

fn dotted(parts: Vec<Ident>) -> Expr {
    Expr::CompoundIdentifier(parts)
}

#[test]
fn mysql_keeps_the_case_of_a_table_qualifier() {
    assert_canonical(
        &mysql(),
        vec![
            (eq(dotted(vec![name("T"), name("a")]), num("1")), "(1 = T.a)"),
            (eq(dotted(vec![name("t"), name("A")]), num("1")), "(1 = t.a)"),
            (
                eq(
                    dotted(vec![Ident { value: "T".to_string(), quote_style: Some('`') }, name("a")]),
                    num("1"),
                ),
                "(1 = `T`.a)",
            ),
        ],
    );
    assert_canonical(&pg(), vec![(eq(dotted(vec![name("T"), name("A")]), num("1")), "(1 = t.a)")]);
}

#[test]
fn distinct_operators_remain_distinct() {
    let less = normalize(&pg(), &bin(col("a"), BinaryOperator::Lt, col("b")));
    let greater = normalize(&pg(), &bin(col("a"), BinaryOperator::Gt, col("b")));
    assert_ne!(less, greater);
}

#[test]
fn unsafe_quoted_identifiers_are_idempotent() {
    for (column, expected) in [("-tatus", "('paid' = `-tatus`)"), ("any", "('paid' = `any`)")] {
        let canonical = normalize(&mysql(), &eq(quoted(column, '`'), string("paid")));
        assert_eq!(canonical, expected);
        let replay = paren(eq(string("paid"), quoted(column, '`')));
        assert_eq!(normalize(&mysql(), &replay), canonical);
    }
}

#[test]
fn nested_negation_is_idempotent() {
    let negated = || paren(not(col("a")));
    for (predicate, expected) in [
        (eq(negated(), col("b")), "((NOT a) = b)"),
        (test(negated(), PostfixTest::IsNull), "(NOT a) IS NULL"),
        (in_list(negated(), vec![col("b"), col("c")], false), "(NOT a) IN (b, c)"),
        (between(negated(), col("b"), col("c"), false), "(NOT a) BETWEEN b AND c"),
    ] {
        let canonical = normalize(&pg(), &predicate);
        assert_eq!(canonical, expected);
        assert_eq!(normalize(&pg(), &paren(predicate)), canonical);
    }
}

#[test]
fn predicates_whose_canonical_text_would_not_read_back_are_rejected() {
    // The parser drops one level of quote doubling every time it prints this literal.
    assert!(pg().normalize_where_clause_inner(Some(&string("''"))).is_err());
    // The parser prints this field access without the space it needs to be read back.
    let case = Expr::Case("CASE WHEN a = 1 THEN b ELSE c END".to_string());
    let access = Expr::CompoundFieldAccess {
        root: Box::new(case),
        access_chain: vec![AccessExpr::Dot(num("2"))],
    };
    assert!(pg().normalize_where_clause_inner(Some(&access)).is_err());
}

#[test]
fn deeply_nested_negation_is_refused_rather_than_fatal() {
    let mut predicate = col("a");
    for _ in 0..1024 {
        predicate = not(predicate);
    }
    assert_eq!(
        pg().normalize_where_clause_inner(Some(&predicate)),
        Err(CanonicalizeError::TooDeep { limit: 128 })
    );
}

#[test]
fn postgres_keeps_a_quoted_name_distinct_from_its_unquoted_spelling() {
    let quoted_name = normalize(&pg(), &eq(quoted("Status", '"'), string("paid")));
    let bare = normalize(&pg(), &eq(col("Status"), string("paid")));
    assert_ne!(quoted_name, bare);
}

#[test]
fn case_insensitive_dialects_merge_the_two_spellings() {
    let expected = normalize(&sqlite(), &eq(col("mycol"), string("paid")));
    for column in [quoted("MyCol", '"'), col("MyCoL")] {
        assert_eq!(normalize(&sqlite(), &eq(column, string("paid"))), expected);
    }
    assert_eq!(expected, "('paid' = mycol)");
}

#[test]
fn a_quoted_keyword_name_keeps_its_quotes() {
    assert_eq!(normalize(&sqlite(), &eq(quoted("status", '"'), num("1"))), "(\"status\" = 1)");
    assert_eq!(normalize(&sqlite(), &eq(col("status"), num("1"))), "(1 = status)");
}

#[test]
fn postgres_quotes_only_names_that_folding_would_change() {
    assert_eq!(normalize(&pg(), &eq(quoted("Status", '"'), num("1"))), "(\"Status\" = 1)");
    // `status` is a SQL keyword, so the quoted spelling keeps its quotes even though folding
    // alone would not have needed them.
    assert_eq!(normalize(&pg(), &eq(quoted("status", '"'), num("1"))), "(\"status\" = 1)");
    // A name that is not a keyword does lose them, and so shares a key with the bare spelling.
    assert_eq!(normalize(&pg(), &eq(quoted("mycol", '"'), num("1"))), "(1 = mycol)");
    assert_eq!(normalize(&pg(), &eq(col("Status"), num("1"))), "(1 = status)");
}

#[test]
fn ansi_folds_unquoted_names_upward() {
    assert_eq!(normalize(&ansi(), &eq(col("mycol"), num("1"))), "(1 = MYCOL)");
    assert_eq!(normalize(&ansi(), &eq(quoted("MYCOL", '"'), num("1"))), "(1 = MYCOL)");
    // Lower case survived quoting, so it is a different name and keeps its quotes.
    assert_eq!(normalize(&ansi(), &eq(quoted("mycol", '"'), num("1"))), "(\"mycol\" = 1)");
}

#[test]
fn an_unknown_dialect_keeps_names_exactly() {
    assert_eq!(normalize(&generic(), &eq(quoted("MyCol", '"'), num("1"))), "(\"MyCol\" = 1)");
    assert_eq!(normalize(&generic(), &eq(col("MyCol"), num("1"))), "(1 = MyCol)");
}

#[test]
fn mysql_escapes_a_backtick_inside_a_name() {
    assert_eq!(normalize(&mysql(), &eq(quoted("a`b", '`'), num("1"))), "(1 = `a``b`)");
}

#[test]
fn a_bare_keyword_name_is_refused_where_no_folding_ties_it_to_a_quoted_one() {
    // Quoting `EXISTS` could name another column in a dialect with unknown folding.
    assert_eq!(
        generic().normalize_where_clause_inner(Some(&eq(col("EXISTS"), num("1")))),
        Err(CanonicalizeError::Unsupported(
            "Name EXISTS reads as a keyword out of its place".to_string()
        ))
    );
    // Where folding is known, the name is delimited instead.
    assert_eq!(normalize(&pg(), &eq(col("EXISTS"), num("1"))), "(\"exists\" = 1)");
}

#[test]
fn a_function_named_like_a_quantifier_is_refused() {
    let predicate = eq(num("1"), call("any", 1, "any(x)"));
    assert_eq!(
        pg().normalize_where_clause_inner(Some(&predicate)),
        Err(CanonicalizeError::Unsupported("Function named any reads back as a quantifier".to_string()))
    );
}

#[test]
fn arithmetic_keeps_its_written_order() {
    let sum = |left, right| bin(left, BinaryOperator::Plus, right);
    let product = |left, right| bin(left, BinaryOperator::Multiply, right);
    // `+` also concatenates strings in SQL Server, so no dialect swaps its operands.
    assert_eq!(normalize(&pg(), &eq(sum(col("b"), col("a")), num("1"))), "((b + a) = 1)");
    assert_eq!(normalize(&generic(), &eq(sum(col("b"), col("a")), num("1"))), "((b + a) = 1)");
    assert_eq!(normalize(&mysql(), &eq(product(col("b"), col("a")), num("1"))), "((b * a) = 1)");
}

#[test]
fn true_reads_back_as_a_boolean() {
    assert_eq!(normalize(&pg(), &not(paren(eq(col("active"), boolean(true))))), "NOT (active = true)");
}

#[test]
fn text_that_reads_back_as_another_predicate_is_refused() {
    let canonicalizer = pg();
    let predicate = eq(col("a"), num("1"));
    let other = eq(col("a"), num("2"));
    let text = canonicalizer.normalize_where_clause_inner(Some(&predicate)).unwrap();
    assert_eq!(
        canonicalizer.confirm_reads_back_as_itself(Some(&predicate), text, Some(&other)),
        Err(CanonicalizeError::NotRoundTrippable("(1 = a)".to_string()))
    );
}

#[test]
fn respellings_anywhere_in_a_predicate_share_one_text() {
    let distinct = |left, right| Expr::IsDistinctFrom(Box::new(left), Box::new(right));
    // `A = 1 AND (b <> c AND d IS DISTINCT FROM e)`
    let first = and(
        eq(col("A"), num("1")),
        paren(and(bin(col("b"), BinaryOperator::NotEq, col("c")), distinct(col("d"), col("e")))),
    );
    // `(((e IS DISTINCT FROM D) AND (1 = a)) AND (c != b))`
    let last = and(
        paren(and(paren(distinct(col("e"), col("D"))), paren(eq(num("1"), col("a"))))),
        paren(bin(col("c"), BinaryOperator::NotEq, col("b"))),
    );
    let text = normalize(&pg(), &first);
    assert_eq!(text, "(((1 = a) AND (b != c)) AND (d IS DISTINCT FROM e))");
    assert_eq!(normalize(&pg(), &last), text);
    assert_eq!(normalize(&mysql(), &last), normalize(&mysql(), &first));
    // A quoted name keeps its case in PostgreSQL, so it is no respelling there.
    let quoted = and(eq(quoted("A", '"'), num("1")), bin(col("b"), BinaryOperator::NotEq, col("c")));
    assert_ne!(normalize(&pg(), &quoted), normalize(&pg(), &and(eq(col("a"), num("1")), bin(col("b"), BinaryOperator::NotEq, col("c")))));
}
