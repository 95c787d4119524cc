//! The canonical text of each expression form, and the refusal of each form no `WHERE` clause
//! of a served query can hold.

use sqlparser_canonicalize::{
    normalize_expr_inner, AccessExpr, BinaryOperator, CanonicalizeError, Canonicalizer,
    CastKind, CeilFloorKind, DateTimeField, Dialect, DialectFamily, Enclosure, Expr, ExtractSyntax,
    Function, FunctionArg, FunctionArguments, Ident, Interval, Literal, LiteralKind, ObjectName,
    LimitClause, ObjectNamePart, Query, RefusedForm, Select, SelectItem, SetExpr, Subquery,
    TableWithJoins,
};

fn pg() -> Canonicalizer {
    Canonicalizer::new(Dialect { family: DialectFamily::PostgreSql, identifier_quote: Some('"') })
}

fn mysql() -> Canonicalizer {
    Canonicalizer::new(Dialect { family: DialectFamily::MySql, identifier_quote: Some('`') })
}

fn name(value: &str) -> Ident {
    Ident { value: value.to_string(), quote_style: None }
}

fn col(value: &str) -> Expr {
    Expr::Identifier(name(value))
}

fn num(text: &str) -> Expr {
    Expr::Value(Literal { kind: LiteralKind::Other, text: text.to_string() })
}

fn string(value: &str) -> Expr {
    Expr::Value(Literal {
        kind: LiteralKind::SingleQuoted(value.to_string()),
        text: format!("'{}'", value),
    })
}

fn paren(inner: Expr) -> Expr {
    Expr::Nested(Box::new(inner))
}

fn boxed(expr: Expr) -> Box<Expr> {
    Box::new(expr)
}

fn in_list(operand: Expr, list: Vec<Expr>) -> Expr {
    Expr::InList { expr: boxed(operand), list, negated: false }
}

fn object(value: &str) -> ObjectName {
    ObjectName { parts: vec![ObjectNamePart::Identifier(name(value))], text: value.to_string() }
}

fn function(function_name: ObjectName, args: FunctionArguments, text: &str) -> Function {
    Function {
        name: function_name,
        uses_odbc_syntax: false,
        has_parameters: false,
        args,
        has_filter: false,
        has_null_treatment: false,
        has_over: false,
        has_within_group: false,
        text: text.to_string(),
    }
}

fn arguments(count: usize) -> FunctionArguments {
    FunctionArguments::List { has_duplicate_treatment: false, has_clauses: false, args: vec![FunctionArg::Expr; count] }
}

fn text(canonicalizer: &Canonicalizer, expr: Expr) -> String {
    canonicalizer.normalize_where_clause_inner(Some(&expr)).unwrap()
}

fn refusal(canonicalizer: &Canonicalizer, expr: Expr) -> CanonicalizeError {
    canonicalizer.normalize_where_clause_inner(Some(&expr)).unwrap_err()
}

fn unsupported(message: &str) -> CanonicalizeError {
    CanonicalizeError::Unsupported(message.to_string())
}

fn cast(kind: CastKind, has_format: bool) -> Expr {
    Expr::Cast { kind, expr: "a".to_string(), data_type: "INT".to_string(), has_format }
}

#[test]
fn casts_take_the_cast_keyword() {
    assert_eq!(text(&pg(), cast(CastKind::DoubleColon, false)), "CAST(a AS INT)");
    assert_eq!(text(&pg(), cast(CastKind::Cast, false)), "CAST(a AS INT)");
    assert_eq!(text(&pg(), cast(CastKind::TryCast, false)), "TRY_CAST(a AS INT)");
    assert_eq!(text(&pg(), cast(CastKind::SafeCast, false)), "SAFE_CAST(a AS INT)");
    assert_eq!(refusal(&pg(), cast(CastKind::Cast, true)), unsupported("CAST with FORMAT is not supported"));
}

fn convert(is_try: bool, data_type: Option<&str>, charset: Option<&str>, target_before_value: bool) -> Expr {
    Expr::Convert {
        is_try,
        expr: boxed(col("a")),
        data_type: data_type.map(str::to_string),
        charset: charset.map(str::to_string),
        target_before_value,
        has_styles: false,
    }
}

#[test]
fn convert_keeps_its_target() {
    let m = mysql();
    assert_eq!(text(&m, convert(false, Some("CHAR"), None, false)), "CONVERT(a, CHAR)");
    assert_eq!(text(&m, convert(true, Some("CHAR"), None, false)), "TRY_CONVERT(a, CHAR)");
    assert_eq!(text(&m, convert(false, None, Some("utf8mb4"), false)), "CONVERT(a USING utf8mb4)");
    assert_eq!(
        text(&m, convert(false, Some("CHAR"), Some("utf8mb4"), false)),
        "CONVERT(a, CHAR CHARACTER SET utf8mb4)"
    );
    assert_eq!(
        refusal(&m, convert(false, None, None, false)),
        unsupported("CONVERT without a target is not supported")
    );
    assert_eq!(
        refusal(&m, convert(false, Some("INT"), None, true)),
        unsupported("CONVERT with the type first is not supported")
    );
}

#[test]
fn date_parts_and_rounding() {
    let extract = |syntax| Expr::Extract { field: "YEAR".to_string(), syntax, expr: boxed(col("d")) };
    assert_eq!(text(&pg(), extract(ExtractSyntax::From)), "EXTRACT(YEAR FROM d)");
    assert_eq!(text(&pg(), extract(ExtractSyntax::Comma)), "EXTRACT(YEAR, d)");
    assert_eq!(text(&pg(), Expr::Ceil { expr: boxed(col("x")), field: CeilFloorKind::NoDateTime }), "CEIL(x)");
    assert_eq!(
        text(&pg(), Expr::Ceil { expr: boxed(col("x")), field: CeilFloorKind::DateTimeField("DAY".to_string()) }),
        "CEIL(x TO DAY)"
    );
    assert_eq!(
        text(&pg(), Expr::Floor { expr: boxed(col("x")), field: CeilFloorKind::Scale("2".to_string()) }),
        "FLOOR(x, 2)"
    );
}

#[test]
fn string_functions_with_keywords() {
    assert_eq!(
        text(&pg(), Expr::Position { expr: boxed(col("a")), in_expr: boxed(col("b")) }),
        "POSITION(a IN b)"
    );
    // `IN` could continue the first operand, so a test there is enclosed.
    assert_eq!(
        text(&pg(), Expr::Position { expr: boxed(in_list(col("a"), vec![col("b")])), in_expr: boxed(col("c")) }),
        "POSITION((a IN (b)) IN c)"
    );
    let substring = |special, shorthand, length: Option<Expr>| Expr::Substring {
        expr: boxed(col("s")),
        substring_from: Some(boxed(num("2"))),
        substring_for: length.map(boxed),
        special,
        shorthand,
    };
    assert_eq!(text(&pg(), substring(false, false, Some(num("3")))), "SUBSTRING(s FROM 2 FOR 3)");
    assert_eq!(text(&pg(), substring(true, false, Some(num("3")))), "SUBSTRING(s, 2, 3)");
    assert_eq!(text(&pg(), substring(true, true, None)), "SUBSTR(s, 2)");
    assert_eq!(
        text(
            &pg(),
            Expr::Trim {
                trim_where: Some("BOTH".to_string()),
                trim_what: Some(boxed(string("x"))),
                expr: boxed(col("s")),
                trim_characters: None,
            }
        ),
        "TRIM(BOTH 'x' FROM s)"
    );
    assert_eq!(
        text(
            &pg(),
            Expr::Trim {
                trim_where: None,
                trim_what: None,
                expr: boxed(col("s")),
                trim_characters: Some(vec![string(" "), string("x")]),
            }
        ),
        "TRIM(s, ' ', 'x')"
    );
    assert_eq!(
        text(
            &pg(),
            Expr::Overlay {
                expr: boxed(col("s")),
                overlay_what: boxed(string("ab")),
                overlay_from: boxed(num("2")),
                overlay_for: Some(boxed(num("3"))),
            }
        ),
        "OVERLAY(s PLACING 'ab' FROM 2 FOR 3)"
    );
}

#[test]
fn constructors_and_case() {
    // A `CASE` keeps the text the parser prints for it.
    assert_eq!(
        text(&pg(), Expr::Case("CASE x WHEN (1) THEN 'a' ELSE NULL END".to_string())),
        "CASE x WHEN (1) THEN 'a' ELSE NULL END"
    );
    assert_eq!(text(&pg(), Expr::Tuple(vec![col("a"), col("b")])), "(a, b)");
    assert_eq!(text(&pg(), Expr::Array { named: true, elem: vec![num("1"), num("2")] }), "ARRAY[1, 2]");
    assert_eq!(text(&pg(), Expr::Array { named: false, elem: vec![num("1"), num("2")] }), "[1, 2]");
}

fn interval(leading: Option<&str>, leading_precision: Option<u64>, last: Option<&str>, fractional: Option<u64>) -> Expr {
    let field = |text: &str| DateTimeField { text: text.to_string(), is_second: text == "SECOND" };
    Expr::Interval(Interval {
        value: boxed(string("1")),
        leading_field: leading.map(field),
        leading_precision,
        last_field: last.map(field),
        fractional_seconds_precision: fractional,
    })
}

#[test]
fn intervals_keep_their_qualifiers() {
    assert_eq!(text(&pg(), interval(Some("DAY"), None, None, None)), "INTERVAL '1' DAY");
    assert_eq!(text(&pg(), interval(Some("DAY"), Some(2), None, None)), "INTERVAL '1' DAY (2)");
    assert_eq!(text(&pg(), interval(Some("DAY"), None, Some("HOUR"), None)), "INTERVAL '1' DAY TO HOUR");
    assert_eq!(text(&pg(), interval(Some("SECOND"), Some(2), None, Some(3))), "INTERVAL '1' SECOND (2, 3)");
    assert_eq!(text(&pg(), interval(None, None, None, None)), "INTERVAL '1'");
}

#[test]
fn typed_and_prefixed_literals() {
    let typed = |odbc| Expr::TypedString {
        data_type: "DATE".to_string(),
        value: Literal { kind: LiteralKind::SingleQuoted("2020-01-01".to_string()), text: "'2020-01-01'".to_string() },
        uses_odbc_syntax: odbc,
    };
    assert_eq!(text(&pg(), typed(false)), "DATE '2020-01-01'");
    assert_eq!(refusal(&pg(), typed(true)), unsupported("ODBC escape literals are not supported"));
    assert_eq!(
        text(&mysql(), Expr::Prefixed { prefix: "_utf8mb4".to_string(), value: boxed(string("x")) }),
        "_utf8mb4 'x'"
    );
}

fn access(root: Expr, chain: Vec<AccessExpr>) -> Expr {
    Expr::CompoundFieldAccess { root: boxed(root), access_chain: chain }
}

#[test]
fn field_and_subscript_access() {
    assert_eq!(text(&pg(), access(paren(col("C")), vec![AccessExpr::Dot(col("F"))])), "(c).f");
    assert_eq!(text(&pg(), access(col("a"), vec![AccessExpr::Index(num("1"))])), "a[1]");
    let slice = |lower: Option<Expr>, upper: Option<Expr>, stride: Option<Expr>| {
        access(col("a"), vec![AccessExpr::Slice { lower_bound: lower, upper_bound: upper, stride }])
    };
    assert_eq!(text(&pg(), slice(Some(num("1")), Some(num("2")), None)), "a[1:2]");
    assert_eq!(text(&pg(), slice(Some(num("1")), Some(num("2")), Some(num("3")))), "a[1:2:3]");
    assert_eq!(text(&pg(), slice(None, Some(num("2")), None)), "a[:2]");
    let literal_access = unsupported("A field access on a literal is not supported");
    assert_eq!(refusal(&pg(), access(num("0"), vec![AccessExpr::Dot(col("l"))])), literal_access);
    assert_eq!(refusal(&pg(), access(col("a"), vec![AccessExpr::Dot(num("2"))])), literal_access);
}

#[test]
fn full_text_match() {
    let matching = Expr::MatchAgainst {
        columns: vec![object("A"), object("b")],
        match_value: Literal { kind: LiteralKind::SingleQuoted("x".to_string()), text: "'x'".to_string() },
        opt_search_modifier: Some("IN BOOLEAN MODE".to_string()),
    };
    assert_eq!(text(&mysql(), matching), "MATCH (a, b) AGAINST ('x' IN BOOLEAN MODE)");
}

#[test]
fn suffix_tests_and_subqueries() {
    assert_eq!(
        text(
            &pg(),
            Expr::IsJson {
                expr: boxed(col("j")),
                kind: Some("OBJECT".to_string()),
                unique_keys: Some("WITH UNIQUE KEYS".to_string()),
                negated: true,
            }
        ),
        "j IS NOT JSON OBJECT WITH UNIQUE KEYS"
    );
    assert_eq!(
        text(&pg(), Expr::IsNormalized { expr: boxed(col("s")), form: Some("NFC".to_string()), negated: false }),
        "s IS NFC NORMALIZED"
    );
    assert_eq!(
        text(&pg(), Expr::IsNormalized { expr: boxed(col("s")), form: None, negated: true }),
        "s IS NOT NORMALIZED"
    );
    let exists = |negated| Expr::Exists { subquery: select_from(SelectItem::Expr(num("1")), "u", None, false), negated };
    assert_eq!(text(&pg(), exists(false)), "EXISTS (SELECT 1 FROM u)");
    assert_eq!(text(&pg(), exists(true)), "NOT EXISTS (SELECT 1 FROM u)");
    assert_eq!(text(&pg(), Expr::Subquery(select_from(SelectItem::Expr(col("a")), "u", None, false))), "(SELECT a FROM u)");
    assert_eq!(
        text(&pg(), Expr::AtTimeZone { timestamp: boxed(col("t")), time_zone: boxed(string("UTC")) }),
        "t AT TIME ZONE 'UTC'"
    );
    assert_eq!(
        text(&pg(), Expr::Collate { expr: boxed(col("a")), collation: "\"C\"".to_string() }),
        "a COLLATE \"C\""
    );
}

#[test]
fn quantified_comparisons_and_pattern_lists() {
    let any = |right| Expr::AnyOp { left: boxed(col("a")), compare_op: BinaryOperator::Eq, right: boxed(right) };
    assert_eq!(text(&pg(), any(col("b"))), "a = ANY(b)");
    assert_eq!(text(&pg(), any(paren(Expr::Subquery(select_from(SelectItem::Expr(col("id")), "u", None, false))))), "a = ANY(SELECT id FROM u)");
    assert_eq!(
        text(
            &pg(),
            Expr::AllOp {
                left: boxed(col("a")),
                compare_op: BinaryOperator::Gt,
                right: boxed(Expr::Tuple(vec![num("1"), num("2")])),
            }
        ),
        "a > ALL(1, 2)"
    );
    assert_eq!(
        refusal(
            &pg(),
            Expr::AnyOp {
                left: boxed(col("a")),
                compare_op: BinaryOperator::Other("#".to_string()),
                right: boxed(col("b")),
            }
        ),
        unsupported("Unsupported binary operator: #")
    );
    let like_any = Expr::Like {
        negated: false,
        any: true,
        expr: boxed(col("x")),
        pattern: boxed(Expr::Tuple(vec![string("a%"), string("b%")])),
        escape_char: None,
    };
    assert_eq!(text(&pg(), like_any), "x LIKE ANY ('a%', 'b%')");
}

#[test]
fn calls_keep_the_text_the_parser_prints() {
    let current_date = function(object("CURRENT_DATE"), FunctionArguments::NoParentheses, "CURRENT_DATE");
    assert_eq!(text(&pg(), Expr::Function(current_date)), "CURRENT_DATE");
    let coalesce = function(object("COALESCE"), arguments(2), "COALESCE(A, (1))");
    assert_eq!(text(&pg(), Expr::Function(coalesce)), "COALESCE(A, (1))");
    let quoted_name = ObjectName {
        parts: vec![ObjectNamePart::Identifier(Ident { value: "F".to_string(), quote_style: Some('"') })],
        text: "\"F\"".to_string(),
    };
    assert_eq!(text(&pg(), Expr::Function(function(quoted_name, arguments(1), "\"F\"(a)"))), "\"F\"(a)");
    // A call is one operand, so it takes no parentheses of its own.
    let compared = Expr::BinaryOp {
        left: boxed(Expr::Function(function(object("f"), arguments(1), "f(x IN (1))"))),
        op: BinaryOperator::Eq,
        right: boxed(num("1")),
    };
    assert_eq!(text(&pg(), compared), "(1 = f(x IN (1)))");
}

#[test]
fn calls_that_are_not_plain_are_refused() {
    let refused_call = unsupported("Call to COUNT is not a plain function call");
    let mut windowed = function(object("COUNT"), arguments(1), "COUNT(a)");
    windowed.has_over = true;
    assert_eq!(refusal(&pg(), Expr::Function(windowed)), refused_call);
    let mut filtered = function(object("COUNT"), arguments(1), "COUNT(a)");
    filtered.has_filter = true;
    assert_eq!(refusal(&pg(), Expr::Function(filtered)), refused_call);
    let distinct = function(
        object("COUNT"),
        FunctionArguments::List { has_duplicate_treatment: true, has_clauses: false, args: vec![] },
        "COUNT(DISTINCT)",
    );
    assert_eq!(refusal(&pg(), Expr::Function(distinct)), refused_call);
    let named = function(
        object("COUNT"),
        FunctionArguments::List {
            has_duplicate_treatment: false,
            has_clauses: false,
            args: vec![FunctionArg::Expr, FunctionArg::Other],
        },
        "COUNT(a, b => 1)",
    );
    assert_eq!(refusal(&pg(), Expr::Function(named)), refused_call);
    assert_eq!(
        refusal(&pg(), Expr::Function(function(object("COUNT"), FunctionArguments::Subquery, "COUNT(SELECT 1)"))),
        refused_call
    );
}

#[test]
fn forms_no_predicate_holds_are_refused() {
    assert_eq!(refusal(&pg(), Expr::JsonAccess), unsupported("JSON path access is not supported"));
    for (form, message) in [
        (RefusedForm::InUnnest, "IN UNNEST is not supported in a predicate"),
        (RefusedForm::Struct, "STRUCT is not supported in a predicate"),
        (RefusedForm::Named, "a named expression is not supported in a predicate"),
        (RefusedForm::Dictionary, "a dictionary literal is not supported in a predicate"),
        (RefusedForm::MapLiteral, "a map literal is not supported in a predicate"),
        (RefusedForm::Lambda, "a lambda is not supported in a predicate"),
        (RefusedForm::OuterJoin, "the (+) outer join marker is not supported in a predicate"),
        (RefusedForm::Prior, "PRIOR is not supported in a predicate"),
        (RefusedForm::GroupingSet, "a grouping set is not supported in a predicate"),
        (RefusedForm::Wildcard, "a wildcard is not supported in a predicate"),
    ] {
        assert_eq!(refusal(&pg(), Expr::Refused(form)), unsupported(message));
    }
}

#[test]
fn string_literals_that_lose_a_quote_level_are_refused() {
    let lossy = |kind: LiteralKind, text: &str| Expr::Value(Literal { kind, text: text.to_string() });
    let refused = CanonicalizeError::NotRoundTrippable("string literal".to_string());
    assert_eq!(refusal(&pg(), lossy(LiteralKind::NationalString("it''s".to_string()), "N'it''s'")), refused);
    assert_eq!(refusal(&pg(), lossy(LiteralKind::DoubleQuoted("a\"\"b".to_string()), "\"a\"\"b\"")), refused);
    assert_eq!(text(&pg(), lossy(LiteralKind::DoubleQuoted("it's".to_string()), "\"it's\"")), "\"it's\"");
}

#[test]
fn depth_beyond_the_limit_is_refused() {
    let c = pg();
    assert_eq!(normalize_expr_inner(&col("a"), 128, Enclosure::Bare, &c), Ok(vec!['a']));
    assert_eq!(
        normalize_expr_inner(&col("a"), 129, Enclosure::Bare, &c),
        Err(CanonicalizeError::TooDeep { limit: 128 })
    );
    // Each operand is one level deeper than its operator.
    let sum = Expr::BinaryOp { left: boxed(col("a")), op: BinaryOperator::Minus, right: boxed(col("b")) };
    assert_eq!(
        normalize_expr_inner(&sum, 128, Enclosure::Bare, &c),
        Err(CanonicalizeError::TooDeep { limit: 128 })
    );
    assert_eq!(
        normalize_expr_inner(&sum, 127, Enclosure::Operand, &c),
        Ok("(a - b)".chars().collect::<Vec<char>>())
    );
}

/// `SELECT item FROM table [WHERE owner = 'value'] [LIMIT 1]`, with the text the parser
/// prints for it.
fn select_from(item: SelectItem, table: &str, owner: Option<&str>, limited: bool) -> Box<Subquery> {
    let item_text = match &item {
        SelectItem::Expr(Expr::Identifier(id)) => id.value.clone(),
        SelectItem::Expr(Expr::Value(literal)) => literal.text.clone(),
        _ => "*".to_string(),
    };
    let mut text = format!("SELECT {item_text} FROM {table}");
    if let Some(value) = owner {
        text.push_str(&format!(" WHERE owner = '{value}'"));
    }
    if limited {
        text.push_str(" LIMIT 1");
    }
    let selection = owner.map(|value| {
        Expr::BinaryOp {
            left: Box::new(Expr::Identifier(Ident { value: "owner".to_string(), quote_style: None })),
            op: BinaryOperator::Eq,
            right: Box::new(Expr::Value(Literal {
                kind: LiteralKind::SingleQuoted(value.to_string()),
                text: format!("'{value}'"),
            })),
        }
    });
    let select = Select {
        optimizer_hints: false,
        distinct: None,
        select_modifiers: false,
        top: false,
        exclude: false,
        into: false,
        from: vec![TableWithJoins { relation_is_table: true, join_count: 0 }],
        lateral_views: false,
        prewhere: false,
        selection,
        connect_by: false,
        cluster_by: false,
        distribute_by: false,
        sort_by: false,
        named_window: false,
        qualify: false,
        value_table_mode: false,
    };
    Box::new(Subquery {
        text,
        query: Query {
            with: false,
            body: SetExpr::Select(select),
            limit_clause: if limited {
                Some(LimitClause::LimitOffset { has_limit: true, has_offset: false, has_limit_by: false })
            } else {
                None
            },
            fetch: false,
            locks: false,
            for_clause: false,
            settings: false,
            format_clause: false,
            pipe_operators: false,
        },
        order_by: false,
        group_by: false,
        having: false,
        table_options: false,
        table_hints: false,
        table_name: ObjectName {
            parts: vec![ObjectNamePart::Identifier(Ident { value: table.to_string(), quote_style: None })],
            text: table.to_string(),
        },
        projection: vec![item],
    })
}

#[test]
fn a_subquery_may_carry_a_limit() {
    assert_eq!(
        text(&pg(), Expr::Subquery(select_from(SelectItem::Expr(col("id")), "u", Some("a"), true))),
        "(SELECT id FROM u WHERE owner = 'a' LIMIT 1)"
    );
    assert_eq!(text(&pg(), Expr::Subquery(select_from(SelectItem::Wildcard, "u", None, false))), "(SELECT * FROM u)");
}

#[test]
fn subqueries_of_another_shape_are_refused() {
    let shaped = |shape: &dyn Fn(&mut Subquery)| {
        let mut subquery = select_from(SelectItem::Expr(col("id")), "u", None, false);
        shape(&mut subquery);
        refusal(&pg(), Expr::Subquery(subquery))
    };
    let in_subquery = |part: &str| unsupported(&format!("{part} in a subquery is not supported"));
    assert_eq!(shaped(&|s| s.query.body = SetExpr::Other), unsupported("Set operations are not supported"));
    assert_eq!(shaped(&|s| s.query.with = true), unsupported("WITH is not supported"));
    assert_eq!(shaped(&|s| s.order_by = true), in_subquery("ORDER BY"));
    assert_eq!(shaped(&|s| s.group_by = true), in_subquery("GROUP BY"));
    assert_eq!(shaped(&|s| s.having = true), in_subquery("HAVING"));
    assert_eq!(shaped(&|s| s.table_options = true), in_subquery("a table alias or table option"));
    assert_eq!(shaped(&|s| s.table_hints = true), in_subquery("a table hint"));
    assert_eq!(shaped(&|s| s.projection.push(SelectItem::Other)), in_subquery("an alias or qualified wildcard"));
    assert_eq!(
        shaped(&|s| s.table_name.parts.push(ObjectNamePart::Computed("f()".to_string()))),
        in_subquery("a computed table name")
    );
    // The first refusal in the order the shape is read wins: the limit clause is served,
    // grouping is not, and the items come before the table name.
    assert_eq!(
        shaped(&|s| {
            s.group_by = true;
            s.projection.push(SelectItem::Other);
        }),
        in_subquery("GROUP BY")
    );
    assert_eq!(
        shaped(&|s| {
            s.projection.push(SelectItem::Other);
            s.table_name.parts.push(ObjectNamePart::Computed("f()".to_string()));
        }),
        in_subquery("an alias or qualified wildcard")
    );
}

#[test]
fn the_filter_of_a_subquery_needs_canonical_text() {
    let mut subquery = select_from(SelectItem::Wildcard, "u", None, false);
    if let SetExpr::Select(select) = &mut subquery.query.body {
        select.selection = Some(Expr::Refused(RefusedForm::GroupingSet));
    }
    assert!(matches!(refusal(&pg(), Expr::Subquery(subquery)), CanonicalizeError::Unsupported(_)));
}
