//! The library on what `sqlparser` itself makes of SQL, read back with the same dialect.

use sqlparser::ast;
use sqlparser::dialect::{Dialect, MySqlDialect, PostgreSqlDialect, SQLiteDialect};
use sqlparser::parser::Parser;
use sqlparser::tokenizer::Token;
use sqlparser_canonicalize::{
    check_sql_input, where_clause_of, BinaryOperator, CanonicalizeError, Canonicalizer, Distinct,
    DialectFamily, Expr, Ident, LimitClause, Literal, LiteralKind, ObjectName, ObjectNamePart,
    PostfixTest, Query, Select, SelectItem, SetExpr, Statement, Subquery, TableWithJoins,
    UnaryOperator,
};

fn ident(ident: &ast::Ident) -> Ident {
    Ident { value: ident.value.clone(), quote_style: ident.quote_style }
}

fn literal(value: &ast::Value) -> Literal {
    let kind = match value {
        ast::Value::SingleQuotedString(text) => LiteralKind::SingleQuoted(text.clone()),
        ast::Value::Boolean(value) => LiteralKind::Boolean(*value),
        ast::Value::Null => LiteralKind::Null,
        _ => LiteralKind::Other,
    };
    Literal { kind, text: value.to_string() }
}

fn boxed(operand: &ast::Expr) -> Box<Expr> {
    Box::new(expr(operand))
}

/// The forms the SQL of these tests uses, as plain values.
fn expr(expr: &ast::Expr) -> Expr {
    match expr {
        ast::Expr::Identifier(name) => Expr::Identifier(ident(name)),
        ast::Expr::CompoundIdentifier(parts) => Expr::CompoundIdentifier(parts.iter().map(ident).collect()),
        ast::Expr::Value(value) => Expr::Value(literal(&value.value)),
        ast::Expr::Nested(inner) => Expr::Nested(boxed(inner)),
        ast::Expr::BinaryOp { left, op, right } => Expr::BinaryOp {
            left: boxed(left),
            op: match op {
                ast::BinaryOperator::And => BinaryOperator::And,
                ast::BinaryOperator::Or => BinaryOperator::Or,
                ast::BinaryOperator::Eq => BinaryOperator::Eq,
                ast::BinaryOperator::NotEq => BinaryOperator::NotEq,
                ast::BinaryOperator::Lt => BinaryOperator::Lt,
                ast::BinaryOperator::LtEq => BinaryOperator::LtEq,
                ast::BinaryOperator::Gt => BinaryOperator::Gt,
                ast::BinaryOperator::GtEq => BinaryOperator::GtEq,
                ast::BinaryOperator::Plus => BinaryOperator::Plus,
                ast::BinaryOperator::Minus => BinaryOperator::Minus,
                ast::BinaryOperator::Multiply => BinaryOperator::Multiply,
                ast::BinaryOperator::Divide => BinaryOperator::Divide,
                ast::BinaryOperator::Modulo => BinaryOperator::Modulo,
                other => BinaryOperator::Other(other.to_string()),
            },
            right: boxed(right),
        },
        ast::Expr::UnaryOp { op, expr } => Expr::UnaryOp {
            op: match op {
                ast::UnaryOperator::Not => UnaryOperator::Not,
                ast::UnaryOperator::Plus => UnaryOperator::Plus,
                ast::UnaryOperator::Minus => UnaryOperator::Minus,
                other => UnaryOperator::Other(other.to_string()),
            },
            expr: boxed(expr),
        },
        ast::Expr::IsNull(operand) => Expr::Postfix { operand: boxed(operand), test: PostfixTest::IsNull },
        ast::Expr::IsNotNull(operand) => {
            Expr::Postfix { operand: boxed(operand), test: PostfixTest::IsNotNull }
        },
        ast::Expr::InList { expr, list, negated } => Expr::InList {
            expr: boxed(expr),
            list: list.iter().map(self::expr).collect(),
            negated: *negated,
        },
        ast::Expr::InSubquery { expr, subquery, negated } => Expr::InSubquery {
            expr: boxed(expr),
            subquery: self::subquery(subquery),
            negated: *negated,
        },
        ast::Expr::Exists { subquery, negated } => {
            Expr::Exists { subquery: self::subquery(subquery), negated: *negated }
        },
        ast::Expr::Subquery(query) => Expr::Subquery(self::subquery(query)),
        ast::Expr::Between { expr, negated, low, high } => Expr::Between {
            expr: boxed(expr),
            negated: *negated,
            low: boxed(low),
            high: boxed(high),
        },
        ast::Expr::Like { negated, any, expr, pattern, escape_char } => Expr::Like {
            negated: *negated,
            any: *any,
            expr: boxed(expr),
            pattern: boxed(pattern),
            escape_char: escape_char.as_deref().map(boxed),
        },
        other => panic!("the tests do not use {other:?}"),
    }
}

fn statement(statement: &ast::Statement) -> Statement {
    let ast::Statement::Query(query) = statement else {
        return Statement::Other;
    };
    Statement::Query(self::query(query))
}

fn query(query: &ast::Query) -> Query {
    let body = match query.body.as_ref() {
        ast::SetExpr::Select(select) => SetExpr::Select(Select {
            optimizer_hints: !select.optimizer_hints.is_empty(),
            distinct: select.distinct.as_ref().map(|distinct| match distinct {
                ast::Distinct::All => Distinct::All,
                ast::Distinct::Distinct => Distinct::Distinct,
                ast::Distinct::On(_) => Distinct::On,
            }),
            select_modifiers: false,
            top: select.top.is_some(),
            exclude: select.exclude.is_some(),
            into: select.into.is_some(),
            from: select
                .from
                .iter()
                .map(|table| TableWithJoins {
                    relation_is_table: matches!(table.relation, ast::TableFactor::Table { .. }),
                    join_count: table.joins.len(),
                })
                .collect(),
            lateral_views: !select.lateral_views.is_empty(),
            prewhere: select.prewhere.is_some(),
            selection: select.selection.as_ref().map(expr),
            connect_by: !select.connect_by.is_empty(),
            cluster_by: !select.cluster_by.is_empty(),
            distribute_by: !select.distribute_by.is_empty(),
            sort_by: !select.sort_by.is_empty(),
            named_window: !select.named_window.is_empty(),
            qualify: select.qualify.is_some(),
            value_table_mode: select.value_table_mode.is_some(),
        }),
        _ => SetExpr::Other,
    };
    Query {
        with: query.with.is_some(),
        body,
        limit_clause: query.limit_clause.as_ref().map(|_| LimitClause::LimitOffset {
            has_limit: true,
            has_offset: false,
            has_limit_by: false,
        }),
        fetch: query.fetch.is_some(),
        locks: !query.locks.is_empty(),
        for_clause: query.for_clause.is_some(),
        settings: query.settings.is_some(),
        format_clause: query.format_clause.is_some(),
        pipe_operators: !query.pipe_operators.is_empty(),
    }
}

/// A subquery with its printed text, as the library reads it.
fn subquery(query: &ast::Query) -> Box<Subquery> {
    let select = match query.body.as_ref() {
        ast::SetExpr::Select(select) => Some(select.as_ref()),
        _ => None,
    };
    let (table_options, table_hints, table_name) =
        match select.and_then(|select| select.from.first()).map(|table| &table.relation) {
            Some(ast::TableFactor::Table {
                name, alias, args, with_hints, version, with_ordinality, partitions, json_path, sample,
                index_hints,
            }) => (
                alias.is_some()
                    || args.is_some()
                    || version.is_some()
                    || *with_ordinality
                    || json_path.is_some()
                    || sample.is_some(),
                !with_hints.is_empty() || !partitions.is_empty() || !index_hints.is_empty(),
                ObjectName {
                    parts: name
                        .0
                        .iter()
                        .map(|part| match part {
                            ast::ObjectNamePart::Identifier(part) => ObjectNamePart::Identifier(ident(part)),
                            computed => ObjectNamePart::Computed(computed.to_string()),
                        })
                        .collect(),
                    text: name.to_string(),
                },
            ),
            _ => (false, false, ObjectName { parts: Vec::new(), text: String::new() }),
        };
    Box::new(Subquery {
        text: query.to_string(),
        query: self::query(query),
        order_by: query.order_by.is_some(),
        group_by: select.is_some_and(|select| {
            !matches!(&select.group_by, ast::GroupByExpr::Expressions(exprs, modifiers)
                if exprs.is_empty() && modifiers.is_empty())
        }),
        having: select.is_some_and(|select| select.having.is_some()),
        table_options,
        table_hints,
        table_name,
        projection: select
            .map(|select| {
                select
                    .projection
                    .iter()
                    .map(|item| match item {
                        ast::SelectItem::UnnamedExpr(item) => SelectItem::Expr(expr(item)),
                        ast::SelectItem::Wildcard(options)
                            if options.opt_ilike.is_none()
                                && options.opt_exclude.is_none()
                                && options.opt_except.is_none()
                                && options.opt_replace.is_none()
                                && options.opt_rename.is_none()
                                && options.opt_alias.is_none() =>
                        {
                            SelectItem::Wildcard
                        },
                        _ => SelectItem::Other,
                    })
                    .collect()
            })
            .unwrap_or_default(),
    })
}

fn canonicalizer(dialect: &dyn Dialect) -> Canonicalizer {
    let family = if dialect.is::<PostgreSqlDialect>() {
        DialectFamily::PostgreSql
    } else if dialect.is::<MySqlDialect>() {
        DialectFamily::MySql
    } else if dialect.is::<SQLiteDialect>() {
        DialectFamily::SQLite
    } else {
        DialectFamily::Other
    };
    Canonicalizer::new(sqlparser_canonicalize::Dialect {
        family,
        identifier_quote: dialect.identifier_quote_style(""),
    })
}

/// Reads `canonical` back as one complete expression.
fn read_back(canonical: &str, dialect: &dyn Dialect) -> Option<Expr> {
    let mut parser = Parser::new(dialect).try_with_sql(canonical).ok()?;
    let parsed = parser.parse_expr().ok()?;
    if !matches!(parser.peek_token_ref().token, Token::EOF) {
        return None;
    }
    Some(expr(&parsed))
}

/// Screens, parses, canonicalizes and reads back `sql`, as a caller of the library does.
fn normalize_sql(dialect: &dyn Dialect, sql: &str) -> Result<String, CanonicalizeError> {
    check_sql_input(sql)?;
    let parsed = Parser::parse_sql(dialect, sql)
        .map(|statements| statements.iter().map(statement).collect())
        .map_err(|error| error.to_string());
    let where_expr = where_clause_of(&parsed)?;
    let rules = canonicalizer(dialect);
    let canonical = rules.normalize_where_clause_inner(where_expr)?;
    let reread = read_back(&canonical, dialect);
    rules.confirm_reads_back_as_itself(where_expr, canonical, reread.as_ref())
}

const GOLDEN_PREDICATES: &[(&str, &str)] = &[
    ("SELECT * FROM t", "TRUE"),
    ("SELECT * FROM t WHERE age > 18", "(age > 18)"),
    ("SELECT * FROM t WHERE age >= 18", "(age >= 18)"),
    ("SELECT * FROM t WHERE age < 65", "(age < 65)"),
    ("SELECT * FROM t WHERE age <= 65", "(age <= 65)"),
    ("SELECT * FROM t WHERE age = 42", "(42 = age)"),
    ("SELECT * FROM t WHERE a = 1 AND b = 2", "((1 = a) AND (2 = b))"),
    ("SELECT * FROM t WHERE b = 2 OR a = 1", "((1 = a) OR (2 = b))"),
    ("SELECT * FROM t WHERE a = 1 AND (b = 2 AND c = 3)", "(((1 = a) AND (2 = b)) AND (3 = c))"),
    ("SELECT * FROM t WHERE (a = 1 OR b = 2) OR c = 3", "(((1 = a) OR (2 = b)) OR (3 = c))"),
    ("SELECT * FROM t WHERE x IN (3, 1, 2)", "x IN (1, 2, 3)"),
    ("SELECT * FROM t WHERE x NOT IN (3, 1, 2)", "x NOT IN (1, 2, 3)"),
    ("SELECT * FROM t WHERE ((age > 18))", "(age > 18)"),
    ("SELECT * FROM t WHERE b < a", "(b < a)"),
    ("SELECT * FROM t WHERE a % b > 10", "((a % b) > 10)"),
    ("SELECT * FROM t WHERE NOT (active = TRUE)", "NOT (active = true)"),
    ("SELECT * FROM t WHERE deleted_at IS NOT NULL", "deleted_at IS NOT NULL"),
    ("SELECT * FROM t WHERE name NOT LIKE 'A%'", "name NOT LIKE 'A%'"),
    ("SELECT * FROM t WHERE age BETWEEN 18 AND 65", "age BETWEEN 18 AND 65"),
    ("SELECT * FROM t WHERE status = 'open' AND amount > 100", "(('open' = status) AND (amount > 100))"),
    (
        "SELECT * FROM t WHERE x IN (SELECT id FROM m WHERE owner = 'a')",
        "x IN (SELECT id FROM m WHERE owner = 'a')",
    ),
    ("SELECT status, COUNT(*) FROM t WHERE active = TRUE GROUP BY status", "(active = true)"),
    ("SELECT * FROM t WHERE score = -5", "(- 5 = score)"),
];

#[test]
fn parsed_goldens_keep_their_text() {
    let dialects: [&dyn Dialect; 3] = [&PostgreSqlDialect {}, &MySqlDialect {}, &SQLiteDialect {}];
    for dialect in dialects {
        for (sql, normalized) in GOLDEN_PREDICATES {
            assert_eq!(normalize_sql(dialect, sql).as_deref(), Ok(*normalized), "SQL: {}", sql);
        }
    }
    assert_eq!(
        normalize_sql(&MySqlDialect {}, "SELECT * FROM orders WHERE `Status` = 'paid'").as_deref(),
        Ok("('paid' = `status`)")
    );
    assert_eq!(
        normalize_sql(&SQLiteDialect {}, "SELECT * FROM orders WHERE \"Status\" = 'paid'").as_deref(),
        Ok("(\"status\" = 'paid')")
    );
    assert_eq!(
        normalize_sql(&PostgreSqlDialect {}, "SELECT * FROM orders WHERE \"Status\" = 'paid'").as_deref(),
        Ok("(\"Status\" = 'paid')")
    );
}

#[test]
fn golden_canonical_forms_are_idempotent() {
    let dialects: [&dyn Dialect; 3] = [&PostgreSqlDialect {}, &MySqlDialect {}, &SQLiteDialect {}];
    for dialect in dialects {
        for (sql, normalized) in GOLDEN_PREDICATES {
            let replay = if *normalized == "TRUE" {
                "SELECT * FROM t".to_string()
            } else {
                format!("SELECT * FROM t WHERE {normalized}")
            };
            assert_eq!(normalize_sql(dialect, &replay).as_deref(), Ok(*normalized), "SQL: {}", sql);
        }
    }
}

/// What caps an `AND` chain's canonical nesting is the parser's depth budget for the
/// re-read rather than any length rule, so text inside the budget must be accepted.
#[test]
fn test_deep_and_chain_is_accepted_up_to_the_read_back_budget() {
    let dialect = PostgreSqlDialect {};
    let chain = |terms: usize| {
        let parts: Vec<String> = (1..=terms).map(|term| format!("c{term} = {term}")).collect();
        format!("SELECT * FROM t WHERE {}", parts.join(" AND "))
    };
    assert!(normalize_sql(&dialect, &chain(46)).is_ok());
    assert!(matches!(
        normalize_sql(&dialect, &chain(47)),
        Err(CanonicalizeError::NotRoundTrippable(_))
    ));
}

#[test]
fn keyword_case_and_whitespace_are_equivalent() {
    let dialect = PostgreSqlDialect {};
    let varied = normalize_sql(&dialect, "select   *\tFrOm  t\n wHeRe  col_ab   =   7").unwrap();
    let standard = normalize_sql(&dialect, "SELECT * FROM t WHERE col_ab = 7").unwrap();
    assert_eq!(varied, standard);
    assert_eq!(standard, "(7 = col_ab)");
}

#[test]
fn commuted_and_reassociated_chains_agree() {
    let dialect = PostgreSqlDialect {};
    let terms = ["col_a = 3", "col_b = 1", "col_c = 2"];
    for operator in ["AND", "OR"] {
        let first = normalize_sql(
            &dialect,
            &format!("SELECT * FROM t WHERE {} {operator} {} {operator} {}", terms[0], terms[1], terms[2]),
        )
        .unwrap();
        let commuted = normalize_sql(
            &dialect,
            &format!("SELECT * FROM t WHERE {} {operator} {} {operator} {}", terms[2], terms[0], terms[1]),
        )
        .unwrap();
        let regrouped = normalize_sql(
            &dialect,
            &format!("SELECT * FROM t WHERE {} {operator} ({} {operator} {})", terms[0], terms[1], terms[2]),
        )
        .unwrap();
        assert_eq!(first, commuted);
        assert_eq!(first, regrouped);
    }
}

#[test]
fn distinct_literals_and_quoted_names_remain_distinct() {
    let dialect = PostgreSqlDialect {};
    assert_ne!(
        normalize_sql(&dialect, "SELECT * FROM t WHERE col_a = 1").unwrap(),
        normalize_sql(&dialect, "SELECT * FROM t WHERE col_a = 2").unwrap()
    );
    assert_ne!(
        normalize_sql(&dialect, "SELECT * FROM t WHERE \"Abc\" = 1").unwrap(),
        normalize_sql(&dialect, "SELECT * FROM t WHERE \"abc\" = 1").unwrap()
    );
}

#[test]
fn a_parse_error_carries_the_parser_message() {
    let result = normalize_sql(&PostgreSqlDialect {}, "NOT VALID SQL ;;;");
    assert!(matches!(result, Err(CanonicalizeError::Parse(_))));
}

#[test]
fn a_subquery_keeps_its_printed_text_and_may_carry_a_limit() {
    let dialect = PostgreSqlDialect {};
    assert_eq!(
        normalize_sql(&dialect, "SELECT * FROM t WHERE x IN (select id from m where owner = 'a' limit 1)").as_deref(),
        Ok("x IN (SELECT id FROM m WHERE owner = 'a' LIMIT 1)")
    );
    assert_eq!(
        normalize_sql(&dialect, "SELECT * FROM t WHERE EXISTS (SELECT * FROM m)").as_deref(),
        Ok("EXISTS (SELECT * FROM m)")
    );
}

#[test]
fn a_subquery_of_another_shape_is_refused() {
    let dialect = PostgreSqlDialect {};
    let refusal = |subquery: &str| {
        match normalize_sql(&dialect, &format!("SELECT * FROM t WHERE x IN ({subquery})")) {
            Err(CanonicalizeError::Unsupported(message)) => message,
            other => panic!("{subquery} gave {other:?}"),
        }
    };
    assert_eq!(refusal("SELECT id FROM m UNION SELECT id FROM n"), "Set operations are not supported");
    assert_eq!(refusal("SELECT id FROM m, n"), "Exactly one table is required");
    assert_eq!(refusal("SELECT id FROM m JOIN n ON m.a = n.a"), "JOINs not supported");
    assert_eq!(refusal("SELECT id FROM (SELECT id FROM m) AS d"), "Subqueries and derived tables not supported");
    assert_eq!(refusal("SELECT DISTINCT id FROM m"), "DISTINCT is not supported");
    assert_eq!(refusal("SELECT id FROM m ORDER BY id"), "ORDER BY in a subquery is not supported");
    assert_eq!(refusal("SELECT id FROM m GROUP BY id"), "GROUP BY in a subquery is not supported");
    assert_eq!(refusal("SELECT 1 FROM m HAVING 1 = 1"), "HAVING in a subquery is not supported");
    assert_eq!(refusal("SELECT id FROM m AS k"), "a table alias or table option in a subquery is not supported");
    assert_eq!(refusal("SELECT id AS k FROM m"), "an alias or qualified wildcard in a subquery is not supported");
    assert_eq!(refusal("SELECT m.* FROM m"), "an alias or qualified wildcard in a subquery is not supported");
}

#[test]
fn the_items_and_filter_of_a_subquery_need_canonical_text_too() {
    let dialect = PostgreSqlDialect {};
    let refusal = |sql: &str| match normalize_sql(&dialect, sql) {
        Err(CanonicalizeError::Unsupported(message)) => message,
        other => panic!("{sql} gave {other:?}"),
    };
    assert_eq!(
        refusal("SELECT * FROM t WHERE x IN (SELECT a ~ b FROM m)"),
        "Unsupported binary operator: ~"
    );
    assert_eq!(
        refusal("SELECT * FROM t WHERE EXISTS (SELECT * FROM m WHERE a ~ b)"),
        "Unsupported binary operator: ~"
    );
}
