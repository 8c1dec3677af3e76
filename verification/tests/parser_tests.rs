use sql_parser::ast::{BinaryOperator, Constraint, DBType, Expression, Statement, TableColumn};
use sql_parser::error::ParseError;
use sql_parser::parser::SQLParser;
use sql_parser::tokenizer::{tokenize, Keyword, Token, Tokenizer};

fn parse(text: &str) -> Result<Statement, ParseError> {
    let tokens = tokenize(text);
    let mut parser = SQLParser::new(&tokens);
    parser.parse_statement()
}

/// The tokens of `text` without the closing `Eof`.
fn bare_tokens(text: &str) -> Vec<Token> {
    let mut tokens = tokenize(text);
    tokens.pop();
    tokens
}

fn parse_bare(text: &str) -> Result<Statement, ParseError> {
    let tokens = bare_tokens(text);
    let mut parser = SQLParser::new(&tokens);
    parser.parse_statement()
}

fn strings(names: &[&str]) -> Vec<String> {
    names.iter().map(|name| name.to_string()).collect()
}

fn general(message: &str) -> ParseError {
    ParseError::General(message.to_string())
}

#[test]
fn test_select_star() {
    let input = "SELECT * FROM users;";
    let mut tokenizer = Tokenizer::new(input);
    let mut tokens = Vec::new();
    loop {
        let tok = tokenizer.next_token();
        if tok == Token::Eof {
            break;
        }
        tokens.push(tok);
    }
    let mut parser = SQLParser::new(&tokens);
    let stmt = parser.parse_statement().unwrap();

    match stmt {
        Statement::Select { columns, table, .. } => {
            assert_eq!(columns, vec!["*"]);
            assert_eq!(table, "users");
        }
        _ => panic!("Expected SELECT statement"),
    }
}

#[test]
fn select_star_gives_the_whole_statement() {
    assert_eq!(
        parse("SELECT * FROM users;"),
        Ok(Statement::Select {
            columns: strings(&["*"]),
            table: "users".to_string(),
            selection: None,
            order_by: None,
        })
    );
}

#[test]
fn select_with_order_by() {
    assert_eq!(
        parse("SELECT a, b FROM t ORDER BY a, b;"),
        Ok(Statement::Select {
            columns: strings(&["a", "b"]),
            table: "t".to_string(),
            selection: None,
            order_by: Some(strings(&["a", "b"])),
        })
    );
}

#[test]
fn order_by_may_end_at_eof_but_not_at_the_bare_end() {
    assert_eq!(
        parse("SELECT a FROM t ORDER BY a"),
        Ok(Statement::Select {
            columns: strings(&["a"]),
            table: "t".to_string(),
            selection: None,
            order_by: Some(strings(&["a"])),
        })
    );
    assert_eq!(
        parse_bare("SELECT a FROM t ORDER BY a"),
        Err(ParseError::UnexpectedEnd)
    );
}

#[test]
fn order_by_with_an_empty_list() {
    assert_eq!(
        parse("SELECT a FROM t ORDER BY ;"),
        Ok(Statement::Select {
            columns: strings(&["a"]),
            table: "t".to_string(),
            selection: None,
            order_by: Some(strings(&[])),
        })
    );
}

#[test]
fn commas_in_the_column_list_are_not_checked() {
    assert_eq!(
        parse("SELECT , a b ,, c FROM t"),
        Ok(Statement::Select {
            columns: strings(&["a", "b", "c"]),
            table: "t".to_string(),
            selection: None,
            order_by: None,
        })
    );
    assert_eq!(
        parse("SELECT FROM t"),
        Ok(Statement::Select {
            columns: strings(&[]),
            table: "t".to_string(),
            selection: None,
            order_by: None,
        })
    );
}

#[test]
fn wildcard_tail_adds_a_star_and_wants_a_second_from() {
    assert_eq!(
        parse("SELECT a FROM t * ,, FROM ORDER BY a;"),
        Ok(Statement::Select {
            columns: strings(&["a", "*"]),
            table: "t".to_string(),
            selection: None,
            order_by: Some(strings(&["a"])),
        })
    );
    assert_eq!(
        parse("SELECT a FROM t * FROM"),
        Ok(Statement::Select {
            columns: strings(&["a", "*"]),
            table: "t".to_string(),
            selection: None,
            order_by: None,
        })
    );
    assert_eq!(
        parse("SELECT a FROM t * ;"),
        Err(ParseError::ExpectedKeyword("From".to_string()))
    );
    assert_eq!(
        parse_bare("SELECT a FROM t * ,"),
        Err(ParseError::UnexpectedEnd)
    );
}

#[test]
fn where_is_not_parsed() {
    assert_eq!(
        parse("SELECT a FROM t WHERE a = 1"),
        Ok(Statement::Select {
            columns: strings(&["a"]),
            table: "t".to_string(),
            selection: None,
            order_by: None,
        })
    );
}

#[test]
fn select_errors() {
    assert_eq!(
        parse("SELECT a 1 FROM t"),
        Err(general("Unexpected token in column list: Number(1)"))
    );
    assert_eq!(
        parse("SELECT a"),
        Err(general("Unexpected token in column list: Eof"))
    );
    assert_eq!(parse_bare("SELECT a"), Err(ParseError::UnexpectedEnd));
    assert_eq!(parse_bare("SELECT a FROM"), Err(ParseError::UnexpectedEnd));
    assert_eq!(parse("SELECT a FROM ;"), Err(ParseError::ExpectedIdentifier));
    assert_eq!(
        parse("SELECT a FROM t ORDER a"),
        Err(ParseError::ExpectedKeyword("By".to_string()))
    );
    assert_eq!(
        parse_bare("SELECT a FROM t ORDER"),
        Err(ParseError::UnexpectedEnd)
    );
    assert_eq!(
        parse("SELECT a FROM t ORDER BY a WHERE"),
        Err(general("Unexpected token in ORDER BY: Keyword(Where)"))
    );
    assert_eq!(
        parse("SELECT a FROM t ORDER BY 'x'"),
        Err(general("Unexpected token in ORDER BY: String(\"x\")"))
    );
}

#[test]
fn create_table_with_three_columns() {
    let age_check = Expression::BinaryOperation {
        left_operand: Box::new(Expression::Identifier("age".to_string())),
        operator: BinaryOperator::GreaterThanOrEqual,
        right_operand: Box::new(Expression::Number(18)),
    };
    let statement =
        parse("CREATE TABLE t (id INT PRIMARY KEY, name VARCHAR NOT NULL, age INT CHECK (age >= 18));")
            .unwrap();
    match &statement {
        Statement::CreateTable { columns, .. } => {
            assert_eq!(columns.len(), 3);
            assert_eq!(columns[2].constraints, vec![Constraint::Check(age_check.clone())]);
        }
        _ => panic!("Expected CREATE TABLE statement"),
    }
    assert_eq!(
        statement,
        Statement::CreateTable {
            table_name: "t".to_string(),
            columns: vec![
                TableColumn {
                    name: "id".to_string(),
                    data_type: DBType::Int,
                    constraints: vec![Constraint::PrimaryKey],
                },
                TableColumn {
                    name: "name".to_string(),
                    data_type: DBType::Varchar,
                    constraints: vec![Constraint::NotNull],
                },
                TableColumn {
                    name: "age".to_string(),
                    data_type: DBType::Int,
                    constraints: vec![Constraint::Check(age_check)],
                },
            ],
        }
    );
}

#[test]
fn create_table_without_semicolon_and_with_several_constraints() {
    assert_eq!(
        parse_bare("create table flags (on_ bool not null primary key check (on_) not null)"),
        Ok(Statement::CreateTable {
            table_name: "flags".to_string(),
            columns: vec![TableColumn {
                name: "on_".to_string(),
                data_type: DBType::Bool,
                constraints: vec![
                    Constraint::NotNull,
                    Constraint::PrimaryKey,
                    Constraint::Check(Expression::Identifier("on_".to_string())),
                    Constraint::NotNull,
                ],
            }],
        })
    );
}

#[test]
fn check_takes_a_whole_expression_with_groups() {
    let statement = parse("CREATE TABLE t (a INT CHECK ((a > 0) AND a < 10))").unwrap();
    let expected = Expression::BinaryOperation {
        left_operand: Box::new(Expression::Grouped(Box::new(Expression::BinaryOperation {
            left_operand: Box::new(Expression::Identifier("a".to_string())),
            operator: BinaryOperator::GreaterThan,
            right_operand: Box::new(Expression::Number(0)),
        }))),
        operator: BinaryOperator::And,
        right_operand: Box::new(Expression::BinaryOperation {
            left_operand: Box::new(Expression::Identifier("a".to_string())),
            operator: BinaryOperator::LessThan,
            right_operand: Box::new(Expression::Number(10)),
        }),
    };
    assert_eq!(
        statement,
        Statement::CreateTable {
            table_name: "t".to_string(),
            columns: vec![TableColumn {
                name: "a".to_string(),
                data_type: DBType::Int,
                constraints: vec![Constraint::Check(expected)],
            }],
        }
    );
}

#[test]
fn what_follows_the_statement_is_not_looked_at() {
    let tokens = tokenize("CREATE TABLE t (a INT); SELECT");
    let mut parser = SQLParser::new(&tokens);
    assert!(parser.parse_statement().is_ok());
    // The cursor now stands behind the semicolon, at SELECT.
    assert_eq!(
        parser.parse_statement(),
        Err(general("Unexpected token in column list: Eof"))
    );
}

#[test]
fn missing_closing_parenthesis_is_an_unexpected_end() {
    for text in [
        "CREATE TABLE t (id INT",
        "CREATE TABLE t (id INT PRIMARY KEY, name VARCHAR NOT NULL",
        "CREATE TABLE t (id INT CHECK (id > 0)",
    ] {
        // As the lexer hands the tokens over, with `Eof` at the end.
        assert_eq!(parse(text), Err(ParseError::UnexpectedEnd));
        // And where the sequence just stops.
        assert_eq!(parse_bare(text), Err(ParseError::UnexpectedEnd));
    }
}

#[test]
fn missing_closing_parenthesis_before_eof_token_by_token() {
    let tokens = vec![
        Token::Keyword(Keyword::Create),
        Token::Keyword(Keyword::Table),
        Token::Identifier("t".to_string()),
        Token::LeftParentheses,
        Token::Identifier("id".to_string()),
        Token::Keyword(Keyword::Int),
        Token::Eof,
    ];
    let mut parser = SQLParser::new(&tokens);
    assert_eq!(parser.parse_statement(), Err(ParseError::UnexpectedEnd));
}

#[test]
fn missing_closing_parenthesis_of_a_check_is_an_unexpected_end() {
    for text in [
        "CREATE TABLE t (id INT CHECK (id > 0",
        "CREATE TABLE t (id INT CHECK ((id > 0) AND id < 9",
        "CREATE TABLE t (a INT, id INT NOT NULL CHECK (id",
    ] {
        assert_eq!(parse(text), Err(ParseError::UnexpectedEnd));
        assert_eq!(parse_bare(text), Err(ParseError::UnexpectedEnd));
    }
}

#[test]
fn another_token_where_a_parenthesis_should_close_is_described() {
    assert_eq!(
        parse("CREATE TABLE t (id INT;"),
        Err(general("Expected ',' or ')', got: Semicolon"))
    );
    assert_eq!(
        parse("CREATE TABLE t (id INT CHECK (id > 0;"),
        Err(general("Expected RightParentheses, got Semicolon"))
    );
}

#[test]
fn eof_where_a_parenthesis_should_open_is_described() {
    assert_eq!(
        parse("CREATE TABLE t"),
        Err(general("Expected LeftParentheses, got Eof"))
    );
    assert_eq!(
        parse("CREATE TABLE t (id INT CHECK"),
        Err(general("Expected LeftParentheses, got Eof"))
    );
}

#[test]
fn unknown_start_of_statement() {
    assert_eq!(
        parse("DROP TABLE t"),
        Err(ParseError::UnknownStartOfStatement(
            "Identifier(\"DROP\")".to_string()
        ))
    );
    assert_eq!(
        parse("FROM t"),
        Err(ParseError::UnknownStartOfStatement(
            "Keyword(From)".to_string()
        ))
    );
    assert_eq!(
        parse(""),
        Err(ParseError::UnknownStartOfStatement("Eof".to_string()))
    );
    assert_eq!(
        parse("42"),
        Err(ParseError::UnknownStartOfStatement("Number(42)".to_string()))
    );
}

#[test]
fn empty_token_sequence() {
    let tokens: Vec<Token> = Vec::new();
    let mut parser = SQLParser::new(&tokens);
    assert_eq!(parser.parse_statement(), Err(general("Empty input")));
    assert_eq!(parser.parse_statement(), Err(general("Empty input")));
}

#[test]
fn a_token_that_is_no_type_where_a_type_is_expected() {
    assert_eq!(
        parse("CREATE TABLE t (id FOO)"),
        Err(general("Unknown type: Identifier(\"FOO\")"))
    );
    assert_eq!(
        parse("CREATE TABLE t (id INT, name)"),
        Err(general("Unknown type: RightParentheses"))
    );
    assert_eq!(
        parse("CREATE TABLE t (id NULL)"),
        Err(general("Unknown type: Keyword(Null)"))
    );
    assert_eq!(
        parse_bare("CREATE TABLE t (id"),
        Err(ParseError::UnexpectedEnd)
    );
}

#[test]
fn create_table_errors() {
    assert_eq!(
        parse("CREATE t"),
        Err(ParseError::ExpectedKeyword("Table".to_string()))
    );
    assert_eq!(parse_bare("CREATE"), Err(ParseError::UnexpectedEnd));
    assert_eq!(
        parse("CREATE TABLE (a INT)"),
        Err(ParseError::ExpectedIdentifier)
    );
    assert_eq!(
        parse("CREATE TABLE t a INT)"),
        Err(general("Expected LeftParentheses, got Identifier(\"a\")"))
    );
    assert_eq!(parse_bare("CREATE TABLE t"), Err(ParseError::UnexpectedEnd));
    assert_eq!(parse("CREATE TABLE t ()"), Err(ParseError::ExpectedIdentifier));
    assert_eq!(
        parse("CREATE TABLE t (a INT b INT)"),
        Err(general("Expected ',' or ')', got: Identifier(\"b\")"))
    );
    assert_eq!(
        parse("CREATE TABLE t (a INT,)"),
        Err(ParseError::ExpectedIdentifier)
    );
    assert_eq!(
        parse("CREATE TABLE t (a INT NOT)"),
        Err(ParseError::ExpectedKeyword("Null".to_string()))
    );
    assert_eq!(
        parse("CREATE TABLE t (a INT PRIMARY)"),
        Err(ParseError::ExpectedKeyword("Key".to_string()))
    );
    assert_eq!(
        parse("CREATE TABLE t (a INT CHECK a > 1)"),
        Err(general("Expected LeftParentheses, got Identifier(\"a\")"))
    );
    assert_eq!(
        parse("CREATE TABLE t (a INT CHECK (a > 1, b INT)"),
        Err(general("Expected RightParentheses, got Comma"))
    );
}

#[test]
fn expression_errors_are_wrapped_as_they_are() {
    assert_eq!(
        parse("CREATE TABLE t (a INT CHECK ())"),
        Err(ParseError::InvalidExpression(
            "Unexpected token: RightParentheses".to_string()
        ))
    );
    assert_eq!(
        parse_bare("CREATE TABLE t (a INT CHECK ("),
        Err(ParseError::InvalidExpression(
            "Unexpected end of input".to_string()
        ))
    );
    assert_eq!(
        parse_bare("CREATE TABLE t (a INT CHECK ((a"),
        Err(ParseError::InvalidExpression("Expected ')'".to_string()))
    );
    assert_eq!(
        parse("CREATE TABLE t (a INT CHECK (a >= 99999999999999999999))"),
        Err(ParseError::InvalidExpression(
            "Unexpected token: Invalid('9')".to_string()
        ))
    );
}

#[test]
fn too_deep_an_expression_is_an_invalid_expression() {
    let mut text = String::from("CREATE TABLE t (a INT CHECK (");
    for _ in 0..200 {
        text.push('(');
    }
    text.push('a');
    for _ in 0..200 {
        text.push(')');
    }
    text.push_str("))");
    assert_eq!(
        parse(&text),
        Err(ParseError::InvalidExpression(
            "Expression nesting too deep".to_string()
        ))
    );
}

#[test]
fn the_same_input_fails_the_same_way_every_time() {
    for text in ["DROP TABLE t", "CREATE TABLE t (id FOO)", "SELECT a FROM"] {
        let first = parse_bare(text);
        assert!(first.is_err());
        for _ in 0..3 {
            assert_eq!(parse_bare(text), first);
        }
    }
}

#[test]
fn messages_of_all_errors() {
    assert_eq!(
        ParseError::UnexpectedEnd.message(),
        "Unexpected end of input, Please check once again"
    );
    assert_eq!(
        ParseError::ExpectedKeyword(Keyword::From.name()).message(),
        "Expected keyword: From"
    );
    assert_eq!(
        ParseError::ExpectedIdentifier.message(),
        "Expected an identifier, Check once again"
    );
    assert_eq!(
        ParseError::InvalidExpression("Expected ')'".to_string()).message(),
        "Invalid expression: Expected ')'"
    );
    assert_eq!(
        ParseError::UnknownStartOfStatement("Eof".to_string()).message(),
        "Unknown start of statement: Eof"
    );
    assert_eq!(general("Empty input").message(), "Empty input");
    assert_eq!(
        parse("DROP").unwrap_err().message(),
        "Unknown start of statement: Identifier(\"DROP\")"
    );
}

#[test]
fn statements_can_be_cloned() {
    let statement = parse("CREATE TABLE t (a INT CHECK (a > 0), b VARCHAR)").unwrap();
    assert_eq!(statement.clone(), statement);
    let select = parse("SELECT a FROM t ORDER BY a").unwrap();
    assert_eq!(select.clone(), select);
}

#[test]
fn parse_sql_goes_from_text_to_statement() {
    assert_eq!(
        sql_parser::parser::parse_sql("SELECT a, b FROM t ORDER BY a, b;"),
        parse("SELECT a, b FROM t ORDER BY a, b;")
    );
    assert_eq!(
        sql_parser::parser::parse_sql("  select * from users  "),
        Ok(Statement::Select {
            columns: strings(&["*"]),
            table: "users".to_string(),
            selection: None,
            order_by: None,
        })
    );
    assert_eq!(
        sql_parser::parser::parse_sql("CREATE TABLE t (id INT"),
        Err(ParseError::UnexpectedEnd)
    );
    assert_eq!(
        sql_parser::parser::parse_sql(""),
        Err(ParseError::UnknownStartOfStatement("Eof".to_string()))
    );
}
