use sql_parser::ast::{copy_expression, BinaryOperator, Expression, UnaryOperator};
use sql_parser::pratt::{PrattParser, MAX_NESTING_DEPTH};
use sql_parser::tokenizer::{tokenize, Token, Tokenizer};

fn name(text: &str) -> Expression {
    Expression::Identifier(text.to_string())
}

fn binary(left: Expression, operator: BinaryOperator, right: Expression) -> Expression {
    Expression::BinaryOperation {
        left_operand: Box::new(left),
        operator,
        right_operand: Box::new(right),
    }
}

fn unary(operator: UnaryOperator, operand: Expression) -> Expression {
    Expression::UnaryOperation {
        operator,
        operand: Box::new(operand),
    }
}

fn grouped(inner: Expression) -> Expression {
    Expression::Grouped(Box::new(inner))
}

fn parse_text(text: &str) -> Result<Expression, String> {
    let tokens = tokenize(text);
    let mut parser = PrattParser::new(&tokens);
    parser.parse_expression(1)
}

#[test]
fn test_simple_expression() {
    let tokens = {
        let mut tokenizer = Tokenizer::new("age >= 18");
        let mut tokens = Vec::new();
        loop {
            let tok = tokenizer.next_token();
            tokens.push(tok.clone());
            if tok == Token::Eof {
                break;
            }
        }
        tokens
    };

    let mut parser = PrattParser::new(&tokens);
    let expr = parser.parse_expression(1).unwrap();
    match expr {
        Expression::BinaryOperation { .. } => {}
        _ => panic!("Expected binary operation"),
    }
}

#[test]
fn simple_comparison_has_the_expected_shape() {
    assert_eq!(
        parse_text("age >= 18"),
        Ok(binary(
            name("age"),
            BinaryOperator::GreaterThanOrEqual,
            Expression::Number(18)
        ))
    );
}

#[test]
fn and_binds_tighter_than_or_on_the_left() {
    assert_eq!(
        parse_text("a AND b OR c"),
        Ok(binary(
            binary(name("a"), BinaryOperator::And, name("b")),
            BinaryOperator::Or,
            name("c")
        ))
    );
}

#[test]
fn and_binds_tighter_than_or_on_the_right() {
    assert_eq!(
        parse_text("a OR b AND c"),
        Ok(binary(
            name("a"),
            BinaryOperator::Or,
            binary(name("b"), BinaryOperator::And, name("c"))
        ))
    );
}

#[test]
fn parentheses_change_the_structure_and_are_kept() {
    assert_eq!(
        parse_text("(a OR b) AND c"),
        Ok(binary(
            grouped(binary(name("a"), BinaryOperator::Or, name("b"))),
            BinaryOperator::And,
            name("c")
        ))
    );
    assert_ne!(parse_text("(a OR b) AND c"), parse_text("a OR b AND c"));
    assert_ne!(parse_text("(a)"), parse_text("a"));
}

#[test]
fn operators_of_one_level_associate_to_the_left() {
    assert_eq!(
        parse_text("a - b - c"),
        Ok(binary(
            binary(name("a"), BinaryOperator::Subtract, name("b")),
            BinaryOperator::Subtract,
            name("c")
        ))
    );
    assert_eq!(
        parse_text("a / b / c"),
        Ok(binary(
            binary(name("a"), BinaryOperator::Divide, name("b")),
            BinaryOperator::Divide,
            name("c")
        ))
    );
}

#[test]
fn the_whole_precedence_ladder() {
    // OR < AND < = < > < + < /
    assert_eq!(
        parse_text("a OR b AND c = d > e + f / g"),
        Ok(binary(
            name("a"),
            BinaryOperator::Or,
            binary(
                name("b"),
                BinaryOperator::And,
                binary(
                    name("c"),
                    BinaryOperator::Equals,
                    binary(
                        name("d"),
                        BinaryOperator::GreaterThan,
                        binary(
                            name("e"),
                            BinaryOperator::Add,
                            binary(name("f"), BinaryOperator::Divide, name("g"))
                        )
                    )
                )
            )
        ))
    );
    assert_eq!(
        parse_text("a / b + c"),
        Ok(binary(
            binary(name("a"), BinaryOperator::Divide, name("b")),
            BinaryOperator::Add,
            name("c")
        ))
    );
}

#[test]
fn every_binary_operator_token() {
    let cases = vec![
        ("=", BinaryOperator::Equals),
        ("!=", BinaryOperator::NotEquals),
        (">", BinaryOperator::GreaterThan),
        (">=", BinaryOperator::GreaterThanOrEqual),
        ("<", BinaryOperator::LessThan),
        ("<=", BinaryOperator::LessThanOrEqual),
        ("AND", BinaryOperator::And),
        ("OR", BinaryOperator::Or),
        ("+", BinaryOperator::Add),
        ("-", BinaryOperator::Subtract),
        ("/", BinaryOperator::Divide),
    ];
    for (text, operator) in cases {
        assert_eq!(
            parse_text(&format!("a {} b", text)),
            Ok(binary(name("a"), operator, name("b")))
        );
    }
}

#[test]
fn multiply_token_is_an_operator_of_the_highest_level() {
    let tokens = vec![
        Token::Identifier("a".to_string()),
        Token::Plus,
        Token::Identifier("b".to_string()),
        Token::Multiply,
        Token::Identifier("c".to_string()),
    ];
    let mut parser = PrattParser::new(&tokens);
    assert_eq!(
        parser.parse_expression(1),
        Ok(binary(
            name("a"),
            BinaryOperator::Add,
            binary(name("b"), BinaryOperator::Multiply, name("c"))
        ))
    );
    assert_eq!(parser.position, 5);
    assert_eq!(PrattParser::get_precedence(&Token::Multiply), 6);
    assert_eq!(
        PrattParser::binary_operator(&Token::Multiply),
        Some(BinaryOperator::Multiply)
    );
}

#[test]
fn star_from_the_lexer_ends_the_expression() {
    let tokens = tokenize("a * b");
    let mut parser = PrattParser::new(&tokens);
    assert_eq!(parser.parse_expression(1), Ok(name("a")));
    assert_eq!(parser.position, 1);
}

#[test]
fn primary_forms() {
    assert_eq!(parse_text("x"), Ok(name("x")));
    assert_eq!(parse_text("42"), Ok(Expression::Number(42)));
    assert_eq!(parse_text("'hi'"), Ok(Expression::String("hi".to_string())));
    assert_eq!(parse_text("TRUE"), Ok(Expression::Boolean(true)));
    assert_eq!(parse_text("false"), Ok(Expression::Boolean(false)));
    assert_eq!(parse_text("(x)"), Ok(grouped(name("x"))));
}

#[test]
fn prefix_operators_bind_like_the_highest_level() {
    assert_eq!(
        parse_text("NOT a AND b"),
        Ok(binary(
            unary(UnaryOperator::Not, name("a")),
            BinaryOperator::And,
            name("b")
        ))
    );
    assert_eq!(
        parse_text("- 5 + 3"),
        Ok(binary(
            unary(UnaryOperator::Negate, Expression::Number(5)),
            BinaryOperator::Add,
            Expression::Number(3)
        ))
    );
    assert_eq!(
        parse_text("- a / b"),
        Ok(unary(
            UnaryOperator::Negate,
            binary(name("a"), BinaryOperator::Divide, name("b"))
        ))
    );
    assert_eq!(
        parse_text("NOT NOT a"),
        Ok(unary(
            UnaryOperator::Not,
            unary(UnaryOperator::Not, name("a"))
        ))
    );
}

#[test]
fn precedence_table() {
    let tokens = tokenize("OR AND = != > >= < <= + - / , ; ( ) x 1 'a' NOT");
    let expected: Vec<u8> = vec![1, 2, 3, 3, 4, 4, 4, 4, 5, 5, 6, 0, 0, 0, 0, 0, 0, 0, 0, 0];
    assert_eq!(tokens.len(), expected.len());
    for (token, precedence) in tokens.iter().zip(expected.iter()) {
        assert_eq!(PrattParser::get_precedence(token), *precedence);
    }
}

#[test]
fn the_cursor_ends_behind_the_expression() {
    let tokens = tokenize("a + b ) c");
    let mut parser = PrattParser::new(&tokens);
    assert_eq!(
        parser.parse_expression(1),
        Ok(binary(name("a"), BinaryOperator::Add, name("b")))
    );
    assert_eq!(parser.position, 3);
}

#[test]
fn a_higher_threshold_leaves_weaker_operators_alone() {
    let tokens = tokenize("a + b OR c");
    let mut parser = PrattParser::new(&tokens);
    assert_eq!(
        parser.parse_expression(5),
        Ok(binary(name("a"), BinaryOperator::Add, name("b")))
    );
    assert_eq!(parser.position, 3);
    let mut strict = PrattParser::new(&tokens);
    assert_eq!(strict.parse_expression(6), Ok(name("a")));
    assert_eq!(strict.position, 1);
}

#[test]
fn parsing_can_start_in_the_middle_of_the_sequence() {
    let tokens = tokenize("CHECK ( age >= 18 )");
    let mut parser = PrattParser {
        tokens: &tokens,
        position: 2,
    };
    assert_eq!(
        parser.parse_expression(1),
        Ok(binary(
            name("age"),
            BinaryOperator::GreaterThanOrEqual,
            Expression::Number(18)
        ))
    );
    assert_eq!(parser.position, 5);
}

#[test]
fn empty_input_is_an_error() {
    let tokens: Vec<Token> = Vec::new();
    let mut parser = PrattParser::new(&tokens);
    assert_eq!(
        parser.parse_expression(1),
        Err("Unexpected end of input".to_string())
    );
    assert_eq!(parser.position, 0);
}

#[test]
fn a_cursor_behind_the_end_reads_nothing_and_stays() {
    let tokens = tokenize("a");
    let mut parser = PrattParser {
        tokens: &tokens,
        position: 7,
    };
    assert_eq!(
        parser.parse_expression(1),
        Err("Unexpected end of input".to_string())
    );
    assert_eq!(parser.position, 7);
}

#[test]
fn missing_operand_is_an_error() {
    let tokens = vec![Token::Identifier("a".to_string()), Token::Plus];
    let mut parser = PrattParser::new(&tokens);
    assert_eq!(
        parser.parse_expression(1),
        Err("Unexpected end of input".to_string())
    );
    assert_eq!(parser.position, 2);
}

#[test]
fn a_token_that_starts_no_expression_is_described() {
    assert_eq!(
        parse_text(")"),
        Err("Unexpected token: RightParentheses".to_string())
    );
    assert_eq!(parse_text(""), Err("Unexpected token: Eof".to_string()));
    assert_eq!(
        parse_text("a + ,"),
        Err("Unexpected token: Comma".to_string())
    );
    assert_eq!(
        parse_text("NULL"),
        Err("Unexpected token: Keyword(Null)".to_string())
    );
    assert_eq!(
        parse_text("a = #"),
        Err("Unexpected token: Invalid('#')".to_string())
    );
}

#[test]
fn unclosed_parenthesis_is_an_error() {
    assert_eq!(parse_text("(a"), Err("Expected ')'".to_string()));
    let tokens = vec![Token::LeftParentheses, Token::Identifier("a".to_string())];
    let mut parser = PrattParser::new(&tokens);
    assert_eq!(parser.parse_expression(1), Err("Expected ')'".to_string()));
    assert_eq!(parser.position, 2);
    let tokens = tokenize("(a b)");
    let mut parser = PrattParser::new(&tokens);
    assert_eq!(parser.parse_expression(1), Err("Expected ')'".to_string()));
    assert_eq!(parser.position, 3);
}

#[test]
fn threshold_zero_takes_any_token_for_an_operator() {
    let tokens = vec![
        Token::Identifier("a".to_string()),
        Token::Eof,
        Token::Identifier("b".to_string()),
    ];
    let mut parser = PrattParser::new(&tokens);
    assert_eq!(
        parser.parse_expression(0),
        Err("Unknown operator Eof".to_string())
    );
    assert_eq!(parser.position, 3);
    let tokens = tokenize("a");
    let mut parser = PrattParser::new(&tokens);
    assert_eq!(
        parser.parse_expression(0),
        Err("Unexpected end of input".to_string())
    );
}

fn nested(depth: usize) -> String {
    let mut text = String::new();
    for _ in 0..depth {
        text.push('(');
    }
    text.push('a');
    for _ in 0..depth {
        text.push(')');
    }
    text
}

#[test]
fn nesting_up_to_the_limit_is_parsed() {
    let mut expected = name("a");
    for _ in 0..MAX_NESTING_DEPTH - 1 {
        expected = grouped(expected);
    }
    assert_eq!(parse_text(&nested(MAX_NESTING_DEPTH - 1)), Ok(expected));
}

#[test]
fn nesting_beyond_the_limit_is_an_error() {
    assert_eq!(MAX_NESTING_DEPTH, 128);
    assert_eq!(
        parse_text(&nested(MAX_NESTING_DEPTH)),
        Err("Expression nesting too deep".to_string())
    );
    assert_eq!(
        parse_text(&nested(100_000)),
        Err("Expression nesting too deep".to_string())
    );
    let mut minuses = String::new();
    for _ in 0..MAX_NESTING_DEPTH {
        minuses.push_str("- ");
    }
    minuses.push('1');
    assert_eq!(
        parse_text(&minuses),
        Err("Expression nesting too deep".to_string())
    );
}

#[test]
fn long_chains_do_not_nest() {
    let mut text = String::from("a");
    let mut expected = name("a");
    for _ in 0..1000 {
        text.push_str(" + a");
        expected = binary(expected, BinaryOperator::Add, name("a"));
    }
    assert_eq!(parse_text(&text), Ok(expected));
}

#[test]
fn a_copied_expression_is_equal_to_its_source() {
    let expr = parse_text("NOT (a + 1 >= 'x') OR TRUE").unwrap();
    assert_eq!(copy_expression(&expr), expr);
    assert_eq!(expr.clone(), expr);
    assert_eq!(Expression::Null.clone(), Expression::Null);
}
