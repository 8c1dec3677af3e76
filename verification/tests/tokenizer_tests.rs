use sql_parser::tokenizer::{tokenize, Keyword, Token, Tokenizer};

fn ident(name: &str) -> Token {
    Token::Identifier(name.to_string())
}

#[test]
fn test_wildcard_token() {
    let mut tokenizer = Tokenizer::new("*");
    assert_eq!(tokenizer.next_token(), Token::Identifier("*".to_string()));
}

#[test]
fn test_keyword_and_identifier() {
    let mut tokenizer = Tokenizer::new("SELECT age");
    assert_eq!(tokenizer.next_token(), Token::Keyword(Keyword::Select));
    assert_eq!(tokenizer.next_token(), Token::Identifier("age".to_string()));
}

#[test]
fn test_number_token() {
    let mut tokenizer = Tokenizer::new("123");
    assert_eq!(tokenizer.next_token(), Token::Number(123));
}

#[test]
fn lexes_select_star_statement() {
    let mut tokenizer = Tokenizer::new("SELECT * FROM users;");
    assert_eq!(tokenizer.next_token(), Token::Keyword(Keyword::Select));
    assert_eq!(tokenizer.next_token(), ident("*"));
    assert_eq!(tokenizer.next_token(), Token::Keyword(Keyword::From));
    assert_eq!(tokenizer.next_token(), ident("users"));
    assert_eq!(tokenizer.next_token(), Token::Semicolon);
    assert_eq!(tokenizer.next_token(), Token::Eof);
}

#[test]
fn tokenize_gives_the_whole_eof_terminated_sequence() {
    assert_eq!(
        tokenize("SELECT * FROM users;"),
        vec![
            Token::Keyword(Keyword::Select),
            ident("*"),
            Token::Keyword(Keyword::From),
            ident("users"),
            Token::Semicolon,
            Token::Eof,
        ]
    );
}

#[test]
fn tokenize_of_empty_and_blank_text_is_just_eof() {
    assert_eq!(tokenize(""), vec![Token::Eof]);
    assert_eq!(tokenize("  \t\r\n "), vec![Token::Eof]);
}

#[test]
fn eof_is_returned_again_and_again() {
    let mut tokenizer = Tokenizer::new("a  ");
    assert_eq!(tokenizer.next_token(), ident("a"));
    for _ in 0..5 {
        assert_eq!(tokenizer.next_token(), Token::Eof);
    }
    let mut empty = Tokenizer::new("");
    for _ in 0..5 {
        assert_eq!(empty.next_token(), Token::Eof);
    }
}

#[test]
fn single_character_punctuation() {
    assert_eq!(
        tokenize(", ; ( ) + - / ="),
        vec![
            Token::Comma,
            Token::Semicolon,
            Token::LeftParentheses,
            Token::RightParentheses,
            Token::Plus,
            Token::Minus,
            Token::Divide,
            Token::Equal,
            Token::Eof,
        ]
    );
}

#[test]
fn comparison_operators_use_one_character_of_lookahead() {
    assert_eq!(
        tokenize("> >= < <= != >=="),
        vec![
            Token::GreaterThan,
            Token::GreaterThanOrEqual,
            Token::LessThan,
            Token::LessThanOrEqual,
            Token::NotEqual,
            Token::GreaterThanOrEqual,
            Token::Equal,
            Token::Eof,
        ]
    );
    assert_eq!(tokenize(">"), vec![Token::GreaterThan, Token::Eof]);
    assert_eq!(tokenize("<"), vec![Token::LessThan, Token::Eof]);
    assert_eq!(
        tokenize("> ="),
        vec![Token::GreaterThan, Token::Equal, Token::Eof]
    );
}

#[test]
fn lone_exclamation_mark_is_invalid() {
    assert_eq!(tokenize("!"), vec![Token::Invalid('!'), Token::Eof]);
    assert_eq!(
        tokenize("!a"),
        vec![Token::Invalid('!'), ident("a"), Token::Eof]
    );
    assert_eq!(
        tokenize("! ="),
        vec![Token::Invalid('!'), Token::Equal, Token::Eof]
    );
}

#[test]
fn star_is_never_a_multiply_operator() {
    assert_eq!(
        tokenize("a*b"),
        vec![ident("a"), ident("*"), ident("b"), Token::Eof]
    );
}

#[test]
fn keywords_are_recognised_in_any_case() {
    assert_eq!(
        tokenize("select SeLeCt FROM where Order bY"),
        vec![
            Token::Keyword(Keyword::Select),
            Token::Keyword(Keyword::Select),
            Token::Keyword(Keyword::From),
            Token::Keyword(Keyword::Where),
            Token::Keyword(Keyword::Order),
            Token::Keyword(Keyword::By),
            Token::Eof,
        ]
    );
}

#[test]
fn all_nineteen_keywords() {
    assert_eq!(
        tokenize(
            "SELECT FROM WHERE ORDER BY CREATE TABLE INT BOOL VARCHAR NOT NULL PRIMARY KEY CHECK AND OR TRUE FALSE"
        ),
        vec![
            Token::Keyword(Keyword::Select),
            Token::Keyword(Keyword::From),
            Token::Keyword(Keyword::Where),
            Token::Keyword(Keyword::Order),
            Token::Keyword(Keyword::By),
            Token::Keyword(Keyword::Create),
            Token::Keyword(Keyword::Table),
            Token::Keyword(Keyword::Int),
            Token::Keyword(Keyword::Bool),
            Token::Keyword(Keyword::Varchar),
            Token::Keyword(Keyword::Not),
            Token::Keyword(Keyword::Null),
            Token::Keyword(Keyword::Primary),
            Token::Keyword(Keyword::Key),
            Token::Keyword(Keyword::Check),
            Token::Keyword(Keyword::And),
            Token::Keyword(Keyword::Or),
            Token::Keyword(Keyword::True),
            Token::Keyword(Keyword::False),
            Token::Eof,
        ]
    );
}

#[test]
fn lookup_keyword_ignores_case_and_rejects_other_words() {
    assert_eq!(Tokenizer::lookup_keyword("varchar"), Some(Keyword::Varchar));
    assert_eq!(Tokenizer::lookup_keyword("Primary"), Some(Keyword::Primary));
    assert_eq!(Tokenizer::lookup_keyword("users"), None);
    assert_eq!(Tokenizer::lookup_keyword("SELECTS"), None);
    assert_eq!(Tokenizer::lookup_keyword(""), None);
}

#[test]
fn from_uppercase_is_exact() {
    assert_eq!(Keyword::from_uppercase("SELECT"), Some(Keyword::Select));
    assert_eq!(Keyword::from_uppercase("FALSE"), Some(Keyword::False));
    assert_eq!(Keyword::from_uppercase("select"), None);
    assert_eq!(Keyword::from_uppercase("DROP"), None);
}

#[test]
fn keyword_names() {
    assert_eq!(Keyword::Select.name(), "Select");
    assert_eq!(Keyword::Varchar.name(), "Varchar");
    assert_eq!(Keyword::By.name(), format!("{:?}", Keyword::By));
    assert_eq!(Keyword::False.name(), format!("{:?}", Keyword::False));
}

#[test]
fn identifiers_keep_their_case_and_take_digits_and_underscores() {
    assert_eq!(
        tokenize("user_1 Age x9_ selects"),
        vec![
            ident("user_1"),
            ident("Age"),
            ident("x9_"),
            ident("selects"),
            Token::Eof
        ]
    );
}

#[test]
fn underscore_cannot_start_a_word() {
    assert_eq!(
        tokenize("_a"),
        vec![Token::Invalid('_'), ident("a"), Token::Eof]
    );
}

#[test]
fn letters_outside_ascii_make_identifiers() {
    assert_eq!(tokenize("été"), vec![ident("été"), Token::Eof]);
}

#[test]
fn numbers_are_decimal_and_stop_at_the_first_other_character() {
    assert_eq!(
        tokenize("0 007 42abc 1.5"),
        vec![
            Token::Number(0),
            Token::Number(7),
            Token::Number(42),
            ident("abc"),
            Token::Number(1),
            Token::Invalid('.'),
            Token::Number(5),
            Token::Eof,
        ]
    );
}

#[test]
fn largest_number_that_fits() {
    assert_eq!(
        tokenize("18446744073709551615"),
        vec![Token::Number(u64::MAX), Token::Eof]
    );
}

#[test]
fn number_that_does_not_fit_is_invalid_and_wholly_consumed() {
    assert_eq!(
        tokenize("18446744073709551616"),
        vec![Token::Invalid('1'), Token::Eof]
    );
    assert_eq!(
        tokenize("99999999999999999999999999 7"),
        vec![Token::Invalid('9'), Token::Number(7), Token::Eof]
    );
    assert_eq!(
        tokenize("000000000000000000000000018446744073709551615"),
        vec![Token::Number(u64::MAX), Token::Eof]
    );
}

#[test]
fn quoted_strings_of_both_kinds() {
    assert_eq!(
        tokenize("'abc' \"d e\" ''"),
        vec![
            Token::String("abc".to_string()),
            Token::String("d e".to_string()),
            Token::String("".to_string()),
            Token::Eof,
        ]
    );
}

#[test]
fn the_other_quote_and_backslash_are_ordinary_inside_a_string() {
    assert_eq!(
        tokenize("'a\"b' \"c'd\""),
        vec![
            Token::String("a\"b".to_string()),
            Token::String("c'd".to_string()),
            Token::Eof,
        ]
    );
    assert_eq!(
        tokenize("'a\\'b'"),
        vec![
            Token::String("a\\".to_string()),
            ident("b"),
            Token::Invalid('\''),
            Token::Eof,
        ]
    );
}

#[test]
fn unterminated_string_is_invalid_and_consumes_the_rest() {
    assert_eq!(tokenize("'abc"), vec![Token::Invalid('\''), Token::Eof]);
    assert_eq!(
        tokenize("a \"bc d"),
        vec![ident("a"), Token::Invalid('"'), Token::Eof]
    );
}

#[test]
fn other_characters_are_invalid_tokens() {
    assert_eq!(
        tokenize("a # b"),
        vec![ident("a"), Token::Invalid('#'), ident("b"), Token::Eof]
    );
    assert_eq!(tokenize("%"), vec![Token::Invalid('%'), Token::Eof]);
}

#[test]
fn white_space_of_every_kind_separates_tokens() {
    assert_eq!(
        tokenize("a\tb\nc\r\nd\u{a0}e"),
        vec![
            ident("a"),
            ident("b"),
            ident("c"),
            ident("d"),
            ident("e"),
            Token::Eof
        ]
    );
}

#[test]
fn token_equality_looks_at_the_content() {
    assert_eq!(ident("a"), ident("a"));
    assert_ne!(ident("a"), ident("b"));
    assert_ne!(ident("a"), Token::String("a".to_string()));
    assert_ne!(Token::Number(1), Token::Number(2));
    assert_ne!(Token::Invalid('a'), Token::Invalid('b'));
    assert_ne!(Token::Keyword(Keyword::And), Token::Keyword(Keyword::Or));
    assert_ne!(Token::LessThan, Token::LessThanOrEqual);
    assert_eq!(Token::Eof, Token::Eof);
}

#[test]
fn a_cloned_token_is_equal_to_its_source() {
    let tokens = tokenize("SELECT a, 'b' FROM t WHERE c >= 10 # ;");
    for token in tokens.iter() {
        assert_eq!(token.clone(), *token);
    }
}

#[test]
fn is_eof_is_true_of_eof_only() {
    assert!(Token::Eof.is_eof());
    assert!(!Token::Semicolon.is_eof());
    assert!(!ident("Eof").is_eof());
}
