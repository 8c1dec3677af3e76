//! The statement parser: recursive descent over a token sequence.
use vstd::prelude::*;
use vstd::string::StringExecFns;
use crate::ast::{
    Constraint, ConstraintView, DBType, Expression, ExpressionView, Statement, StatementView,
    TableColumn, TableColumnView,
};
use crate::error::{ParseError, ParseErrorView};
use crate::laws::{lemma_selection_is_empty, lemma_statement_stays_inside};
use crate::pratt::{parse_expr, PrattParser};
use crate::text::text_equals;
use crate::tokenizer::{
    token_at_cursor, token_debug, token_debug_text, token_stream, tokenize, tokens_left,
    tokens_view, Keyword, Token, TokenView,
};

verus! {

/// How far the cursor moves when one token is taken at `pos`: by one, or not
/// at all where the sequence is exhausted.
pub open spec fn step(tokens: Seq<TokenView>, pos: nat) -> nat {
    if pos < tokens.len() {
        1
    } else {
        0
    }
}

/// The same outcome, reached after `n` more tokens.
pub open spec fn after<T>(n: nat, outcome: (T, nat)) -> (T, nat) {
    (outcome.0, n + outcome.1)
}

/// Why the token at `pos` is not the keyword `keyword`, if it is not.
pub open spec fn keyword_mismatch(tokens: Seq<TokenView>, pos: nat, keyword: Keyword) -> Option<
    ParseErrorView,
> {
    match token_at_cursor(tokens, pos) {
        None => Some(ParseErrorView::UnexpectedEnd),
        Some(t) => if t == TokenView::Keyword(keyword) {
            None
        } else {
            Some(ParseErrorView::ExpectedKeyword(keyword.name_text()))
        },
    }
}

/// Why the token at `pos` is not the token `expected`, if it is not.
pub open spec fn token_mismatch(tokens: Seq<TokenView>, pos: nat, expected: TokenView) -> Option<
    ParseErrorView,
> {
    match token_at_cursor(tokens, pos) {
        None => Some(ParseErrorView::UnexpectedEnd),
        Some(t) => if t == expected {
            None
        } else {
            Some(
                ParseErrorView::General(
                    "Expected "@ + token_debug_text(expected) + ", got "@ + token_debug_text(t),
                ),
            )
        },
    }
}

/// Why the token at `pos` does not close a pair of parentheses, if it does
/// not. Where the sequence is exhausted, or `Eof` stands there, the input has
/// ended before the parenthesis.
pub open spec fn closing_mismatch(tokens: Seq<TokenView>, pos: nat) -> Option<ParseErrorView> {
    match token_at_cursor(tokens, pos) {
        None | Some(TokenView::Eof) => Some(ParseErrorView::UnexpectedEnd),
        Some(_) => token_mismatch(tokens, pos, TokenView::RightParentheses),
    }
}

/// The name that the identifier at `pos` holds, or why there is none.
pub open spec fn identifier_at(tokens: Seq<TokenView>, pos: nat) -> Result<
    Seq<char>,
    ParseErrorView,
> {
    match token_at_cursor(tokens, pos) {
        None => Err(ParseErrorView::UnexpectedEnd),
        Some(TokenView::Identifier(name)) => Ok(name),
        Some(_) => Err(ParseErrorView::ExpectedIdentifier),
    }
}

/// The column type that the keyword at `pos` names, or why there is none.
pub open spec fn column_type_at(tokens: Seq<TokenView>, pos: nat) -> Result<
    DBType,
    ParseErrorView,
> {
    match token_at_cursor(tokens, pos) {
        None => Err(ParseErrorView::UnexpectedEnd),
        Some(TokenView::Keyword(Keyword::Int)) => Ok(DBType::Int),
        Some(TokenView::Keyword(Keyword::Bool)) => Ok(DBType::Bool),
        Some(TokenView::Keyword(Keyword::Varchar)) => Ok(DBType::Varchar),
        Some(t) => Err(ParseErrorView::General("Unknown type: "@ + token_debug_text(t))),
    }
}

/// The column list of a `SELECT` from `pos` on, behind the names in
/// `columns`: names and commas up to and including `FROM`.
pub open spec fn select_columns(tokens: Seq<TokenView>, pos: nat, columns: Seq<Seq<char>>) -> (
    Result<Seq<Seq<char>>, ParseErrorView>,
    nat,
)
    decreases tokens_left(tokens, pos),
{
    match token_at_cursor(tokens, pos) {
        None => (Err(ParseErrorView::UnexpectedEnd), 0),
        Some(TokenView::Identifier(name)) => after(
            1,
            select_columns(tokens, pos + 1, columns.push(name)),
        ),
        Some(TokenView::Comma) => after(1, select_columns(tokens, pos + 1, columns)),
        Some(TokenView::Keyword(Keyword::From)) => (Ok(columns), 1),
        Some(t) => (
            Err(
                ParseErrorView::General(
                    "Unexpected token in column list: "@ + token_debug_text(t),
                ),
            ),
            1,
        ),
    }
}

/// The name list of an `ORDER BY` from `pos` on, behind the names in
/// `columns`: names and commas up to and including `;` or `Eof`.
pub open spec fn order_columns(tokens: Seq<TokenView>, pos: nat, columns: Seq<Seq<char>>) -> (
    Result<Seq<Seq<char>>, ParseErrorView>,
    nat,
)
    decreases tokens_left(tokens, pos),
{
    match token_at_cursor(tokens, pos) {
        None => (Err(ParseErrorView::UnexpectedEnd), 0),
        Some(TokenView::Identifier(name)) => after(
            1,
            order_columns(tokens, pos + 1, columns.push(name)),
        ),
        Some(TokenView::Comma) => after(1, order_columns(tokens, pos + 1, columns)),
        Some(TokenView::Semicolon) | Some(TokenView::Eof) => (Ok(columns), 1),
        Some(t) => (
            Err(ParseErrorView::General("Unexpected token in ORDER BY: "@ + token_debug_text(t))),
            1,
        ),
    }
}

/// How many commas stand in a row from `pos` on.
pub open spec fn comma_run(tokens: Seq<TokenView>, pos: nat) -> nat
    decreases tokens_left(tokens, pos),
{
    if token_at_cursor(tokens, pos) == Some(TokenView::Comma) {
        1 + comma_run(tokens, pos + 1)
    } else {
        0
    }
}

/// The optional `ORDER BY` at `pos`, which completes a `SELECT` of `columns`
/// from `table`.
pub open spec fn order_by_clause(
    tokens: Seq<TokenView>,
    pos: nat,
    columns: Seq<Seq<char>>,
    table: Seq<char>,
) -> (Result<StatementView, ParseErrorView>, nat) {
    if token_at_cursor(tokens, pos) == Some(TokenView::Keyword(Keyword::Order)) {
        match keyword_mismatch(tokens, pos + 1, Keyword::By) {
            Some(e) => (Err(e), 1 + step(tokens, pos + 1)),
            None => {
                let (names, n) = order_columns(tokens, pos + 2, Seq::empty());
                match names {
                    Err(e) => (Err(e), 2 + n),
                    Ok(names) => (
                        Ok(
                            StatementView::Select {
                                columns,
                                table,
                                selection: None,
                                order_by: Some(names),
                            },
                        ),
                        2 + n,
                    ),
                }
            },
        }
    } else {
        (Ok(StatementView::Select { columns, table, selection: None, order_by: None }), 0)
    }
}

/// What may follow the table name of a `SELECT` at `pos`: a wildcard with
/// commas and a second `FROM`, which adds `*` to the columns, and then the
/// optional `ORDER BY`.
pub open spec fn select_tail(
    tokens: Seq<TokenView>,
    pos: nat,
    columns: Seq<Seq<char>>,
    table: Seq<char>,
) -> (Result<StatementView, ParseErrorView>, nat) {
    if token_at_cursor(tokens, pos) == Some(TokenView::Identifier("*"@)) {
        let commas = comma_run(tokens, pos + 1);
        match keyword_mismatch(tokens, pos + 1 + commas, Keyword::From) {
            Some(e) => (Err(e), 1 + commas + step(tokens, pos + 1 + commas)),
            None => after(
                2 + commas,
                order_by_clause(tokens, pos + 2 + commas, columns.push("*"@), table),
            ),
        }
    } else {
        order_by_clause(tokens, pos, columns, table)
    }
}

/// The outcome of parsing a `SELECT` statement at `pos`, and the number of
/// tokens consumed.
pub open spec fn parse_select_at(tokens: Seq<TokenView>, pos: nat) -> (
    Result<StatementView, ParseErrorView>,
    nat,
) {
    match keyword_mismatch(tokens, pos, Keyword::Select) {
        Some(e) => (Err(e), step(tokens, pos)),
        None => {
            let (list, n) = select_columns(tokens, pos + 1, Seq::empty());
            match list {
                Err(e) => (Err(e), 1 + n),
                Ok(columns) => match identifier_at(tokens, pos + 1 + n) {
                    Err(e) => (Err(e), 1 + n + step(tokens, pos + 1 + n)),
                    Ok(table) => after(2 + n, select_tail(tokens, pos + 2 + n, columns, table)),
                },
            }
        },
    }
}

/// What follows the keyword `CHECK`, from `pos` on: an expression in
/// parentheses. Where the input ends before the closing parenthesis, the
/// error is `UnexpectedEnd`.
pub open spec fn check_body(tokens: Seq<TokenView>, pos: nat) -> (
    Result<ExpressionView, ParseErrorView>,
    nat,
) {
    match token_mismatch(tokens, pos, TokenView::LeftParentheses) {
        Some(e) => (Err(e), step(tokens, pos)),
        None => {
            let (parsed, n) = parse_expr(tokens, pos + 1, 1, 0);
            match parsed {
                Err(message) => (Err(ParseErrorView::InvalidExpression(message)), 1 + n),
                Ok(e) => match closing_mismatch(tokens, pos + 1 + n) {
                    Some(err) => (Err(err), 1 + n + step(tokens, pos + 1 + n)),
                    None => (Ok(e), 2 + n),
                },
            }
        },
    }
}

/// The constraints of a column from `pos` on, behind those in `constraints`:
/// `NOT NULL`, `PRIMARY KEY` and `CHECK (` expression `)`, as many as follow.
pub open spec fn constraint_list(
    tokens: Seq<TokenView>,
    pos: nat,
    constraints: Seq<ConstraintView>,
) -> (Result<Seq<ConstraintView>, ParseErrorView>, nat)
    decreases tokens_left(tokens, pos),
{
    match token_at_cursor(tokens, pos) {
        Some(TokenView::Keyword(Keyword::Not)) => match keyword_mismatch(
            tokens,
            pos + 1,
            Keyword::Null,
        ) {
            Some(e) => (Err(e), 1 + step(tokens, pos + 1)),
            None => after(
                2,
                constraint_list(tokens, pos + 2, constraints.push(ConstraintView::NotNull)),
            ),
        },
        Some(TokenView::Keyword(Keyword::Primary)) => match keyword_mismatch(
            tokens,
            pos + 1,
            Keyword::Key,
        ) {
            Some(e) => (Err(e), 1 + step(tokens, pos + 1)),
            None => after(
                2,
                constraint_list(tokens, pos + 2, constraints.push(ConstraintView::PrimaryKey)),
            ),
        },
        Some(TokenView::Keyword(Keyword::Check)) => {
            let (body, n) = check_body(tokens, pos + 1);
            match body {
                Err(e) => (Err(e), 1 + n),
                Ok(e) => after(
                    1 + n,
                    constraint_list(
                        tokens,
                        pos + 1 + n,
                        constraints.push(ConstraintView::Check(e)),
                    ),
                ),
            }
        },
        _ => (Ok(constraints), 0),
    }
}

/// One column definition at `pos`: a name, a type, and constraints.
pub open spec fn column_def(tokens: Seq<TokenView>, pos: nat) -> (
    Result<TableColumnView, ParseErrorView>,
    nat,
) {
    match identifier_at(tokens, pos) {
        Err(e) => (Err(e), step(tokens, pos)),
        Ok(name) => match column_type_at(tokens, pos + 1) {
            Err(e) => (Err(e), 1 + step(tokens, pos + 1)),
            Ok(data_type) => {
                let (list, n) = constraint_list(tokens, pos + 2, Seq::empty());
                match list {
                    Err(e) => (Err(e), 2 + n),
                    Ok(constraints) => (Ok(TableColumnView { name, data_type, constraints }), 2 + n),
                }
            },
        },
    }
}

/// The column definitions of a `CREATE TABLE` from `pos` on, behind those in
/// `columns`: definitions separated by commas, up to and including the
/// closing parenthesis. Where the input ends before the closing parenthesis,
/// exhausted or at `Eof`, the error is `UnexpectedEnd`.
pub open spec fn column_defs(tokens: Seq<TokenView>, pos: nat, columns: Seq<TableColumnView>) -> (
    Result<Seq<TableColumnView>, ParseErrorView>,
    nat,
)
    decreases tokens_left(tokens, pos),
{
    let (def, n) = column_def(tokens, pos);
    match def {
        Err(e) => (Err(e), n),
        Ok(column) => match token_at_cursor(tokens, pos + n) {
            None | Some(TokenView::Eof) => (
                Err(ParseErrorView::UnexpectedEnd),
                n + step(tokens, pos + n),
            ),
            Some(TokenView::Comma) => after(
                n + 1,
                column_defs(tokens, pos + n + 1, columns.push(column)),
            ),
            Some(TokenView::RightParentheses) => (Ok(columns.push(column)), n + 1),
            Some(t) => (
                Err(
                    ParseErrorView::General("Expected ',' or ')', got: "@ + token_debug_text(t)),
                ),
                n + 1,
            ),
        },
    }
}

/// The outcome of parsing a `CREATE TABLE` statement at `pos`, and the number
/// of tokens consumed. A semicolon behind the statement is consumed with it.
pub open spec fn parse_create_table_at(tokens: Seq<TokenView>, pos: nat) -> (
    Result<StatementView, ParseErrorView>,
    nat,
) {
    match keyword_mismatch(tokens, pos, Keyword::Create) {
        Some(e) => (Err(e), step(tokens, pos)),
        None => match keyword_mismatch(tokens, pos + 1, Keyword::Table) {
            Some(e) => (Err(e), 1 + step(tokens, pos + 1)),
            None => match identifier_at(tokens, pos + 2) {
                Err(e) => (Err(e), 2 + step(tokens, pos + 2)),
                Ok(table_name) => match token_mismatch(
                    tokens,
                    pos + 3,
                    TokenView::LeftParentheses,
                ) {
                    Some(e) => (Err(e), 3 + step(tokens, pos + 3)),
                    None => {
                        let (defs, n) = column_defs(tokens, pos + 4, Seq::empty());
                        match defs {
                            Err(e) => (Err(e), 4 + n),
                            Ok(columns) => (
                                Ok(StatementView::CreateTable { table_name, columns }),
                                4 + n + (if token_at_cursor(tokens, pos + 4 + n) == Some(
                                    TokenView::Semicolon,
                                ) {
                                    1nat
                                } else {
                                    0nat
                                }),
                            ),
                        }
                    },
                },
            },
        },
    }
}

/// The outcome of parsing one statement at `pos`, and the number of tokens
/// consumed. The first token decides which statement it is.
pub open spec fn parse_statement_at(tokens: Seq<TokenView>, pos: nat) -> (
    Result<StatementView, ParseErrorView>,
    nat,
) {
    match token_at_cursor(tokens, pos) {
        Some(TokenView::Keyword(Keyword::Select)) => parse_select_at(tokens, pos),
        Some(TokenView::Keyword(Keyword::Create)) => parse_create_table_at(tokens, pos),
        Some(t) => (Err(ParseErrorView::UnknownStartOfStatement(token_debug_text(t))), 0),
        None => (Err(ParseErrorView::General("Empty input"@)), 0),
    }
}

/// The model of what the statement parser returns.
pub open spec fn statement_outcome_view(r: Result<Statement, ParseError>) -> Result<
    StatementView,
    ParseErrorView,
> {
    match r {
        Ok(s) => Ok(s@),
        Err(e) => Err(e@),
    }
}

/// A statement parser over a token sequence, with its cursor.
pub struct SQLParser<'a> {
    tokens: &'a [Token],
    position: usize,
}

impl<'a> SQLParser<'a> {
    /// The model of the token sequence.
    pub closed spec fn stream(&self) -> Seq<TokenView> {
        tokens_view(self.tokens@)
    }

    /// The position of the cursor in the token sequence.
    pub closed spec fn cursor(&self) -> nat {
        self.position as nat
    }

    /// A parser at the start of `tokens`.
    pub fn new(tokens: &'a [Token]) -> (parser: Self)
        ensures
            parser.stream() == tokens_view(tokens@),
            parser.cursor() == 0,
    {
        Self { tokens, position: 0 }
    }

    fn peek(&self) -> (token: Option<&'a Token>)
        ensures
            match token {
                Some(t) => token_at_cursor(self.stream(), self.cursor()) == Some(t@),
                None => token_at_cursor(self.stream(), self.cursor()).is_none(),
            },
    {
        if self.position < self.tokens.len() {
            Some(&self.tokens[self.position])
        } else {
            None
        }
    }

    fn advance(&mut self) -> (token: Option<&'a Token>)
        ensures
            final(self).stream() == old(self).stream(),
            final(self).cursor() == old(self).cursor() + step(old(self).stream(), old(self).cursor()),
            match token {
                Some(t) => token_at_cursor(old(self).stream(), old(self).cursor()) == Some(t@),
                None => token_at_cursor(old(self).stream(), old(self).cursor()).is_none(),
            },
    {
        if self.position < self.tokens.len() {
            let token = &self.tokens[self.position];
            self.position += 1;
            Some(token)
        } else {
            None
        }
    }

    fn expect_keyword(&mut self, keyword: Keyword) -> (r: Result<(), ParseError>)
        ensures
            final(self).stream() == old(self).stream(),
            final(self).cursor() == old(self).cursor() + step(old(self).stream(), old(self).cursor()),
            match r {
                Ok(_) => keyword_mismatch(old(self).stream(), old(self).cursor(), keyword).is_none(),
                Err(e) => keyword_mismatch(old(self).stream(), old(self).cursor(), keyword) == Some(
                    e@,
                ),
            },
    {
        match self.advance() {
            Some(Token::Keyword(k)) if *k == keyword => Ok(()),
            Some(_) => Err(ParseError::ExpectedKeyword(keyword.name())),
            None => Err(ParseError::UnexpectedEnd),
        }
    }

    fn expect_identifier(&mut self) -> (r: Result<String, ParseError>)
        ensures
            final(self).stream() == old(self).stream(),
            final(self).cursor() == old(self).cursor() + step(old(self).stream(), old(self).cursor()),
            match r {
                Ok(name) => identifier_at(old(self).stream(), old(self).cursor()) == Ok::<
                    Seq<char>,
                    ParseErrorView,
                >(name@),
                Err(e) => identifier_at(old(self).stream(), old(self).cursor()) == Err::<
                    Seq<char>,
                    ParseErrorView,
                >(e@),
            },
    {
        match self.advance() {
            Some(Token::Identifier(name)) => Ok(name.clone()),
            Some(_) => Err(ParseError::ExpectedIdentifier),
            None => Err(ParseError::UnexpectedEnd),
        }
    }

    fn expect(&mut self, expected: Token) -> (r: Result<(), ParseError>)
        ensures
            final(self).stream() == old(self).stream(),
            final(self).cursor() == old(self).cursor() + step(old(self).stream(), old(self).cursor()),
            match r {
                Ok(_) => token_mismatch(old(self).stream(), old(self).cursor(), expected@).is_none(),
                Err(e) => token_mismatch(old(self).stream(), old(self).cursor(), expected@) == Some(
                    e@,
                ),
            },
    {
        match self.advance() {
            Some(t) => {
                if *t == expected {
                    Ok(())
                } else {
                    Err(
                        ParseError::General(
                            "Expected ".to_string().concat(token_debug(&expected).as_str()).concat(
                                ", got ",
                            ).concat(token_debug(t).as_str()),
                        ),
                    )
                }
            },
            None => Err(ParseError::UnexpectedEnd),
        }
    }

    fn expect_closing(&mut self) -> (r: Result<(), ParseError>)
        ensures
            final(self).stream() == old(self).stream(),
            final(self).cursor() == old(self).cursor() + step(old(self).stream(), old(self).cursor()),
            match r {
                Ok(_) => closing_mismatch(old(self).stream(), old(self).cursor()).is_none(),
                Err(e) => closing_mismatch(old(self).stream(), old(self).cursor()) == Some(e@),
            },
    {
        let at_end: bool = match self.peek() {
            None | Some(Token::Eof) => true,
            Some(_) => false,
        };
        if at_end {
            self.advance();
            Err(ParseError::UnexpectedEnd)
        } else {
            self.expect(Token::RightParentheses)
        }
    }

    /// Parses one statement from the cursor on. The first token decides which
    /// statement it is; the first error ends the parse. The cursor ends behind
    /// the last token consumed, and never leaves the sequence. A `SELECT` comes
    /// back without a selection.
    pub fn parse_statement(&mut self) -> (r: Result<Statement, ParseError>)
        ensures
            final(self).stream() == old(self).stream(),
            statement_outcome_view(r) == parse_statement_at(
                old(self).stream(),
                old(self).cursor(),
            ).0,
            final(self).cursor() == old(self).cursor() + parse_statement_at(
                old(self).stream(),
                old(self).cursor(),
            ).1,
            old(self).cursor() <= old(self).stream().len() ==> final(self).cursor()
                <= old(self).stream().len(),
            r matches Ok(Statement::Select { selection, .. }) ==> selection is None,
    {
        proof {
            lemma_statement_stays_inside(self.stream(), self.cursor());
            lemma_selection_is_empty(self.stream(), self.cursor());
        }
        match self.peek() {
            Some(Token::Keyword(Keyword::Select)) => self.parse_select(),
            Some(Token::Keyword(Keyword::Create)) => self.parse_create_table(),
            Some(token) => Err(ParseError::UnknownStartOfStatement(token_debug(token))),
            None => Err(ParseError::General("Empty input".to_string())),
        }
    }

    fn read_select_columns(&mut self) -> (r: Result<Vec<String>, ParseError>)
        ensures
            final(self).stream() == old(self).stream(),
            final(self).cursor() == old(self).cursor() + select_columns(
                old(self).stream(),
                old(self).cursor(),
                Seq::empty(),
            ).1,
            match r {
                Ok(columns) => select_columns(
                    old(self).stream(),
                    old(self).cursor(),
                    Seq::empty(),
                ).0 == Ok::<Seq<Seq<char>>, ParseErrorView>(columns.deep_view()),
                Err(e) => select_columns(old(self).stream(), old(self).cursor(), Seq::empty()).0
                    == Err::<Seq<Seq<char>>, ParseErrorView>(e@),
            },
    {
        let ghost stream = self.stream();
        let ghost start = self.cursor();
        let ghost goal = select_columns(stream, start, Seq::empty());
        let mut columns: Vec<String> = Vec::new();
        assert(columns.deep_view() =~= Seq::<Seq<char>>::empty());
        loop
            invariant
                stream == self.stream(),
                stream == old(self).stream(),
                start == old(self).cursor(),
                goal == select_columns(stream, start, Seq::empty()),
                goal.0 == select_columns(stream, self.cursor(), columns.deep_view()).0,
                start + goal.1 == self.cursor() + select_columns(
                    stream,
                    self.cursor(),
                    columns.deep_view(),
                ).1,
            decreases tokens_left(stream, self.cursor()),
        {
            let ghost before = columns.deep_view();
            match self.advance() {
                Some(Token::Identifier(name)) => {
                    columns.push(name.clone());
                    assert(columns.deep_view() =~= before.push(name@));
                },
                Some(Token::Comma) => {},
                Some(Token::Keyword(Keyword::From)) => {
                    return Ok(columns);
                },
                Some(token) => {
                    return Err(
                        ParseError::General(
                            "Unexpected token in column list: ".to_string().concat(
                                token_debug(token).as_str(),
                            ),
                        ),
                    );
                },
                None => {
                    return Err(ParseError::UnexpectedEnd);
                },
            }
        }
    }

    fn read_order_columns(&mut self) -> (r: Result<Vec<String>, ParseError>)
        ensures
            final(self).stream() == old(self).stream(),
            final(self).cursor() == old(self).cursor() + order_columns(
                old(self).stream(),
                old(self).cursor(),
                Seq::empty(),
            ).1,
            match r {
                Ok(columns) => order_columns(
                    old(self).stream(),
                    old(self).cursor(),
                    Seq::empty(),
                ).0 == Ok::<Seq<Seq<char>>, ParseErrorView>(columns.deep_view()),
                Err(e) => order_columns(old(self).stream(), old(self).cursor(), Seq::empty()).0
                    == Err::<Seq<Seq<char>>, ParseErrorView>(e@),
            },
    {
        let ghost stream = self.stream();
        let ghost start = self.cursor();
        let ghost goal = order_columns(stream, start, Seq::empty());
        let mut columns: Vec<String> = Vec::new();
        assert(columns.deep_view() =~= Seq::<Seq<char>>::empty());
        loop
            invariant
                stream == self.stream(),
                stream == old(self).stream(),
                start == old(self).cursor(),
                goal == order_columns(stream, start, Seq::empty()),
                goal.0 == order_columns(stream, self.cursor(), columns.deep_view()).0,
                start + goal.1 == self.cursor() + order_columns(
                    stream,
                    self.cursor(),
                    columns.deep_view(),
                ).1,
            decreases tokens_left(stream, self.cursor()),
        {
            let ghost before = columns.deep_view();
            match self.advance() {
                Some(Token::Identifier(name)) => {
                    columns.push(name.clone());
                    assert(columns.deep_view() =~= before.push(name@));
                },
                Some(Token::Comma) => {},
                Some(Token::Semicolon) | Some(Token::Eof) => {
                    return Ok(columns);
                },
                Some(token) => {
                    return Err(
                        ParseError::General(
                            "Unexpected token in ORDER BY: ".to_string().concat(
                                token_debug(token).as_str(),
                            ),
                        ),
                    );
                },
                None => {
                    return Err(ParseError::UnexpectedEnd);
                },
            }
        }
    }

    fn skip_commas(&mut self)
        ensures
            final(self).stream() == old(self).stream(),
            final(self).cursor() == old(self).cursor() + comma_run(
                old(self).stream(),
                old(self).cursor(),
            ),
    {
        let ghost stream = self.stream();
        let ghost start = self.cursor();
        loop
            invariant
                stream == self.stream(),
                stream == old(self).stream(),
                start == old(self).cursor(),
                start + comma_run(stream, start) == self.cursor() + comma_run(
                    stream,
                    self.cursor(),
                ),
            decreases tokens_left(stream, self.cursor()),
        {
            match self.peek() {
                Some(Token::Comma) => {
                    self.advance();
                },
                _ => {
                    return ;
                },
            }
        }
    }

    fn parse_select(&mut self) -> (r: Result<Statement, ParseError>)
        ensures
            final(self).stream() == old(self).stream(),
            statement_outcome_view(r) == parse_select_at(old(self).stream(), old(self).cursor()).0,
            final(self).cursor() == old(self).cursor() + parse_select_at(
                old(self).stream(),
                old(self).cursor(),
            ).1,
    {
        match self.expect_keyword(Keyword::Select) {
            Ok(_) => {},
            Err(e) => {
                return Err(e);
            },
        }
        let mut columns = match self.read_select_columns() {
            Ok(columns) => columns,
            Err(e) => {
                return Err(e);
            },
        };
        let table = match self.expect_identifier() {
            Ok(name) => name,
            Err(e) => {
                return Err(e);
            },
        };
        let is_wildcard: bool = match self.peek() {
            Some(Token::Identifier(name)) => text_equals(name.as_str(), "*"),
            _ => false,
        };
        if is_wildcard {
            let ghost before = columns.deep_view();
            self.advance();
            columns.push("*".to_string());
            assert(columns.deep_view() =~= before.push("*"@));
            self.skip_commas();
            match self.expect_keyword(Keyword::From) {
                Ok(_) => {},
                Err(e) => {
                    return Err(e);
                },
            }
        }
        let is_ordered: bool = match self.peek() {
            Some(Token::Keyword(Keyword::Order)) => true,
            _ => false,
        };
        if is_ordered {
            self.advance();
            match self.expect_keyword(Keyword::By) {
                Ok(_) => {},
                Err(e) => {
                    return Err(e);
                },
            }
            match self.read_order_columns() {
                Ok(names) => Ok(
                    Statement::Select { columns, table, selection: None, order_by: Some(names) },
                ),
                Err(e) => Err(e),
            }
        } else {
            Ok(Statement::Select { columns, table, selection: None, order_by: None })
        }
    }

    fn read_check_body(&mut self) -> (r: Result<Expression, ParseError>)
        ensures
            final(self).stream() == old(self).stream(),
            final(self).cursor() == old(self).cursor() + check_body(
                old(self).stream(),
                old(self).cursor(),
            ).1,
            match r {
                Ok(e) => check_body(old(self).stream(), old(self).cursor()).0 == Ok::<
                    ExpressionView,
                    ParseErrorView,
                >(e@),
                Err(e) => check_body(old(self).stream(), old(self).cursor()).0 == Err::<
                    ExpressionView,
                    ParseErrorView,
                >(e@),
            },
    {
        match self.expect(Token::LeftParentheses) {
            Ok(_) => {},
            Err(e) => {
                return Err(e);
            },
        }
        let mut expr_parser = PrattParser { tokens: self.tokens, position: self.position };
        let parsed = expr_parser.parse_expression(1);
        self.position = expr_parser.position;
        let expr = match parsed {
            Ok(expr) => expr,
            Err(message) => {
                return Err(ParseError::InvalidExpression(message));
            },
        };
        match self.expect_closing() {
            Ok(_) => {},
            Err(e) => {
                return Err(e);
            },
        }
        Ok(expr)
    }

    fn read_constraints(&mut self) -> (r: Result<Vec<Constraint>, ParseError>)
        ensures
            final(self).stream() == old(self).stream(),
            final(self).cursor() == old(self).cursor() + constraint_list(
                old(self).stream(),
                old(self).cursor(),
                Seq::empty(),
            ).1,
            match r {
                Ok(constraints) => constraint_list(
                    old(self).stream(),
                    old(self).cursor(),
                    Seq::empty(),
                ).0 == Ok::<Seq<ConstraintView>, ParseErrorView>(constraints.deep_view()),
                Err(e) => constraint_list(old(self).stream(), old(self).cursor(), Seq::empty()).0
                    == Err::<Seq<ConstraintView>, ParseErrorView>(e@),
            },
    {
        let ghost stream = self.stream();
        let ghost start = self.cursor();
        let ghost goal = constraint_list(stream, start, Seq::empty());
        let mut constraints: Vec<Constraint> = Vec::new();
        assert(constraints.deep_view() =~= Seq::<ConstraintView>::empty());
        loop
            invariant
                stream == self.stream(),
                stream == old(self).stream(),
                start == old(self).cursor(),
                goal == constraint_list(stream, start, Seq::empty()),
                goal.0 == constraint_list(stream, self.cursor(), constraints.deep_view()).0,
                start + goal.1 == self.cursor() + constraint_list(
                    stream,
                    self.cursor(),
                    constraints.deep_view(),
                ).1,
            decreases tokens_left(stream, self.cursor()),
        {
            let ghost before = constraints.deep_view();
            match self.peek() {
                Some(Token::Keyword(Keyword::Not)) => {
                    self.advance();
                    match self.expect_keyword(Keyword::Null) {
                        Ok(_) => {},
                        Err(e) => {
                            return Err(e);
                        },
                    }
                    constraints.push(Constraint::NotNull);
                    assert(constraints.deep_view() =~= before.push(ConstraintView::NotNull));
                },
                Some(Token::Keyword(Keyword::Primary)) => {
                    self.advance();
                    match self.expect_keyword(Keyword::Key) {
                        Ok(_) => {},
                        Err(e) => {
                            return Err(e);
                        },
                    }
                    constraints.push(Constraint::PrimaryKey);
                    assert(constraints.deep_view() =~= before.push(ConstraintView::PrimaryKey));
                },
                Some(Token::Keyword(Keyword::Check)) => {
                    self.advance();
                    let expr = match self.read_check_body() {
                        Ok(expr) => expr,
                        Err(e) => {
                            return Err(e);
                        },
                    };
                    let ghost added = ConstraintView::Check(expr@);
                    constraints.push(Constraint::Check(expr));
                    assert(constraints.deep_view() =~= before.push(added));
                },
                _ => {
                    return Ok(constraints);
                },
            }
        }
    }

    fn read_column_type(&mut self) -> (r: Result<DBType, ParseError>)
        ensures
            final(self).stream() == old(self).stream(),
            final(self).cursor() == old(self).cursor() + step(old(self).stream(), old(self).cursor()),
            match r {
                Ok(data_type) => column_type_at(old(self).stream(), old(self).cursor()) == Ok::<
                    DBType,
                    ParseErrorView,
                >(data_type),
                Err(e) => column_type_at(old(self).stream(), old(self).cursor()) == Err::<
                    DBType,
                    ParseErrorView,
                >(e@),
            },
    {
        match self.advance() {
            Some(Token::Keyword(Keyword::Int)) => Ok(DBType::Int),
            Some(Token::Keyword(Keyword::Bool)) => Ok(DBType::Bool),
            Some(Token::Keyword(Keyword::Varchar)) => Ok(DBType::Varchar),
            Some(token) => Err(
                ParseError::General(
                    "Unknown type: ".to_string().concat(token_debug(token).as_str()),
                ),
            ),
            None => Err(ParseError::UnexpectedEnd),
        }
    }

    fn read_column_def(&mut self) -> (r: Result<TableColumn, ParseError>)
        ensures
            final(self).stream() == old(self).stream(),
            final(self).cursor() == old(self).cursor() + column_def(
                old(self).stream(),
                old(self).cursor(),
            ).1,
            match r {
                Ok(column) => column_def(old(self).stream(), old(self).cursor()).0 == Ok::<
                    TableColumnView,
                    ParseErrorView,
                >(column@),
                Err(e) => column_def(old(self).stream(), old(self).cursor()).0 == Err::<
                    TableColumnView,
                    ParseErrorView,
                >(e@),
            },
    {
        let name = match self.expect_identifier() {
            Ok(name) => name,
            Err(e) => {
                return Err(e);
            },
        };
        let data_type = match self.read_column_type() {
            Ok(data_type) => data_type,
            Err(e) => {
                return Err(e);
            },
        };
        let constraints = match self.read_constraints() {
            Ok(constraints) => constraints,
            Err(e) => {
                return Err(e);
            },
        };
        Ok(TableColumn { name, data_type, constraints })
    }

    fn read_column_defs(&mut self) -> (r: Result<Vec<TableColumn>, ParseError>)
        ensures
            final(self).stream() == old(self).stream(),
            final(self).cursor() == old(self).cursor() + column_defs(
                old(self).stream(),
                old(self).cursor(),
                Seq::empty(),
            ).1,
            match r {
                Ok(columns) => column_defs(old(self).stream(), old(self).cursor(), Seq::empty()).0
                    == Ok::<Seq<TableColumnView>, ParseErrorView>(columns.deep_view()),
                Err(e) => column_defs(old(self).stream(), old(self).cursor(), Seq::empty()).0
                    == Err::<Seq<TableColumnView>, ParseErrorView>(e@),
            },
    {
        let ghost stream = self.stream();
        let ghost start = self.cursor();
        let ghost goal = column_defs(stream, start, Seq::empty());
        let mut columns: Vec<TableColumn> = Vec::new();
        assert(columns.deep_view() =~= Seq::<TableColumnView>::empty());
        loop
            invariant
                stream == self.stream(),
                stream == old(self).stream(),
                start == old(self).cursor(),
                goal == column_defs(stream, start, Seq::empty()),
                goal.0 == column_defs(stream, self.cursor(), columns.deep_view()).0,
                start + goal.1 == self.cursor() + column_defs(
                    stream,
                    self.cursor(),
                    columns.deep_view(),
                ).1,
            decreases tokens_left(stream, self.cursor()),
        {
            let ghost before = columns.deep_view();
            let column = match self.read_column_def() {
                Ok(column) => column,
                Err(e) => {
                    return Err(e);
                },
            };
            let ghost added = column@;
            columns.push(column);
            assert(columns.deep_view() =~= before.push(added));
            match self.advance() {
                Some(Token::Comma) => {},
                Some(Token::RightParentheses) => {
                    return Ok(columns);
                },
                None | Some(Token::Eof) => {
                    return Err(ParseError::UnexpectedEnd);
                },
                Some(token) => {
                    return Err(
                        ParseError::General(
                            "Expected ',' or ')', got: ".to_string().concat(
                                token_debug(token).as_str(),
                            ),
                        ),
                    );
                },
            }
        }
    }

    fn parse_create_table(&mut self) -> (r: Result<Statement, ParseError>)
        ensures
            final(self).stream() == old(self).stream(),
            statement_outcome_view(r) == parse_create_table_at(
                old(self).stream(),
                old(self).cursor(),
            ).0,
            final(self).cursor() == old(self).cursor() + parse_create_table_at(
                old(self).stream(),
                old(self).cursor(),
            ).1,
    {
        match self.expect_keyword(Keyword::Create) {
            Ok(_) => {},
            Err(e) => {
                return Err(e);
            },
        }
        match self.expect_keyword(Keyword::Table) {
            Ok(_) => {},
            Err(e) => {
                return Err(e);
            },
        }
        let table_name = match self.expect_identifier() {
            Ok(name) => name,
            Err(e) => {
                return Err(e);
            },
        };
        match self.expect(Token::LeftParentheses) {
            Ok(_) => {},
            Err(e) => {
                return Err(e);
            },
        }
        let columns = match self.read_column_defs() {
            Ok(columns) => columns,
            Err(e) => {
                return Err(e);
            },
        };
        let has_semicolon: bool = match self.peek() {
            Some(Token::Semicolon) => true,
            _ => false,
        };
        if has_semicolon {
            self.advance();
        }
        Ok(Statement::CreateTable { table_name, columns })
    }
}


/// Lexes a text and parses the one statement that it holds: the whole way
/// from text to syntax tree.
pub fn parse_sql(input: &str) -> (r: Result<Statement, ParseError>)
    ensures
        statement_outcome_view(r) == parse_statement_at(token_stream(input@, 0), 0).0,
{
    let tokens = tokenize(input);
    let mut parser = SQLParser::new(tokens.as_slice());
    parser.parse_statement()
}

} // verus!
