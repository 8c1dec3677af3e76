//! The expression parser: precedence climbing over a token sequence.
use vstd::prelude::*;
use vstd::string::StringExecFns;
use crate::ast::{BinaryOperator, Expression, ExpressionView, UnaryOperator};
use crate::laws::lemma_expr_stays_inside;
use crate::tokenizer::{
    token_at_cursor, token_debug, token_debug_text, tokens_left, tokens_view, Keyword, Token,
    TokenView,
};

verus! {

/// How deep expressions may nest. The expression that a parse starts with is
/// at depth zero; the operand of a prefix operator, the right operand of a
/// binary operator and the inside of a pair of parentheses are one level
/// deeper than the expression they stand in. An expression at this depth is
/// not parsed: the parse fails.
pub const MAX_NESTING_DEPTH: usize = 128;

/// The precedence with which unary operators bind their operand.
pub const UNARY_PRECEDENCE: u8 = 6;

/// The binding power of a token between two operands; zero for a token that
/// is no operator.
pub open spec fn precedence_of(token: TokenView) -> nat {
    match token {
        TokenView::Keyword(Keyword::Or) => 1,
        TokenView::Keyword(Keyword::And) => 2,
        TokenView::Equal | TokenView::NotEqual => 3,
        TokenView::GreaterThan
        | TokenView::GreaterThanOrEqual
        | TokenView::LessThan
        | TokenView::LessThanOrEqual => 4,
        TokenView::Plus | TokenView::Minus => 5,
        TokenView::Multiply | TokenView::Divide => 6,
        _ => 0,
    }
}

/// The operator that a token stands for between two operands.
pub open spec fn binary_operator_of(token: TokenView) -> Option<BinaryOperator> {
    match token {
        TokenView::Equal => Some(BinaryOperator::Equals),
        TokenView::NotEqual => Some(BinaryOperator::NotEquals),
        TokenView::GreaterThan => Some(BinaryOperator::GreaterThan),
        TokenView::GreaterThanOrEqual => Some(BinaryOperator::GreaterThanOrEqual),
        TokenView::LessThan => Some(BinaryOperator::LessThan),
        TokenView::LessThanOrEqual => Some(BinaryOperator::LessThanOrEqual),
        TokenView::Plus => Some(BinaryOperator::Add),
        TokenView::Minus => Some(BinaryOperator::Subtract),
        TokenView::Multiply => Some(BinaryOperator::Multiply),
        TokenView::Divide => Some(BinaryOperator::Divide),
        TokenView::Keyword(Keyword::And) => Some(BinaryOperator::And),
        TokenView::Keyword(Keyword::Or) => Some(BinaryOperator::Or),
        _ => None,
    }
}

/// The outcome of parsing an expression that starts at `pos`, in a parse that
/// is already `depth` levels deep, and the number of tokens consumed. An
/// operator is taken into the expression while it binds at least as tightly as
/// `min_prec`.
pub open spec fn parse_expr(tokens: Seq<TokenView>, pos: nat, min_prec: nat, depth: nat) -> (
    Result<ExpressionView, Seq<char>>,
    nat,
)
    decreases tokens_left(tokens, pos), 2nat,
{
    if depth >= MAX_NESTING_DEPTH {
        (Err("Expression nesting too deep"@), 0)
    } else {
        let (first, n) = parse_primary(tokens, pos, depth);
        match first {
            Err(message) => (Err(message), n),
            Ok(left) => {
                let (all, m) = parse_infix(tokens, pos + n, left, min_prec, depth);
                (all, n + m)
            },
        }
    }
}

/// The outcome of parsing a primary form at `pos`: a literal, a name, a
/// prefix operator with its operand, or an expression in parentheses.
pub open spec fn parse_primary(tokens: Seq<TokenView>, pos: nat, depth: nat) -> (
    Result<ExpressionView, Seq<char>>,
    nat,
)
    decreases tokens_left(tokens, pos), 1nat,
{
    if pos >= tokens.len() {
        (Err("Unexpected end of input"@), 0)
    } else {
        match tokens[pos as int] {
            TokenView::Identifier(name) => (Ok(ExpressionView::Identifier(name)), 1),
            TokenView::Number(n) => (Ok(ExpressionView::Number(n)), 1),
            TokenView::String(s) => (Ok(ExpressionView::String(s)), 1),
            TokenView::Keyword(Keyword::True) => (Ok(ExpressionView::Boolean(true)), 1),
            TokenView::Keyword(Keyword::False) => (Ok(ExpressionView::Boolean(false)), 1),
            TokenView::Keyword(Keyword::Not) => {
                let (inner, n) = parse_expr(tokens, pos + 1, UNARY_PRECEDENCE as nat, depth + 1);
                (
                    match inner {
                        Ok(operand) => Ok(
                            ExpressionView::UnaryOperation {
                                operator: UnaryOperator::Not,
                                operand: Box::new(operand),
                            },
                        ),
                        Err(message) => Err(message),
                    },
                    1 + n,
                )
            },
            TokenView::Minus => {
                let (inner, n) = parse_expr(tokens, pos + 1, UNARY_PRECEDENCE as nat, depth + 1);
                (
                    match inner {
                        Ok(operand) => Ok(
                            ExpressionView::UnaryOperation {
                                operator: UnaryOperator::Negate,
                                operand: Box::new(operand),
                            },
                        ),
                        Err(message) => Err(message),
                    },
                    1 + n,
                )
            },
            TokenView::LeftParentheses => {
                let (inner, n) = parse_expr(tokens, pos + 1, 1, depth + 1);
                match inner {
                    Err(message) => (Err(message), 1 + n),
                    Ok(e) => match token_at_cursor(tokens, pos + 1 + n) {
                        Some(TokenView::RightParentheses) => (
                            Ok(ExpressionView::Grouped(Box::new(e))),
                            n + 2,
                        ),
                        Some(_) => (Err("Expected ')'"@), n + 2),
                        None => (Err("Expected ')'"@), n + 1),
                    },
                }
            },
            other => (Err("Unexpected token: "@ + token_debug_text(other)), 1),
        }
    }
}

/// The outcome of continuing an expression whose left operand `left` ends
/// just before `pos`: operators that bind at least as tightly as `min_prec`
/// are folded in from the left, each with a right operand that binds tighter
/// than the operator itself.
pub open spec fn parse_infix(
    tokens: Seq<TokenView>,
    pos: nat,
    left: ExpressionView,
    min_prec: nat,
    depth: nat,
) -> (Result<ExpressionView, Seq<char>>, nat)
    decreases tokens_left(tokens, pos), 0nat,
{
    if pos < tokens.len() && precedence_of(tokens[pos as int]) >= min_prec {
        let op = tokens[pos as int];
        let (operand, n) = parse_expr(tokens, pos + 1, precedence_of(op) + 1, depth + 1);
        match operand {
            Err(message) => (Err(message), 1 + n),
            Ok(right) => match binary_operator_of(op) {
                None => (Err("Unknown operator "@ + token_debug_text(op)), 1 + n),
                Some(operator) => {
                    let (all, m) = parse_infix(
                        tokens,
                        pos + 1 + n,
                        ExpressionView::BinaryOperation {
                            left_operand: Box::new(left),
                            operator,
                            right_operand: Box::new(right),
                        },
                        min_prec,
                        depth,
                    );
                    (all, 1 + n + m)
                },
            },
        }
    } else {
        (Ok(left), 0)
    }
}

/// The model of what the expression parser returns.
pub open spec fn outcome_view(r: Result<Expression, String>) -> Result<ExpressionView, Seq<char>> {
    match r {
        Ok(e) => Ok(e@),
        Err(message) => Err(message@),
    }
}

/// An expression parser over a token sequence, with its cursor.
pub struct PrattParser<'a> {
    pub tokens: &'a [Token],
    pub position: usize,
}

impl<'a> PrattParser<'a> {
    /// A parser at the start of `tokens`.
    pub fn new(tokens: &'a [Token]) -> (parser: Self)
        ensures
            parser.tokens == tokens,
            parser.position == 0,
    {
        Self { tokens, position: 0 }
    }

    /// The model of the token sequence.
    pub open spec fn stream(&self) -> Seq<TokenView> {
        tokens_view(self.tokens@)
    }

    fn peek(&self) -> (token: Option<&'a Token>)
        ensures
            match token {
                Some(t) => token_at_cursor(self.stream(), self.position as nat) == Some(t@),
                None => token_at_cursor(self.stream(), self.position as nat).is_none(),
            },
    {
        if self.position < self.tokens.len() {
            Some(&self.tokens[self.position])
        } else {
            None
        }
    }

    fn advance(&mut self) -> (token: Option<&'a Token>)
        ensures
            final(self).tokens == old(self).tokens,
            match token {
                Some(t) => {
                    &&& token_at_cursor(old(self).stream(), old(self).position as nat) == Some(t@)
                    &&& final(self).position == old(self).position + 1
                },
                None => {
                    &&& token_at_cursor(old(self).stream(), old(self).position as nat).is_none()
                    &&& final(self).position == old(self).position
                },
            },
    {
        if self.position < self.tokens.len() {
            let token = &self.tokens[self.position];
            self.position += 1;
            Some(token)
        } else {
            None
        }
    }

    /// The binding power of a token between two operands.
    pub fn get_precedence(token: &Token) -> (precedence: u8)
        ensures
            precedence == precedence_of(token@),
            precedence <= 6,
    {
        match token {
            Token::Keyword(Keyword::Or) => 1,
            Token::Keyword(Keyword::And) => 2,
            Token::Equal | Token::NotEqual => 3,
            Token::GreaterThan
            | Token::GreaterThanOrEqual
            | Token::LessThan
            | Token::LessThanOrEqual => 4,
            Token::Plus | Token::Minus => 5,
            Token::Multiply | Token::Divide => 6,
            _ => 0,
        }
    }

    /// The operator that a token stands for between two operands.
    pub fn binary_operator(token: &Token) -> (operator: Option<BinaryOperator>)
        ensures
            operator == binary_operator_of(token@),
    {
        match token {
            Token::Equal => Some(BinaryOperator::Equals),
            Token::NotEqual => Some(BinaryOperator::NotEquals),
            Token::GreaterThan => Some(BinaryOperator::GreaterThan),
            Token::GreaterThanOrEqual => Some(BinaryOperator::GreaterThanOrEqual),
            Token::LessThan => Some(BinaryOperator::LessThan),
            Token::LessThanOrEqual => Some(BinaryOperator::LessThanOrEqual),
            Token::Plus => Some(BinaryOperator::Add),
            Token::Minus => Some(BinaryOperator::Subtract),
            Token::Multiply => Some(BinaryOperator::Multiply),
            Token::Divide => Some(BinaryOperator::Divide),
            Token::Keyword(Keyword::And) => Some(BinaryOperator::And),
            Token::Keyword(Keyword::Or) => Some(BinaryOperator::Or),
            _ => None,
        }
    }

    /// Parses one expression from the cursor on. An operator is taken into the
    /// expression while it binds at least as tightly as `min_precedence`. The
    /// cursor ends behind the last token consumed, also when the parse fails,
    /// and never leaves the sequence. An expression that nests
    /// `MAX_NESTING_DEPTH` levels deep or deeper fails with a message of its
    /// own.
    pub fn parse_expression(&mut self, min_precedence: u8) -> (r: Result<Expression, String>)
        ensures
            final(self).tokens == old(self).tokens,
            old(self).position <= old(self).tokens@.len() ==> final(self).position
                <= old(self).tokens@.len(),
            outcome_view(r) == parse_expr(
                old(self).stream(),
                old(self).position as nat,
                min_precedence as nat,
                0,
            ).0,
            final(self).position == old(self).position + parse_expr(
                old(self).stream(),
                old(self).position as nat,
                min_precedence as nat,
                0,
            ).1,
    {
        proof {
            lemma_expr_stays_inside(self.stream(), self.position as nat, min_precedence as nat, 0);
        }
        self.parse_nested(min_precedence, 0)
    }

    fn parse_nested(&mut self, min_precedence: u8, depth: usize) -> (r: Result<
        Expression,
        String,
    >)
        ensures
            final(self).tokens == old(self).tokens,
            outcome_view(r) == parse_expr(
                old(self).stream(),
                old(self).position as nat,
                min_precedence as nat,
                depth as nat,
            ).0,
            final(self).position == old(self).position + parse_expr(
                old(self).stream(),
                old(self).position as nat,
                min_precedence as nat,
                depth as nat,
            ).1,
        decreases MAX_NESTING_DEPTH - depth, 1nat,
    {
        if depth >= MAX_NESTING_DEPTH {
            return Err("Expression nesting too deep".to_string());
        }
        let ghost stream = self.stream();
        let ghost start = self.position as nat;
        let ghost goal = parse_expr(stream, start, min_precedence as nat, depth as nat);
        let mut left = match self.parse_primary(depth) {
            Ok(e) => e,
            Err(message) => {
                return Err(message);
            },
        };
        loop
            invariant
                self.tokens == old(self).tokens,
                stream == self.stream(),
                depth < MAX_NESTING_DEPTH,
                goal == parse_expr(stream, start, min_precedence as nat, depth as nat),
                start == old(self).position,
                goal.0 == parse_infix(
                    stream,
                    self.position as nat,
                    left@,
                    min_precedence as nat,
                    depth as nat,
                ).0,
                start + goal.1 == self.position + parse_infix(
                    stream,
                    self.position as nat,
                    left@,
                    min_precedence as nat,
                    depth as nat,
                ).1,
            decreases tokens_left(stream, self.position as nat),
        {
            let op = match self.peek() {
                Some(token) => token,
                None => {
                    return Ok(left);
                },
            };
            let precedence: u8 = Self::get_precedence(op);
            if precedence < min_precedence {
                return Ok(left);
            }
            self.advance();
            let right = match self.parse_nested(precedence + 1, depth + 1) {
                Ok(e) => e,
                Err(message) => {
                    return Err(message);
                },
            };
            let operator = match Self::binary_operator(op) {
                Some(operator) => operator,
                None => {
                    return Err("Unknown operator ".to_string().concat(token_debug(op).as_str()));
                },
            };
            left = Expression::BinaryOperation {
                left_operand: Box::new(left),
                operator,
                right_operand: Box::new(right),
            };
        }
    }

    fn parse_primary(&mut self, depth: usize) -> (r: Result<Expression, String>)
        requires
            depth < MAX_NESTING_DEPTH,
        ensures
            final(self).tokens == old(self).tokens,
            outcome_view(r) == parse_primary(
                old(self).stream(),
                old(self).position as nat,
                depth as nat,
            ).0,
            final(self).position == old(self).position + parse_primary(
                old(self).stream(),
                old(self).position as nat,
                depth as nat,
            ).1,
        decreases MAX_NESTING_DEPTH - depth, 0nat,
    {
        match self.advance() {
            None => Err("Unexpected end of input".to_string()),
            Some(token) => match token {
                Token::Identifier(name) => Ok(Expression::Identifier(name.clone())),
                Token::Number(n) => Ok(Expression::Number(*n)),
                Token::String(s) => Ok(Expression::String(s.clone())),
                Token::Keyword(Keyword::True) => Ok(Expression::Boolean(true)),
                Token::Keyword(Keyword::False) => Ok(Expression::Boolean(false)),
                Token::Keyword(Keyword::Not) => {
                    match self.parse_nested(UNARY_PRECEDENCE, depth + 1) {
                        Ok(operand) => Ok(
                            Expression::UnaryOperation {
                                operator: UnaryOperator::Not,
                                operand: Box::new(operand),
                            },
                        ),
                        Err(message) => Err(message),
                    }
                },
                Token::Minus => {
                    match self.parse_nested(UNARY_PRECEDENCE, depth + 1) {
                        Ok(operand) => Ok(
                            Expression::UnaryOperation {
                                operator: UnaryOperator::Negate,
                                operand: Box::new(operand),
                            },
                        ),
                        Err(message) => Err(message),
                    }
                },
                Token::LeftParentheses => {
                    match self.parse_nested(1, depth + 1) {
                        Err(message) => Err(message),
                        Ok(inner) => match self.advance() {
                            Some(Token::RightParentheses) => Ok(
                                Expression::Grouped(Box::new(inner)),
                            ),
                            _ => Err("Expected ')'".to_string()),
                        },
                    }
                },
                other => Err("Unexpected token: ".to_string().concat(token_debug(other).as_str())),
            },
        }
    }
}

} // verus!
