//! The lexer: from input text to tokens.
use vstd::prelude::*;
use vstd::std_specs::cmp::PartialEqSpecImpl;
use vstd::string::StringExecFns;
use crate::text::{
    decimal_digit_value, decimal_value, is_alphabetic_char, is_decimal_digit, is_digit_char,
    is_whitespace_char, is_word_char, is_word_character, lemma_decimal_value_push, text_equals,
    uppercase_text,
};

verus! {

/// The reserved words of the language.
#[derive(Debug, Clone, Copy, PartialEq, Eq, Structural)]
pub enum Keyword {
    Select,
    From,
    Where,
    Order,
    By,
    Create,
    Table,
    Int,
    Bool,
    Varchar,
    Not,
    Null,
    Primary,
    Key,
    Check,
    And,
    Or,
    True,
    False,
}

/// The smallest lexical unit of the input.
#[derive(Debug)]
pub enum Token {
    Keyword(Keyword),
    Identifier(String),
    String(String),
    Number(u64),
    Invalid(char),
    LeftParentheses,
    RightParentheses,
    GreaterThan,
    GreaterThanOrEqual,
    LessThan,
    LessThanOrEqual,
    Equal,
    NotEqual,
    Multiply,
    Divide,
    Minus,
    Plus,
    Comma,
    Semicolon,
    Eof,
}

/// What a `Token` holds, with text as a sequence of characters.
pub enum TokenView {
    Keyword(Keyword),
    Identifier(Seq<char>),
    String(Seq<char>),
    Number(u64),
    Invalid(char),
    LeftParentheses,
    RightParentheses,
    GreaterThan,
    GreaterThanOrEqual,
    LessThan,
    LessThanOrEqual,
    Equal,
    NotEqual,
    Multiply,
    Divide,
    Minus,
    Plus,
    Comma,
    Semicolon,
    Eof,
}

impl View for Token {
    type V = TokenView;

    open spec fn view(&self) -> TokenView {
        match self {
            Token::Keyword(k) => TokenView::Keyword(*k),
            Token::Identifier(s) => TokenView::Identifier(s@),
            Token::String(s) => TokenView::String(s@),
            Token::Number(n) => TokenView::Number(*n),
            Token::Invalid(c) => TokenView::Invalid(*c),
            Token::LeftParentheses => TokenView::LeftParentheses,
            Token::RightParentheses => TokenView::RightParentheses,
            Token::GreaterThan => TokenView::GreaterThan,
            Token::GreaterThanOrEqual => TokenView::GreaterThanOrEqual,
            Token::LessThan => TokenView::LessThan,
            Token::LessThanOrEqual => TokenView::LessThanOrEqual,
            Token::Equal => TokenView::Equal,
            Token::NotEqual => TokenView::NotEqual,
            Token::Multiply => TokenView::Multiply,
            Token::Divide => TokenView::Divide,
            Token::Minus => TokenView::Minus,
            Token::Plus => TokenView::Plus,
            Token::Comma => TokenView::Comma,
            Token::Semicolon => TokenView::Semicolon,
            Token::Eof => TokenView::Eof,
        }
    }
}

impl DeepView for Token {
    type V = TokenView;

    open spec fn deep_view(&self) -> TokenView {
        self@
    }
}

impl Clone for Token {
    fn clone(&self) -> (copy: Self)
        ensures
            copy@ == self@,
    {
        match self {
            Token::Keyword(k) => Token::Keyword(*k),
            Token::Identifier(s) => Token::Identifier(s.clone()),
            Token::String(s) => Token::String(s.clone()),
            Token::Number(n) => Token::Number(*n),
            Token::Invalid(c) => Token::Invalid(*c),
            Token::LeftParentheses => Token::LeftParentheses,
            Token::RightParentheses => Token::RightParentheses,
            Token::GreaterThan => Token::GreaterThan,
            Token::GreaterThanOrEqual => Token::GreaterThanOrEqual,
            Token::LessThan => Token::LessThan,
            Token::LessThanOrEqual => Token::LessThanOrEqual,
            Token::Equal => Token::Equal,
            Token::NotEqual => Token::NotEqual,
            Token::Multiply => Token::Multiply,
            Token::Divide => Token::Divide,
            Token::Minus => Token::Minus,
            Token::Plus => Token::Plus,
            Token::Comma => Token::Comma,
            Token::Semicolon => Token::Semicolon,
            Token::Eof => Token::Eof,
        }
    }
}

impl PartialEq for Token {
    fn eq(&self, other: &Self) -> (same: bool) {
        match (self, other) {
            (Token::Keyword(a), Token::Keyword(b)) => *a == *b,
            (Token::Identifier(a), Token::Identifier(b)) => text_equals(a.as_str(), b.as_str()),
            (Token::String(a), Token::String(b)) => text_equals(a.as_str(), b.as_str()),
            (Token::Number(a), Token::Number(b)) => *a == *b,
            (Token::Invalid(a), Token::Invalid(b)) => *a == *b,
            (Token::LeftParentheses, Token::LeftParentheses) => true,
            (Token::RightParentheses, Token::RightParentheses) => true,
            (Token::GreaterThan, Token::GreaterThan) => true,
            (Token::GreaterThanOrEqual, Token::GreaterThanOrEqual) => true,
            (Token::LessThan, Token::LessThan) => true,
            (Token::LessThanOrEqual, Token::LessThanOrEqual) => true,
            (Token::Equal, Token::Equal) => true,
            (Token::NotEqual, Token::NotEqual) => true,
            (Token::Multiply, Token::Multiply) => true,
            (Token::Divide, Token::Divide) => true,
            (Token::Minus, Token::Minus) => true,
            (Token::Plus, Token::Plus) => true,
            (Token::Comma, Token::Comma) => true,
            (Token::Semicolon, Token::Semicolon) => true,
            (Token::Eof, Token::Eof) => true,
            _ => false,
        }
    }
}

impl PartialEqSpecImpl for Token {
    open spec fn obeys_eq_spec() -> bool {
        true
    }

    open spec fn eq_spec(&self, other: &Self) -> bool {
        self@ == other@
    }
}


impl Keyword {
    /// The keyword that an upper-case word spells, if it spells one.
    pub open spec fn spelled_by(upper: Seq<char>) -> Option<Keyword> {
        if upper == "SELECT"@ {
            Some(Keyword::Select)
        } else if upper == "FROM"@ {
            Some(Keyword::From)
        } else if upper == "WHERE"@ {
            Some(Keyword::Where)
        } else if upper == "ORDER"@ {
            Some(Keyword::Order)
        } else if upper == "BY"@ {
            Some(Keyword::By)
        } else if upper == "CREATE"@ {
            Some(Keyword::Create)
        } else if upper == "TABLE"@ {
            Some(Keyword::Table)
        } else if upper == "INT"@ {
            Some(Keyword::Int)
        } else if upper == "BOOL"@ {
            Some(Keyword::Bool)
        } else if upper == "VARCHAR"@ {
            Some(Keyword::Varchar)
        } else if upper == "NOT"@ {
            Some(Keyword::Not)
        } else if upper == "NULL"@ {
            Some(Keyword::Null)
        } else if upper == "PRIMARY"@ {
            Some(Keyword::Primary)
        } else if upper == "KEY"@ {
            Some(Keyword::Key)
        } else if upper == "CHECK"@ {
            Some(Keyword::Check)
        } else if upper == "AND"@ {
            Some(Keyword::And)
        } else if upper == "OR"@ {
            Some(Keyword::Or)
        } else if upper == "TRUE"@ {
            Some(Keyword::True)
        } else if upper == "FALSE"@ {
            Some(Keyword::False)
        } else {
            None
        }
    }

    /// The keyword that a word stands for, whatever its case.
    pub open spec fn named_by(word: Seq<char>) -> Option<Keyword> {
        Keyword::spelled_by(uppercase_text(word))
    }

    /// Looks an upper-case word up among the reserved words.
    pub fn from_uppercase(upper: &str) -> (k: Option<Keyword>)
        ensures
            k == Keyword::spelled_by(upper@),
    {
        if text_equals(upper, "SELECT") {
            Some(Keyword::Select)
        } else if text_equals(upper, "FROM") {
            Some(Keyword::From)
        } else if text_equals(upper, "WHERE") {
            Some(Keyword::Where)
        } else if text_equals(upper, "ORDER") {
            Some(Keyword::Order)
        } else if text_equals(upper, "BY") {
            Some(Keyword::By)
        } else if text_equals(upper, "CREATE") {
            Some(Keyword::Create)
        } else if text_equals(upper, "TABLE") {
            Some(Keyword::Table)
        } else if text_equals(upper, "INT") {
            Some(Keyword::Int)
        } else if text_equals(upper, "BOOL") {
            Some(Keyword::Bool)
        } else if text_equals(upper, "VARCHAR") {
            Some(Keyword::Varchar)
        } else if text_equals(upper, "NOT") {
            Some(Keyword::Not)
        } else if text_equals(upper, "NULL") {
            Some(Keyword::Null)
        } else if text_equals(upper, "PRIMARY") {
            Some(Keyword::Primary)
        } else if text_equals(upper, "KEY") {
            Some(Keyword::Key)
        } else if text_equals(upper, "CHECK") {
            Some(Keyword::Check)
        } else if text_equals(upper, "AND") {
            Some(Keyword::And)
        } else if text_equals(upper, "OR") {
            Some(Keyword::Or)
        } else if text_equals(upper, "TRUE") {
            Some(Keyword::True)
        } else if text_equals(upper, "FALSE") {
            Some(Keyword::False)
        } else {
            None
        }
    }
}

/// The classes of characters that the lexer reads in runs.
pub enum CharClass {
    /// White space between tokens.
    Whitespace,
    /// Letters, digits and underscores, which continue a word.
    Word,
    /// Decimal digits.
    Digit,
    /// Every character but the given one: the body of a quoted string.
    Except(char),
}

/// Whether a character belongs to a class.
pub open spec fn in_class(c: char, class: CharClass) -> bool {
    match class {
        CharClass::Whitespace => is_whitespace_char(c),
        CharClass::Word => is_word_char(c),
        CharClass::Digit => is_digit_char(c),
        CharClass::Except(q) => c != q,
    }
}

/// The character under a cursor, if the cursor is inside the text.
pub open spec fn char_at(text: Seq<char>, pos: nat) -> Option<char> {
    if pos < text.len() {
        Some(text[pos as int])
    } else {
        None
    }
}

/// Where the longest run of characters of `class` that starts at `pos` ends:
/// the first position from `pos` on that holds no character of the class.
pub open spec fn run_end(text: Seq<char>, pos: nat, class: CharClass) -> nat
    decreases text.len() - pos,
{
    if pos < text.len() && in_class(text[pos as int], class) {
        run_end(text, pos + 1, class)
    } else {
        pos
    }
}

/// `run_end` is the one position that ends a run: everything before it is in
/// the class, and what stands at it, if anything, is not.
pub proof fn lemma_run_end(text: Seq<char>, pos: nat, class: CharClass)
    ensures
        pos <= run_end(text, pos, class),
        pos <= text.len() ==> run_end(text, pos, class) <= text.len(),
        forall|i: int| pos <= i < run_end(text, pos, class) ==> in_class(#[trigger] text[i], class),
        run_end(text, pos, class) < text.len() ==> !in_class(
            text[run_end(text, pos, class) as int],
            class,
        ),
    decreases text.len() - pos,
{
    if pos < text.len() && in_class(text[pos as int], class) {
        lemma_run_end(text, pos + 1, class);
    }
}

/// The token that a word stands for: a keyword if it names one, whatever its
/// case, and an identifier otherwise.
pub open spec fn word_token(word: Seq<char>) -> TokenView {
    match Keyword::named_by(word) {
        Some(k) => TokenView::Keyword(k),
        None => TokenView::Identifier(word),
    }
}

/// The token that a run of digits stands for: its value where that fits in 64
/// bits, and otherwise an invalid-token marker that carries the first digit.
pub open spec fn number_token(digits: Seq<char>) -> TokenView {
    if decimal_value(digits) <= u64::MAX {
        TokenView::Number(decimal_value(digits) as u64)
    } else {
        TokenView::Invalid(digits[0])
    }
}

/// The token that starts at `pos`, where no white space stands, and the
/// position just behind it.
pub open spec fn token_at(text: Seq<char>, pos: nat) -> (TokenView, nat) {
    if pos >= text.len() {
        (TokenView::Eof, pos)
    } else {
        let c = text[pos as int];
        let followed_by_equal = char_at(text, pos + 1) == Some('=');
        if c == ',' {
            (TokenView::Comma, pos + 1)
        } else if c == ';' {
            (TokenView::Semicolon, pos + 1)
        } else if c == '(' {
            (TokenView::LeftParentheses, pos + 1)
        } else if c == ')' {
            (TokenView::RightParentheses, pos + 1)
        } else if c == '+' {
            (TokenView::Plus, pos + 1)
        } else if c == '-' {
            (TokenView::Minus, pos + 1)
        } else if c == '*' {
            (TokenView::Identifier("*"@), pos + 1)
        } else if c == '/' {
            (TokenView::Divide, pos + 1)
        } else if c == '=' {
            (TokenView::Equal, pos + 1)
        } else if c == '>' {
            if followed_by_equal {
                (TokenView::GreaterThanOrEqual, pos + 2)
            } else {
                (TokenView::GreaterThan, pos + 1)
            }
        } else if c == '<' {
            if followed_by_equal {
                (TokenView::LessThanOrEqual, pos + 2)
            } else {
                (TokenView::LessThan, pos + 1)
            }
        } else if c == '!' {
            if followed_by_equal {
                (TokenView::NotEqual, pos + 2)
            } else {
                (TokenView::Invalid('!'), pos + 1)
            }
        } else if is_alphabetic_char(c) {
            let end = run_end(text, pos + 1, CharClass::Word);
            (word_token(text.subrange(pos as int, end as int)), end)
        } else if is_digit_char(c) {
            let end = run_end(text, pos + 1, CharClass::Digit);
            (number_token(text.subrange(pos as int, end as int)), end)
        } else if c == '"' || c == '\'' {
            let end = run_end(text, pos + 1, CharClass::Except(c));
            if end < text.len() {
                (TokenView::String(text.subrange(pos as int + 1, end as int)), end + 1)
            } else {
                (TokenView::Invalid(c), end)
            }
        } else {
            (TokenView::Invalid(c), pos + 1)
        }
    }
}

/// The next token from `pos` on, after any white space, and the position just
/// behind it.
pub open spec fn next_token_from(text: Seq<char>, pos: nat) -> (TokenView, nat) {
    token_at(text, run_end(text, pos, CharClass::Whitespace))
}

/// A lexer over a text, with a single read cursor.
pub struct Tokenizer {
    input: Vec<char>,
    position: usize,
}

impl Tokenizer {
    /// The text that the lexer reads.
    pub closed spec fn text(&self) -> Seq<char> {
        self.input@
    }

    /// The position of the read cursor in the text.
    pub closed spec fn cursor(&self) -> nat {
        self.position as nat
    }

    /// A lexer at the start of `input`.
    pub fn new(input: &str) -> (lexer: Self)
        ensures
            lexer.text() == input@,
            lexer.cursor() == 0,
    {
        let mut chars: Vec<char> = Vec::new();
        for c in it: input.chars()
            invariant
                chars@ == it.seq().take(it.index() as int),
        {
            chars.push(c);
        }
        Self { input: chars, position: 0 }
    }

    fn peek(&self) -> (c: Option<char>)
        ensures
            c == char_at(self.text(), self.cursor()),
    {
        if self.position < self.input.len() {
            Some(self.input[self.position])
        } else {
            None
        }
    }

    fn advance(&mut self) -> (c: Option<char>)
        ensures
            final(self).text() == old(self).text(),
            c == char_at(old(self).text(), old(self).cursor()),
            final(self).cursor() == old(self).cursor() + (if c is Some { 1nat } else { 0nat }),
    {
        if self.position < self.input.len() {
            let ch = self.input[self.position];
            self.position += 1;
            Some(ch)
        } else {
            None
        }
    }

    fn skip_whitespace(&mut self)
        ensures
            final(self).text() == old(self).text(),
            final(self).cursor() == run_end(
                old(self).text(),
                old(self).cursor(),
                CharClass::Whitespace,
            ),
    {
        while self.position < self.input.len() && self.input[self.position].is_whitespace()
            invariant
                self.input@ == old(self).input@,
                run_end(self.input@, self.position as nat, CharClass::Whitespace) == run_end(
                    old(self).input@,
                    old(self).position as nat,
                    CharClass::Whitespace,
                ),
            decreases self.input.len() - self.position,
        {
            self.position += 1;
        }
    }

    fn read_identifier(&mut self) -> (word: String)
        requires
            old(self).cursor() <= old(self).text().len(),
        ensures
            final(self).text() == old(self).text(),
            final(self).cursor() == run_end(old(self).text(), old(self).cursor(), CharClass::Word),
            old(self).cursor() <= final(self).cursor() <= old(self).text().len(),
            word@ == old(self).text().subrange(
                old(self).cursor() as int,
                final(self).cursor() as int,
            ),
    {
        let mut result = String::new();
        while self.position < self.input.len() && is_word_character(self.input[self.position])
            invariant
                self.input@ == old(self).input@,
                old(self).position <= self.position <= self.input.len(),
                run_end(self.input@, self.position as nat, CharClass::Word) == run_end(
                    old(self).input@,
                    old(self).position as nat,
                    CharClass::Word,
                ),
                result@ == self.input@.subrange(old(self).position as int, self.position as int),
            decreases self.input.len() - self.position,
        {
            result.push(self.input[self.position]);
            self.position += 1;
            assert(self.input@.subrange(old(self).position as int, self.position as int)
                =~= self.input@.subrange(
                old(self).position as int,
                self.position as int - 1,
            ).push(self.input@[self.position as int - 1]));
        }
        assert(result@ =~= self.input@.subrange(
            old(self).position as int,
            self.position as int,
        ));
        result
    }

    /// Looks a word up among the reserved words, whatever its case.
    pub fn lookup_keyword(word: &str) -> (k: Option<Keyword>)
        ensures
            k == Keyword::named_by(word@),
    {
        let upper = word.to_uppercase();
        Keyword::from_uppercase(upper.as_str())
    }

    fn read_word(&mut self, first: char) -> (tok: Token)
        requires
            1 <= old(self).cursor() <= old(self).text().len(),
            old(self).text()[old(self).cursor() - 1] == first,
        ensures
            final(self).text() == old(self).text(),
            final(self).cursor() == run_end(old(self).text(), old(self).cursor(), CharClass::Word),
            tok@ == word_token(
                old(self).text().subrange(old(self).cursor() - 1, final(self).cursor() as int),
            ),
    {
        let mut ident = String::new();
        ident.push(first);
        let rest = self.read_identifier();
        ident.append(rest.as_str());
        assert(ident@ =~= old(self).text().subrange(
            old(self).cursor() - 1,
            self.cursor() as int,
        ));
        match Self::lookup_keyword(ident.as_str()) {
            Some(keyword) => Token::Keyword(keyword),
            None => Token::Identifier(ident),
        }
    }

    fn read_number(&mut self, first: char) -> (tok: Token)
        requires
            1 <= old(self).cursor() <= old(self).text().len(),
            old(self).text()[old(self).cursor() - 1] == first,
            is_digit_char(first),
        ensures
            final(self).text() == old(self).text(),
            final(self).cursor() == run_end(
                old(self).text(),
                old(self).cursor(),
                CharClass::Digit,
            ),
            tok@ == number_token(
                old(self).text().subrange(old(self).cursor() - 1, final(self).cursor() as int),
            ),
    {
        let mut value: u64 = decimal_digit_value(first);
        let mut fits: bool = true;
        proof {
            let one = self.input@.subrange(self.position as int - 1, self.position as int);
            assert(one =~= Seq::<char>::empty().push(first));
            lemma_decimal_value_push(Seq::<char>::empty(), first);
        }
        while self.position < self.input.len() && is_decimal_digit(self.input[self.position])
            invariant
                self.input@ == old(self).input@,
                1 <= old(self).position <= self.position <= self.input.len(),
                run_end(self.input@, self.position as nat, CharClass::Digit) == run_end(
                    old(self).input@,
                    old(self).position as nat,
                    CharClass::Digit,
                ),
                fits ==> value == decimal_value(
                    self.input@.subrange(old(self).position as int - 1, self.position as int),
                ),
                !fits ==> decimal_value(
                    self.input@.subrange(old(self).position as int - 1, self.position as int),
                ) > u64::MAX,
            decreases self.input.len() - self.position,
        {
            let digit: u64 = decimal_digit_value(self.input[self.position]);
            proof {
                let read = self.input@.subrange(
                    old(self).position as int - 1,
                    self.position as int,
                );
                assert(self.input@.subrange(
                    old(self).position as int - 1,
                    self.position as int + 1,
                ) =~= read.push(self.input@[self.position as int]));
                lemma_decimal_value_push(read, self.input@[self.position as int]);
            }
            if fits {
                match value.checked_mul(10) {
                    Some(tens) => match tens.checked_add(digit) {
                        Some(sum) => {
                            value = sum;
                        },
                        None => {
                            fits = false;
                        },
                    },
                    None => {
                        fits = false;
                    },
                }
            }
            self.position += 1;
        }
        if fits {
            Token::Number(value)
        } else {
            Token::Invalid(first)
        }
    }

    fn read_string(&mut self, quote: char) -> (tok: Token)
        requires
            old(self).cursor() <= old(self).text().len(),
        ensures
            final(self).text() == old(self).text(),
            ({
                let end = run_end(old(self).text(), old(self).cursor(), CharClass::Except(quote));
                if end < old(self).text().len() {
                    &&& tok@ == TokenView::String(
                        old(self).text().subrange(old(self).cursor() as int, end as int),
                    )
                    &&& final(self).cursor() == end + 1
                } else {
                    &&& tok@ == TokenView::Invalid(quote)
                    &&& final(self).cursor() == end
                }
            }),
    {
        let mut result = String::new();
        while self.position < self.input.len()
            invariant
                self.input@ == old(self).input@,
                old(self).position <= self.position <= self.input.len(),
                run_end(self.input@, self.position as nat, CharClass::Except(quote)) == run_end(
                    old(self).input@,
                    old(self).position as nat,
                    CharClass::Except(quote),
                ),
                result@ == self.input@.subrange(old(self).position as int, self.position as int),
            decreases self.input.len() - self.position,
        {
            let ch = self.input[self.position];
            if ch == quote {
                self.position += 1;
                return Token::String(result);
            }
            result.push(ch);
            self.position += 1;
            assert(self.input@.subrange(old(self).position as int, self.position as int)
                =~= self.input@.subrange(
                old(self).position as int,
                self.position as int - 1,
            ).push(ch));
        }
        Token::Invalid(quote)
    }

    /// Reads the next token: skips white space, then classifies what follows.
    /// At the end of the text the token is `Eof`, and the cursor stays where
    /// it is. What cannot start a token gives `Invalid` with the character; a
    /// string without its closing quote gives `Invalid` with the quote; a
    /// number too large for 64 bits is read to its end and gives `Invalid`
    /// with its first digit. The cursor never moves back and never leaves the
    /// text, and every token but `Eof` moves it forward.
    pub fn next_token(&mut self) -> (tok: Token)
        ensures
            final(self).text() == old(self).text(),
            tok@ == next_token_from(old(self).text(), old(self).cursor()).0,
            final(self).cursor() == next_token_from(old(self).text(), old(self).cursor()).1,
            old(self).cursor() >= old(self).text().len() ==> tok@ is Eof && final(self).cursor()
                == old(self).cursor(),
            old(self).cursor() <= final(self).cursor(),
            old(self).cursor() <= old(self).text().len() ==> final(self).cursor()
                <= old(self).text().len(),
            !(tok@ is Eof) ==> old(self).cursor() < final(self).cursor(),
    {
        proof {
            lemma_next_token_advances(self.text(), self.cursor());
        }
        self.skip_whitespace();
        match self.advance() {
            None => Token::Eof,
            Some(c) => {
                if c == ',' {
                    Token::Comma
                } else if c == ';' {
                    Token::Semicolon
                } else if c == '(' {
                    Token::LeftParentheses
                } else if c == ')' {
                    Token::RightParentheses
                } else if c == '+' {
                    Token::Plus
                } else if c == '-' {
                    Token::Minus
                } else if c == '*' {
                    Token::Identifier("*".to_string())
                } else if c == '/' {
                    Token::Divide
                } else if c == '=' {
                    Token::Equal
                } else if c == '>' {
                    if self.peek() == Some('=') {
                        self.advance();
                        Token::GreaterThanOrEqual
                    } else {
                        Token::GreaterThan
                    }
                } else if c == '<' {
                    if self.peek() == Some('=') {
                        self.advance();
                        Token::LessThanOrEqual
                    } else {
                        Token::LessThan
                    }
                } else if c == '!' {
                    if self.peek() == Some('=') {
                        self.advance();
                        Token::NotEqual
                    } else {
                        Token::Invalid('!')
                    }
                } else if c.is_alphabetic() {
                    self.read_word(c)
                } else if is_decimal_digit(c) {
                    self.read_number(c)
                } else if c == '"' || c == '\'' {
                    self.read_string(c)
                } else {
                    Token::Invalid(c)
                }
            },
        }
    }
}


/// The position behind a token is never before the position the lexer started
/// from and never behind the end of a text it started inside of; every token
/// but `Eof` moves the cursor forward; and `Eof` comes exactly when nothing
/// but white space is left.
pub proof fn lemma_next_token_advances(text: Seq<char>, pos: nat)
    ensures
        pos <= next_token_from(text, pos).1,
        pos <= text.len() ==> next_token_from(text, pos).1 <= text.len(),
        !(next_token_from(text, pos).0 is Eof) ==> pos < next_token_from(text, pos).1,
        next_token_from(text, pos).0 is Eof <==> run_end(text, pos, CharClass::Whitespace)
            >= text.len(),
{
    let start = run_end(text, pos, CharClass::Whitespace);
    lemma_run_end(text, pos, CharClass::Whitespace);
    if start < text.len() {
        let c = text[start as int];
        lemma_run_end(text, start + 1, CharClass::Word);
        lemma_run_end(text, start + 1, CharClass::Digit);
        lemma_run_end(text, start + 1, CharClass::Except(c));
    }
}

/// Reading at the end is idempotent. A lexer whose cursor is at or behind the
/// end of its text reads `Eof` and does not move; and once a lexer has read
/// `Eof` from anywhere, every later read gives `Eof` again, with the cursor
/// where the first `Eof` left it.
pub proof fn lemma_eof_is_idempotent(text: Seq<char>, pos: nat)
    ensures
        pos >= text.len() ==> next_token_from(text, pos) == (TokenView::Eof, pos),
        next_token_from(text, pos).0 is Eof ==> next_token_from(
            text,
            next_token_from(text, pos).1,
        ) == next_token_from(text, pos),
{
    lemma_next_token_advances(text, pos);
}

/// The tokens of `text` from `pos` on, up to and including the first `Eof`.
pub open spec fn token_stream(text: Seq<char>, pos: nat) -> Seq<TokenView>
    decreases text.len() - pos,
    via token_stream_decreases
{
    let (tok, next) = next_token_from(text, pos);
    if tok is Eof {
        seq![tok]
    } else {
        seq![tok] + token_stream(text, next)
    }
}

#[via_fn]
proof fn token_stream_decreases(text: Seq<char>, pos: nat) {
    lemma_next_token_advances(text, pos);
    lemma_run_end(text, pos, CharClass::Whitespace);
}

/// A token stream is terminated by `Eof`: its last token is `Eof`, and no
/// token before the last is.
pub proof fn lemma_token_stream_eof_terminated(text: Seq<char>, pos: nat)
    ensures
        token_stream(text, pos).len() >= 1,
        token_stream(text, pos).last() is Eof,
        forall|i: int|
            0 <= i < token_stream(text, pos).len() - 1 ==> !(#[trigger] token_stream(text, pos)[i]
                is Eof),
    decreases text.len() - pos,
{
    let (tok, next) = next_token_from(text, pos);
    if !(tok is Eof) {
        lemma_next_token_advances(text, pos);
        lemma_run_end(text, pos, CharClass::Whitespace);
        lemma_token_stream_eof_terminated(text, next);
    }
}

impl Token {
    /// Whether this is the end-of-input marker.
    pub fn is_eof(&self) -> (b: bool)
        ensures
            b == (self@ is Eof),
    {
        match self {
            Token::Eof => true,
            _ => false,
        }
    }
}

/// Lexes a whole text into its token sequence, which `Eof` terminates.
pub fn tokenize(input: &str) -> (tokens: Vec<Token>)
    ensures
        tokens_view(tokens@) == token_stream(input@, 0),
        tokens.len() >= 1,
        tokens[tokens.len() - 1]@ is Eof,
{
    let mut lexer = Tokenizer::new(input);
    let mut tokens: Vec<Token> = Vec::new();
    let mut done: bool = false;
    while !done
        invariant
            lexer.text() == input@,
            !done ==> token_stream(input@, 0) == tokens_view(tokens@) + token_stream(
                input@,
                lexer.cursor(),
            ),
            done ==> tokens_view(tokens@) == token_stream(input@, 0),
            done ==> tokens.len() >= 1 && tokens[tokens.len() - 1]@ is Eof,
            lexer.cursor() <= input@.len(),
        decreases input@.len() - lexer.cursor() + (if done { 0int } else { 1int }),
    {
        let ghost before = tokens_view(tokens@);
        let ghost from = lexer.cursor();
        let tok = lexer.next_token();
        proof {
            lemma_next_token_advances(input@, from);
        }
        done = tok.is_eof();
        tokens.push(tok);
        proof {
            assert(tokens_view(tokens@) =~= before.push(tok@));
            if done {
                assert(before + seq![tok@] =~= before.push(tok@));
            } else {
                assert(before + (seq![tok@] + token_stream(input@, lexer.cursor()))
                    =~= before.push(tok@) + token_stream(input@, lexer.cursor()));
            }
        }
    }
    tokens
}


/// The text that the derived `Debug` of `Token` writes for a token.
pub uninterp spec fn token_debug_text(token: TokenView) -> Seq<char>;

/// Trusted: writes a token with the `Debug` that `derive` made for `Token`,
/// through `format!`. What is written depends on what the token holds and on
/// nothing else; it is what `token_debug_text` names.
#[verifier::external_body]
pub(crate) fn token_debug(token: &Token) -> (text: String)
    ensures
        text@ == token_debug_text(token@),
{
    format!("{:?}", token)
}

impl Keyword {
    /// The name of the keyword, as it is written in messages.
    pub open spec fn name_text(self) -> Seq<char> {
        match self {
            Keyword::Select => "Select"@,
            Keyword::From => "From"@,
            Keyword::Where => "Where"@,
            Keyword::Order => "Order"@,
            Keyword::By => "By"@,
            Keyword::Create => "Create"@,
            Keyword::Table => "Table"@,
            Keyword::Int => "Int"@,
            Keyword::Bool => "Bool"@,
            Keyword::Varchar => "Varchar"@,
            Keyword::Not => "Not"@,
            Keyword::Null => "Null"@,
            Keyword::Primary => "Primary"@,
            Keyword::Key => "Key"@,
            Keyword::Check => "Check"@,
            Keyword::And => "And"@,
            Keyword::Or => "Or"@,
            Keyword::True => "True"@,
            Keyword::False => "False"@,
        }
    }

    /// The name of the keyword, as it is written in messages.
    pub fn name(&self) -> (text: String)
        ensures
            text@ == self.name_text(),
    {
        match self {
            Keyword::Select => "Select".to_string(),
            Keyword::From => "From".to_string(),
            Keyword::Where => "Where".to_string(),
            Keyword::Order => "Order".to_string(),
            Keyword::By => "By".to_string(),
            Keyword::Create => "Create".to_string(),
            Keyword::Table => "Table".to_string(),
            Keyword::Int => "Int".to_string(),
            Keyword::Bool => "Bool".to_string(),
            Keyword::Varchar => "Varchar".to_string(),
            Keyword::Not => "Not".to_string(),
            Keyword::Null => "Null".to_string(),
            Keyword::Primary => "Primary".to_string(),
            Keyword::Key => "Key".to_string(),
            Keyword::Check => "Check".to_string(),
            Keyword::And => "And".to_string(),
            Keyword::Or => "Or".to_string(),
            Keyword::True => "True".to_string(),
            Keyword::False => "False".to_string(),
        }
    }
}

/// The model of a token sequence.
pub open spec fn tokens_view(tokens: Seq<Token>) -> Seq<TokenView> {
    Seq::new(tokens.len(), |i: int| tokens[i]@)
}

/// The token under a cursor, if the cursor is inside the sequence.
pub open spec fn token_at_cursor(tokens: Seq<TokenView>, pos: nat) -> Option<TokenView> {
    if pos < tokens.len() {
        Some(tokens[pos as int])
    } else {
        None
    }
}

/// How many tokens stand at and behind a cursor.
pub open spec fn tokens_left(tokens: Seq<TokenView>, pos: nat) -> nat {
    if pos < tokens.len() {
        (tokens.len() - pos) as nat
    } else {
        0
    }
}

} // verus!
