//! Theorems about the parsers, stated over the functions that their
//! contracts use.
use vstd::prelude::*;
use crate::ast::{
    BinaryOperator, ConstraintView, ExpressionView, StatementView, TableColumnView, UnaryOperator,
};
use crate::error::ParseErrorView;
use crate::parser::{
    check_body, column_def, column_defs, column_type_at, comma_run, constraint_list,
    identifier_at, keyword_mismatch, order_by_clause, order_columns, parse_create_table_at,
    parse_select_at, parse_statement_at, select_columns, select_tail, step, token_mismatch,
};
use crate::pratt::{binary_operator_of, parse_expr, parse_infix, parse_primary, precedence_of};
use crate::tokenizer::{token_at_cursor, token_debug_text, tokens_left, Keyword, TokenView};

verus! {

/// A token that is an expression by itself: a name, a number, a string, or a
/// boolean literal.
pub open spec fn is_atom(token: TokenView) -> bool {
    ||| token is Identifier
    ||| token is Number
    ||| token is String
    ||| token == TokenView::Keyword(Keyword::True)
    ||| token == TokenView::Keyword(Keyword::False)
}

/// The expression that an atom stands for.
pub open spec fn atom_of(token: TokenView) -> ExpressionView
    recommends
        is_atom(token),
{
    match token {
        TokenView::Identifier(name) => ExpressionView::Identifier(name),
        TokenView::Number(n) => ExpressionView::Number(n),
        TokenView::String(s) => ExpressionView::String(s),
        TokenView::Keyword(Keyword::True) => ExpressionView::Boolean(true),
        _ => ExpressionView::Boolean(false),
    }
}

/// The operation `left operator right`.
pub open spec fn binary(left: ExpressionView, operator: BinaryOperator, right: ExpressionView)
    -> ExpressionView {
    ExpressionView::BinaryOperation {
        left_operand: Box::new(left),
        operator,
        right_operand: Box::new(right),
    }
}

/// An atom alone, with nothing or with a token that binds less tightly than
/// the threshold behind it, is parsed to the expression it stands for.
pub proof fn lemma_atom_alone(tokens: Seq<TokenView>, pos: nat, min_prec: nat, depth: nat)
    requires
        depth < crate::pratt::MAX_NESTING_DEPTH,
        pos < tokens.len(),
        is_atom(tokens[pos as int]),
        pos + 1 < tokens.len() ==> precedence_of(tokens[pos as int + 1]) < min_prec,
    ensures
        parse_expr(tokens, pos, min_prec, depth) == (
            Ok::<ExpressionView, Seq<char>>(atom_of(tokens[pos as int])),
            1nat,
        ),
{
    assert(parse_primary(tokens, pos, depth) == (
        Ok::<ExpressionView, Seq<char>>(atom_of(tokens[pos as int])),
        1nat,
    ));
    assert(parse_infix(tokens, pos + 1, atom_of(tokens[pos as int]), min_prec, depth) == (
        Ok::<ExpressionView, Seq<char>>(atom_of(tokens[pos as int])),
        0nat,
    ));
}

/// Precedence and associativity. Of two operators between three atoms, the
/// first takes the middle atom when it binds at least as tightly as the
/// second, so that operators of one level associate to the left; otherwise the
/// second takes it. `a AND b OR c` is `(a AND b) OR c`, and `a OR b AND c` is
/// `a OR (b AND c)`.
pub proof fn lemma_two_operators(
    a: TokenView,
    first: TokenView,
    b: TokenView,
    second: TokenView,
    c: TokenView,
)
    requires
        is_atom(a),
        is_atom(b),
        is_atom(c),
        binary_operator_of(first) is Some,
        binary_operator_of(second) is Some,
    ensures
        parse_expr(seq![a, first, b, second, c], 0, 1, 0) == (
            Ok::<ExpressionView, Seq<char>>(
                if precedence_of(first) >= precedence_of(second) {
                    binary(
                        binary(atom_of(a), binary_operator_of(first)->0, atom_of(b)),
                        binary_operator_of(second)->0,
                        atom_of(c),
                    )
                } else {
                    binary(
                        atom_of(a),
                        binary_operator_of(first)->0,
                        binary(atom_of(b), binary_operator_of(second)->0, atom_of(c)),
                    )
                },
            ),
            5nat,
        ),
{
    let tokens = seq![a, first, b, second, c];
    let first_prec = precedence_of(first);
    let second_prec = precedence_of(second);
    let first_op = binary_operator_of(first)->0;
    let second_op = binary_operator_of(second)->0;
    let (ea, eb, ec) = (atom_of(a), atom_of(b), atom_of(c));
    assert(first_prec >= 1 && second_prec >= 1);
    assert(parse_primary(tokens, 0, 0) == (Ok::<ExpressionView, Seq<char>>(ea), 1nat));
    // The right operand of the last operator is always the last atom.
    lemma_atom_alone(tokens, 4, second_prec + 1, 1);
    lemma_atom_alone(tokens, 4, second_prec + 1, 2);
    if first_prec >= second_prec {
        // The first operator ends at the second: its right operand is `b`.
        lemma_atom_alone(tokens, 2, first_prec + 1, 1);
        let left = binary(ea, first_op, eb);
        assert(parse_infix(tokens, 5, binary(left, second_op, ec), 1, 0) == (
            Ok::<ExpressionView, Seq<char>>(binary(left, second_op, ec)),
            0nat,
        ));
        assert(parse_infix(tokens, 3, left, 1, 0) == (
            Ok::<ExpressionView, Seq<char>>(binary(left, second_op, ec)),
            2nat,
        ));
        assert(parse_infix(tokens, 1, ea, 1, 0) == (
            Ok::<ExpressionView, Seq<char>>(binary(left, second_op, ec)),
            4nat,
        ));
    } else {
        // The second operator binds tighter: it takes `b` first.
        let right = binary(eb, second_op, ec);
        assert(parse_primary(tokens, 2, 1) == (Ok::<ExpressionView, Seq<char>>(eb), 1nat));
        assert(parse_infix(tokens, 5, right, first_prec + 1, 1) == (
            Ok::<ExpressionView, Seq<char>>(right),
            0nat,
        ));
        assert(parse_infix(tokens, 3, eb, first_prec + 1, 1) == (
            Ok::<ExpressionView, Seq<char>>(right),
            2nat,
        ));
        assert(parse_expr(tokens, 2, first_prec + 1, 1) == (Ok::<ExpressionView, Seq<char>>(right), 3nat));
        assert(parse_infix(tokens, 5, binary(ea, first_op, right), 1, 0) == (
            Ok::<ExpressionView, Seq<char>>(binary(ea, first_op, right)),
            0nat,
        ));
        assert(parse_infix(tokens, 1, ea, 1, 0) == (
            Ok::<ExpressionView, Seq<char>>(binary(ea, first_op, right)),
            4nat,
        ));
    }
}

/// Grouping. Parentheses around the first operation make it the left operand
/// of the second whatever the precedences, and stay in the tree as a
/// `Grouped` node: `(a OR b) AND c` is `Grouped(a OR b) AND c`.
pub proof fn lemma_group_then_operator(
    a: TokenView,
    first: TokenView,
    b: TokenView,
    second: TokenView,
    c: TokenView,
)
    requires
        is_atom(a),
        is_atom(b),
        is_atom(c),
        binary_operator_of(first) is Some,
        binary_operator_of(second) is Some,
    ensures
        parse_expr(
            seq![
                TokenView::LeftParentheses,
                a,
                first,
                b,
                TokenView::RightParentheses,
                second,
                c,
            ],
            0,
            1,
            0,
        ) == (
            Ok::<ExpressionView, Seq<char>>(
                binary(
                    ExpressionView::Grouped(
                        Box::new(binary(atom_of(a), binary_operator_of(first)->0, atom_of(b))),
                    ),
                    binary_operator_of(second)->0,
                    atom_of(c),
                ),
            ),
            7nat,
        ),
{
    let tokens = seq![
        TokenView::LeftParentheses,
        a,
        first,
        b,
        TokenView::RightParentheses,
        second,
        c,
    ];
    let first_prec = precedence_of(first);
    let second_prec = precedence_of(second);
    let first_op = binary_operator_of(first)->0;
    let second_op = binary_operator_of(second)->0;
    let (ea, eb, ec) = (atom_of(a), atom_of(b), atom_of(c));
    let inner = binary(ea, first_op, eb);
    let group = ExpressionView::Grouped(Box::new(inner));
    assert(first_prec >= 1 && second_prec >= 1);
    // Inside the parentheses.
    lemma_atom_alone(tokens, 3, first_prec + 1, 2);
    assert(parse_primary(tokens, 1, 1) == (Ok::<ExpressionView, Seq<char>>(ea), 1nat));
    assert(parse_infix(tokens, 4, inner, 1, 1) == (Ok::<ExpressionView, Seq<char>>(inner), 0nat));
    assert(parse_infix(tokens, 2, ea, 1, 1) == (Ok::<ExpressionView, Seq<char>>(inner), 2nat));
    assert(parse_expr(tokens, 1, 1, 1) == (Ok::<ExpressionView, Seq<char>>(inner), 3nat));
    assert(token_at_cursor(tokens, 4) == Some(TokenView::RightParentheses));
    assert(parse_primary(tokens, 0, 0) == (Ok::<ExpressionView, Seq<char>>(group), 5nat));
    // Behind them.
    lemma_atom_alone(tokens, 6, second_prec + 1, 1);
    assert(parse_infix(tokens, 7, binary(group, second_op, ec), 1, 0) == (
        Ok::<ExpressionView, Seq<char>>(binary(group, second_op, ec)),
        0nat,
    ));
    assert(parse_infix(tokens, 5, group, 1, 0) == (
        Ok::<ExpressionView, Seq<char>>(binary(group, second_op, ec)),
        2nat,
    ));
}

/// A token sequence whose first token is neither `SELECT` nor `CREATE` fails
/// with `UnknownStartOfStatement`, which describes that token; nothing is
/// consumed.
pub proof fn lemma_unknown_start(tokens: Seq<TokenView>, pos: nat)
    requires
        pos < tokens.len(),
        tokens[pos as int] != TokenView::Keyword(Keyword::Select),
        tokens[pos as int] != TokenView::Keyword(Keyword::Create),
    ensures
        parse_statement_at(tokens, pos) == (
            Err::<StatementView, ParseErrorView>(
                ParseErrorView::UnknownStartOfStatement(token_debug_text(tokens[pos as int])),
            ),
            0nat,
        ),
{
}

/// Whether a token names a column type.
pub open spec fn is_type_keyword(token: TokenView) -> bool {
    ||| token == TokenView::Keyword(Keyword::Int)
    ||| token == TokenView::Keyword(Keyword::Bool)
    ||| token == TokenView::Keyword(Keyword::Varchar)
}

/// In a column list, a token behind a column name that names no type fails
/// the list with a `General` error that describes the token.
pub proof fn lemma_unknown_column_type(
    tokens: Seq<TokenView>,
    pos: nat,
    columns: Seq<crate::ast::TableColumnView>,
)
    requires
        pos + 1 < tokens.len(),
        tokens[pos as int] is Identifier,
        !is_type_keyword(tokens[pos as int + 1]),
    ensures
        column_defs(tokens, pos, columns) == (
            Err::<Seq<crate::ast::TableColumnView>, ParseErrorView>(
                ParseErrorView::General("Unknown type: "@ + token_debug_text(tokens[pos as int + 1])),
            ),
            2nat,
        ),
{
    assert(identifier_at(tokens, pos) is Ok);
    assert(column_type_at(tokens, pos + 1) == Err::<crate::ast::DBType, ParseErrorView>(
        ParseErrorView::General("Unknown type: "@ + token_debug_text(tokens[pos as int + 1])),
    ));
    assert(column_def(tokens, pos).0 is Err);
}

/// A `CREATE TABLE` whose first column has a token that names no type where
/// its type should stand fails with a `General` error that describes the
/// token.
pub proof fn lemma_unknown_type_of_first_column(tokens: Seq<TokenView>)
    requires
        tokens.len() >= 6,
        tokens[0] == TokenView::Keyword(Keyword::Create),
        tokens[1] == TokenView::Keyword(Keyword::Table),
        tokens[2] is Identifier,
        tokens[3] == TokenView::LeftParentheses,
        tokens[4] is Identifier,
        !is_type_keyword(tokens[5]),
    ensures
        parse_statement_at(tokens, 0) == (
            Err::<StatementView, ParseErrorView>(
                ParseErrorView::General("Unknown type: "@ + token_debug_text(tokens[5])),
            ),
            6nat,
        ),
{
    lemma_unknown_column_type(tokens, 4, Seq::empty());
    assert(keyword_mismatch(tokens, 0, Keyword::Create).is_none());
    assert(keyword_mismatch(tokens, 1, Keyword::Table).is_none());
    assert(identifier_at(tokens, 2) is Ok);
    assert(token_mismatch(tokens, 3, TokenView::LeftParentheses).is_none());
    assert(parse_create_table_at(tokens, 0).0 is Err);
}

/// A parsed `SELECT` never holds a selection: `WHERE` is not parsed.
pub proof fn lemma_selection_is_empty(tokens: Seq<TokenView>, pos: nat)
    ensures
        parse_statement_at(tokens, pos).0 matches Ok(StatementView::Select { selection, .. })
            ==> selection is None,
{
    if parse_statement_at(tokens, pos).0 is Ok {
        if token_at_cursor(tokens, pos) == Some(TokenView::Keyword(Keyword::Select)) {
            lemma_select_has_no_selection(tokens, pos);
        }
    }
}

proof fn lemma_select_has_no_selection(tokens: Seq<TokenView>, pos: nat)
    ensures
        parse_select_at(tokens, pos).0 matches Ok(StatementView::Select { selection, .. })
            ==> selection is None,
{
    assert forall|p: nat, columns: Seq<Seq<char>>, table: Seq<char>|
        (#[trigger] order_by_clause(tokens, p, columns, table)).0 is Ok implies (order_by_clause(
        tokens,
        p,
        columns,
        table,
    ).0 matches Ok(StatementView::Select { selection, .. }) && selection is None) by {}
    assert forall|p: nat, columns: Seq<Seq<char>>, table: Seq<char>|
        (#[trigger] select_tail(tokens, p, columns, table)).0 is Ok implies (select_tail(
        tokens,
        p,
        columns,
        table,
    ).0 matches Ok(StatementView::Select { selection, .. }) && selection is None) by {}
}


/// The expression parser stays inside the sequence: it consumes no more
/// tokens than stand at and behind the cursor. A parse that succeeds has
/// consumed at least one token.
pub proof fn lemma_expr_stays_inside(tokens: Seq<TokenView>, pos: nat, min_prec: nat, depth: nat)
    ensures
        parse_expr(tokens, pos, min_prec, depth).1 <= tokens_left(tokens, pos),
        parse_expr(tokens, pos, min_prec, depth).0 is Ok ==> parse_expr(
            tokens,
            pos,
            min_prec,
            depth,
        ).1 >= 1,
    decreases tokens_left(tokens, pos), 2nat,
{
    if depth < crate::pratt::MAX_NESTING_DEPTH {
        lemma_primary_stays_inside(tokens, pos, depth);
        let (first, n) = parse_primary(tokens, pos, depth);
        if let Ok(left) = first {
            lemma_infix_stays_inside(tokens, pos + n, left, min_prec, depth);
        }
    }
}

proof fn lemma_primary_stays_inside(tokens: Seq<TokenView>, pos: nat, depth: nat)
    ensures
        parse_primary(tokens, pos, depth).1 <= tokens_left(tokens, pos),
        parse_primary(tokens, pos, depth).0 is Ok ==> parse_primary(tokens, pos, depth).1 >= 1,
    decreases tokens_left(tokens, pos), 1nat,
{
    if pos < tokens.len() {
        match tokens[pos as int] {
            TokenView::Keyword(Keyword::Not) | TokenView::Minus => {
                lemma_expr_stays_inside(
                    tokens,
                    pos + 1,
                    crate::pratt::UNARY_PRECEDENCE as nat,
                    depth + 1,
                );
            },
            TokenView::LeftParentheses => {
                lemma_expr_stays_inside(tokens, pos + 1, 1, depth + 1);
            },
            _ => {},
        }
    }
}

proof fn lemma_infix_stays_inside(
    tokens: Seq<TokenView>,
    pos: nat,
    left: ExpressionView,
    min_prec: nat,
    depth: nat,
)
    ensures
        parse_infix(tokens, pos, left, min_prec, depth).1 <= tokens_left(tokens, pos),
    decreases tokens_left(tokens, pos), 0nat,
{
    if pos < tokens.len() && precedence_of(tokens[pos as int]) >= min_prec {
        let op = tokens[pos as int];
        lemma_expr_stays_inside(tokens, pos + 1, precedence_of(op) + 1, depth + 1);
        let (operand, n) = parse_expr(tokens, pos + 1, precedence_of(op) + 1, depth + 1);
        if let Ok(right) = operand {
            if let Some(operator) = binary_operator_of(op) {
                lemma_infix_stays_inside(
                    tokens,
                    pos + 1 + n,
                    binary(left, operator, right),
                    min_prec,
                    depth,
                );
            }
        }
    }
}

proof fn lemma_name_lists_stay_inside(tokens: Seq<TokenView>, pos: nat, columns: Seq<Seq<char>>)
    ensures
        select_columns(tokens, pos, columns).1 <= tokens_left(tokens, pos),
        order_columns(tokens, pos, columns).1 <= tokens_left(tokens, pos),
        comma_run(tokens, pos) <= tokens_left(tokens, pos),
    decreases tokens_left(tokens, pos),
{
    if pos < tokens.len() {
        match tokens[pos as int] {
            TokenView::Identifier(name) => {
                lemma_name_lists_stay_inside(tokens, pos + 1, columns.push(name));
            },
            TokenView::Comma => {
                lemma_name_lists_stay_inside(tokens, pos + 1, columns);
            },
            _ => {},
        }
    }
}

proof fn lemma_select_stays_inside(tokens: Seq<TokenView>, pos: nat)
    ensures
        parse_select_at(tokens, pos).1 <= tokens_left(tokens, pos),
{
    assert forall|p: nat, columns: Seq<Seq<char>>, table: Seq<char>| #[trigger]
        order_by_clause(tokens, p, columns, table).1 <= tokens_left(tokens, p) by {
        lemma_name_lists_stay_inside(tokens, p + 2, Seq::empty());
    }
    assert forall|p: nat, columns: Seq<Seq<char>>, table: Seq<char>| #[trigger]
        select_tail(tokens, p, columns, table).1 <= tokens_left(tokens, p) by {
        lemma_name_lists_stay_inside(tokens, p + 1, Seq::empty());
        let commas = comma_run(tokens, p + 1);
        assert(order_by_clause(tokens, p + 2 + commas, columns.push("*"@), table).1
            <= tokens_left(tokens, p + 2 + commas));
    }
    lemma_name_lists_stay_inside(tokens, pos + 1, Seq::empty());
    let (list, n) = select_columns(tokens, pos + 1, Seq::empty());
    if keyword_mismatch(tokens, pos, Keyword::Select).is_none() {
        if let Ok(columns) = list {
            if let Ok(table) = identifier_at(tokens, pos + 1 + n) {
                assert(select_tail(tokens, pos + 2 + n, columns, table).1 <= tokens_left(
                    tokens,
                    pos + 2 + n,
                ));
            }
        }
    }
}

proof fn lemma_check_body_stays_inside(tokens: Seq<TokenView>, pos: nat)
    ensures
        check_body(tokens, pos).1 <= tokens_left(tokens, pos),
        check_body(tokens, pos).0 is Ok ==> check_body(tokens, pos).1 >= 3,
{
    lemma_expr_stays_inside(tokens, pos + 1, 1, 0);
}

proof fn lemma_constraints_stay_inside(
    tokens: Seq<TokenView>,
    pos: nat,
    constraints: Seq<ConstraintView>,
)
    ensures
        constraint_list(tokens, pos, constraints).1 <= tokens_left(tokens, pos),
    decreases tokens_left(tokens, pos),
{
    match token_at_cursor(tokens, pos) {
        Some(TokenView::Keyword(Keyword::Not)) => {
            lemma_constraints_stay_inside(
                tokens,
                pos + 2,
                constraints.push(ConstraintView::NotNull),
            );
        },
        Some(TokenView::Keyword(Keyword::Primary)) => {
            lemma_constraints_stay_inside(
                tokens,
                pos + 2,
                constraints.push(ConstraintView::PrimaryKey),
            );
        },
        Some(TokenView::Keyword(Keyword::Check)) => {
            lemma_check_body_stays_inside(tokens, pos + 1);
            let (body, n) = check_body(tokens, pos + 1);
            if let Ok(e) = body {
                lemma_constraints_stay_inside(
                    tokens,
                    pos + 1 + n,
                    constraints.push(ConstraintView::Check(e)),
                );
            }
        },
        _ => {},
    }
}

proof fn lemma_column_def_stays_inside(tokens: Seq<TokenView>, pos: nat)
    ensures
        column_def(tokens, pos).1 <= tokens_left(tokens, pos),
        column_def(tokens, pos).0 is Ok ==> column_def(tokens, pos).1 >= 2,
{
    lemma_constraints_stay_inside(tokens, pos + 2, Seq::empty());
}

proof fn lemma_column_defs_stay_inside(
    tokens: Seq<TokenView>,
    pos: nat,
    columns: Seq<TableColumnView>,
)
    ensures
        column_defs(tokens, pos, columns).1 <= tokens_left(tokens, pos),
        column_defs(tokens, pos, columns).0 is Ok ==> column_defs(tokens, pos, columns).1 >= 3,
    decreases tokens_left(tokens, pos),
{
    lemma_column_def_stays_inside(tokens, pos);
    let (def, n) = column_def(tokens, pos);
    if let Ok(column) = def {
        if token_at_cursor(tokens, pos + n) == Some(TokenView::Comma) {
            lemma_column_defs_stay_inside(tokens, pos + n + 1, columns.push(column));
        }
    }
}

/// The statement parser stays inside the sequence: it consumes no more tokens
/// than stand at and behind the cursor.
pub proof fn lemma_statement_stays_inside(tokens: Seq<TokenView>, pos: nat)
    ensures
        parse_statement_at(tokens, pos).1 <= tokens_left(tokens, pos),
{
    lemma_select_stays_inside(tokens, pos);
    lemma_column_defs_stay_inside(tokens, pos + 4, Seq::empty());
}

/// Whether two token sequences hold the same first `k` tokens.
pub open spec fn agree_before(a: Seq<TokenView>, b: Seq<TokenView>, k: nat) -> bool {
    &&& k <= a.len()
    &&& k <= b.len()
    &&& forall|i: int| 0 <= i < k ==> a[i] == b[i]
}

/// The expression parser looks at the tokens it consumes and at the one
/// behind them, and at nothing else: two sequences that hold the same tokens
/// that far give the same outcome.
pub proof fn lemma_expr_looks_no_further(
    a: Seq<TokenView>,
    b: Seq<TokenView>,
    k: nat,
    pos: nat,
    min_prec: nat,
    depth: nat,
)
    requires
        agree_before(a, b, k),
        pos + parse_expr(a, pos, min_prec, depth).1 < k,
    ensures
        parse_expr(b, pos, min_prec, depth) == parse_expr(a, pos, min_prec, depth),
    decreases tokens_left(a, pos), 2nat,
{
    if depth < crate::pratt::MAX_NESTING_DEPTH {
        let (first, n) = parse_primary(a, pos, depth);
        lemma_primary_looks_no_further(a, b, k, pos, depth);
        if let Ok(left) = first {
            lemma_infix_looks_no_further(a, b, k, pos + n, left, min_prec, depth);
        }
    }
}

proof fn lemma_primary_looks_no_further(
    a: Seq<TokenView>,
    b: Seq<TokenView>,
    k: nat,
    pos: nat,
    depth: nat,
)
    requires
        agree_before(a, b, k),
        pos + parse_primary(a, pos, depth).1 < k,
    ensures
        parse_primary(b, pos, depth) == parse_primary(a, pos, depth),
    decreases tokens_left(a, pos), 1nat,
{
    assert(b[pos as int] == a[pos as int]);
    match a[pos as int] {
        TokenView::Keyword(Keyword::Not) | TokenView::Minus => {
            lemma_expr_looks_no_further(
                a,
                b,
                k,
                pos + 1,
                crate::pratt::UNARY_PRECEDENCE as nat,
                depth + 1,
            );
        },
        TokenView::LeftParentheses => {
            lemma_expr_looks_no_further(a, b, k, pos + 1, 1, depth + 1);
            let (inner, n) = parse_expr(a, pos + 1, 1, depth + 1);
            if inner is Ok {
                assert(token_at_cursor(b, pos + 1 + n) == token_at_cursor(a, pos + 1 + n));
            }
        },
        _ => {},
    }
}

proof fn lemma_infix_looks_no_further(
    a: Seq<TokenView>,
    b: Seq<TokenView>,
    k: nat,
    pos: nat,
    left: ExpressionView,
    min_prec: nat,
    depth: nat,
)
    requires
        agree_before(a, b, k),
        pos + parse_infix(a, pos, left, min_prec, depth).1 < k,
    ensures
        parse_infix(b, pos, left, min_prec, depth) == parse_infix(a, pos, left, min_prec, depth),
    decreases tokens_left(a, pos), 0nat,
{
    assert(b[pos as int] == a[pos as int]);
    if precedence_of(a[pos as int]) >= min_prec {
        let op = a[pos as int];
        lemma_expr_looks_no_further(a, b, k, pos + 1, precedence_of(op) + 1, depth + 1);
        let (operand, n) = parse_expr(a, pos + 1, precedence_of(op) + 1, depth + 1);
        if let Ok(right) = operand {
            if let Some(operator) = binary_operator_of(op) {
                lemma_infix_looks_no_further(
                    a,
                    b,
                    k,
                    pos + 1 + n,
                    binary(left, operator, right),
                    min_prec,
                    depth,
                );
            }
        }
    }
}

/// Whether a token starts a column constraint.
pub open spec fn starts_constraint(token: TokenView) -> bool {
    ||| token == TokenView::Keyword(Keyword::Not)
    ||| token == TokenView::Keyword(Keyword::Primary)
    ||| token == TokenView::Keyword(Keyword::Check)
}

/// Whether the token at `k`, if there is one, starts no column constraint.
pub open spec fn no_constraint_at(tokens: Seq<TokenView>, k: nat) -> bool {
    k < tokens.len() ==> !starts_constraint(tokens[k as int])
}

proof fn lemma_check_body_looks_no_further(
    a: Seq<TokenView>,
    b: Seq<TokenView>,
    k: nat,
    pos: nat,
)
    requires
        agree_before(a, b, k),
        check_body(a, pos).0 is Ok,
        pos + check_body(a, pos).1 <= k,
    ensures
        check_body(b, pos) == check_body(a, pos),
{
    let (parsed, n) = parse_expr(a, pos + 1, 1, 0);
    assert(b[pos as int] == a[pos as int]);
    lemma_expr_looks_no_further(a, b, k, pos + 1, 1, 0);
    assert(b[pos as int + 1 + n] == a[pos as int + 1 + n]);
}

proof fn lemma_constraints_look_no_further(
    a: Seq<TokenView>,
    b: Seq<TokenView>,
    k: nat,
    pos: nat,
    constraints: Seq<ConstraintView>,
)
    requires
        agree_before(a, b, k),
        no_constraint_at(a, k),
        no_constraint_at(b, k),
        constraint_list(a, pos, constraints).0 is Ok,
        pos + constraint_list(a, pos, constraints).1 <= k,
    ensures
        constraint_list(b, pos, constraints) == constraint_list(a, pos, constraints),
    decreases tokens_left(a, pos),
{
    if pos < k {
        assert(b[pos as int] == a[pos as int]);
        match a[pos as int] {
            TokenView::Keyword(Keyword::Not) => {
                assert(b[pos as int + 1] == a[pos as int + 1]);
                lemma_constraints_look_no_further(
                    a,
                    b,
                    k,
                    pos + 2,
                    constraints.push(ConstraintView::NotNull),
                );
            },
            TokenView::Keyword(Keyword::Primary) => {
                assert(b[pos as int + 1] == a[pos as int + 1]);
                lemma_constraints_look_no_further(
                    a,
                    b,
                    k,
                    pos + 2,
                    constraints.push(ConstraintView::PrimaryKey),
                );
            },
            TokenView::Keyword(Keyword::Check) => {
                let (body, n) = check_body(a, pos + 1);
                lemma_check_body_looks_no_further(a, b, k, pos + 1);
                lemma_constraints_look_no_further(
                    a,
                    b,
                    k,
                    pos + 1 + n,
                    constraints.push(ConstraintView::Check(body->Ok_0)),
                );
            },
            _ => {},
        }
    }
}

proof fn lemma_column_def_looks_no_further(
    a: Seq<TokenView>,
    b: Seq<TokenView>,
    k: nat,
    pos: nat,
)
    requires
        agree_before(a, b, k),
        no_constraint_at(a, k),
        no_constraint_at(b, k),
        column_def(a, pos).0 is Ok,
        pos + column_def(a, pos).1 <= k,
    ensures
        column_def(b, pos) == column_def(a, pos),
{
    assert(b[pos as int] == a[pos as int]);
    assert(b[pos as int + 1] == a[pos as int + 1]);
    lemma_constraints_look_no_further(a, b, k, pos + 2, Seq::empty());
}

/// Whether the input ends at `k`: the sequence is exhausted there, or `Eof`
/// stands there.
pub open spec fn ends_at(tokens: Seq<TokenView>, k: nat) -> bool {
    token_at_cursor(tokens, k).is_none() || token_at_cursor(tokens, k) == Some(TokenView::Eof)
}

/// A column list that is read with success ends with its closing
/// parenthesis.
proof fn lemma_column_defs_end_with_parenthesis(
    tokens: Seq<TokenView>,
    pos: nat,
    columns: Seq<TableColumnView>,
)
    requires
        column_defs(tokens, pos, columns).0 is Ok,
    ensures
        column_defs(tokens, pos, columns).1 >= 3,
        pos + column_defs(tokens, pos, columns).1 <= tokens.len(),
        tokens[pos + column_defs(tokens, pos, columns).1 - 1] == TokenView::RightParentheses,
    decreases tokens_left(tokens, pos),
{
    lemma_column_def_stays_inside(tokens, pos);
    let (def, n) = column_def(tokens, pos);
    if token_at_cursor(tokens, pos + n) == Some(TokenView::Comma) {
        lemma_column_defs_end_with_parenthesis(tokens, pos + n + 1, columns.push(def->Ok_0));
    }
}

proof fn lemma_unclosed_column_list(
    whole: Seq<TokenView>,
    cut: Seq<TokenView>,
    k: nat,
    pos: nat,
    columns: Seq<TableColumnView>,
)
    requires
        agree_before(whole, cut, k),
        k < whole.len(),
        whole[k as int] == TokenView::RightParentheses,
        ends_at(cut, k),
        column_defs(whole, pos, columns).0 is Ok,
        pos + column_defs(whole, pos, columns).1 == k + 1,
    ensures
        column_defs(cut, pos, columns).0 == Err::<Seq<TableColumnView>, ParseErrorView>(
            ParseErrorView::UnexpectedEnd,
        ),
    decreases tokens_left(whole, pos),
{
    let (def, n) = column_def(whole, pos);
    let column = def->Ok_0;
    lemma_column_def_stays_inside(whole, pos);
    match token_at_cursor(whole, pos + n) {
        Some(TokenView::Comma) => {
            lemma_column_defs_stay_inside(whole, pos + n + 1, columns.push(column));
            lemma_column_def_looks_no_further(whole, cut, k, pos);
            assert(cut[pos as int + n] == whole[pos as int + n]);
            lemma_unclosed_column_list(whole, cut, k, pos + n + 1, columns.push(column));
        },
        Some(TokenView::RightParentheses) => {
            lemma_column_def_looks_no_further(whole, cut, k, pos);
        },
        _ => {},
    }
}

/// A `CREATE TABLE` without its closing parenthesis. Take a token sequence
/// that is parsed as a `CREATE TABLE`: `body`, the parenthesis that closes
/// the column list, and `rest`, which may be a semicolon, `Eof`, or both.
/// Without the parenthesis, at the end of the input, the parse fails with
/// `UnexpectedEnd`: on `body` alone, and on `body` with `Eof` and anything
/// behind it.
pub proof fn lemma_missing_closing_parenthesis(
    body: Seq<TokenView>,
    rest: Seq<TokenView>,
    behind: Seq<TokenView>,
)
    requires
        body.len() >= 1,
        body[0] == TokenView::Keyword(Keyword::Create),
        parse_statement_at(body.push(TokenView::RightParentheses) + rest, 0).0 is Ok,
        parse_statement_at(body.push(TokenView::RightParentheses) + rest, 0).1 == body.len() + 1
            + (if token_at_cursor(rest, 0) == Some(TokenView::Semicolon) {
            1nat
        } else {
            0nat
        }),
    ensures
        parse_statement_at(body, 0).0 == Err::<StatementView, ParseErrorView>(
            ParseErrorView::UnexpectedEnd,
        ),
        parse_statement_at(body.push(TokenView::Eof) + behind, 0).0 == Err::<
            StatementView,
            ParseErrorView,
        >(ParseErrorView::UnexpectedEnd),
{
    let whole = body.push(TokenView::RightParentheses) + rest;
    let k = body.len();
    let (defs, n) = column_defs(whole, 4, Seq::empty());
    assert(whole[0] == body[0]);
    assert(whole[k as int] == TokenView::RightParentheses);
    assert(parse_create_table_at(whole, 0).0 is Ok);
    assert(defs is Ok);
    lemma_column_defs_end_with_parenthesis(whole, 4, Seq::empty());
    if rest.len() > 0 {
        assert(whole[k as int + 1] == rest[0]);
    }
    assert(4 + n == k + 1);
    assert forall|i: int| 0 <= i < k implies whole[i] == body[i] by {}
    // The input that ends where the parenthesis should stand.
    assert(agree_before(whole, body, k));
    lemma_unclosed_column_list(whole, body, k, 4, Seq::empty());
    // The input that has `Eof` where the parenthesis should stand.
    let ended = body.push(TokenView::Eof) + behind;
    assert(ended[k as int] == TokenView::Eof);
    assert forall|i: int| 0 <= i < k implies whole[i] == ended[i] by {}
    assert(agree_before(whole, ended, k));
    lemma_unclosed_column_list(whole, ended, k, 4, Seq::empty());
    assert(ended[0] == whole[0] && ended[1] == whole[1] && ended[2] == whole[2] && ended[3]
        == whole[3]);
    assert(body[0] == whole[0] && body[1] == whole[1] && body[2] == whole[2] && body[3]
        == whole[3]);
}

/// A `CHECK` without its closing parenthesis. Where the expression of a
/// `CHECK` is parsed and the input ends behind it, exhausted or at `Eof`, the
/// constraint fails with `UnexpectedEnd`.
pub proof fn lemma_missing_check_parenthesis(tokens: Seq<TokenView>, pos: nat)
    requires
        token_at_cursor(tokens, pos) == Some(TokenView::LeftParentheses),
        parse_expr(tokens, pos + 1, 1, 0).0 is Ok,
        ends_at(tokens, pos + 1 + parse_expr(tokens, pos + 1, 1, 0).1),
    ensures
        check_body(tokens, pos).0 == Err::<ExpressionView, ParseErrorView>(
            ParseErrorView::UnexpectedEnd,
        ),
{
}

/// The token that a binary operator is written with.
pub open spec fn operator_token(operator: BinaryOperator) -> TokenView {
    match operator {
        BinaryOperator::Equals => TokenView::Equal,
        BinaryOperator::NotEquals => TokenView::NotEqual,
        BinaryOperator::GreaterThan => TokenView::GreaterThan,
        BinaryOperator::GreaterThanOrEqual => TokenView::GreaterThanOrEqual,
        BinaryOperator::LessThan => TokenView::LessThan,
        BinaryOperator::LessThanOrEqual => TokenView::LessThanOrEqual,
        BinaryOperator::And => TokenView::Keyword(Keyword::And),
        BinaryOperator::Or => TokenView::Keyword(Keyword::Or),
        BinaryOperator::Add => TokenView::Plus,
        BinaryOperator::Subtract => TokenView::Minus,
        BinaryOperator::Multiply => TokenView::Multiply,
        BinaryOperator::Divide => TokenView::Divide,
    }
}

/// The token that a prefix operator is written with.
pub open spec fn prefix_token(operator: UnaryOperator) -> TokenView {
    match operator {
        UnaryOperator::Not => TokenView::Keyword(Keyword::Not),
        UnaryOperator::Negate => TokenView::Minus,
    }
}

/// The tokens that an expression is written with, from left to right.
pub open spec fn tokens_of(e: ExpressionView) -> Seq<TokenView>
    decreases e,
{
    match e {
        ExpressionView::Identifier(name) => seq![TokenView::Identifier(name)],
        ExpressionView::Number(n) => seq![TokenView::Number(n)],
        ExpressionView::String(s) => seq![TokenView::String(s)],
        ExpressionView::Boolean(b) => seq![
            TokenView::Keyword(
                if b {
                    Keyword::True
                } else {
                    Keyword::False
                },
            ),
        ],
        ExpressionView::Null => seq![TokenView::Keyword(Keyword::Null)],
        ExpressionView::UnaryOperation { operator, operand } => seq![prefix_token(operator)]
            + tokens_of(*operand),
        ExpressionView::BinaryOperation { left_operand, operator, right_operand } => tokens_of(
            *left_operand,
        ) + seq![operator_token(operator)] + tokens_of(*right_operand),
        ExpressionView::Grouped(inner) => seq![TokenView::LeftParentheses] + tokens_of(*inner)
            + seq![TokenView::RightParentheses],
    }
}

/// Parsing loses nothing and adds nothing: the expression that a successful
/// parse returns, written back token by token, is exactly the run of tokens
/// that the parse consumed.
pub proof fn lemma_expr_round_trip(tokens: Seq<TokenView>, pos: nat, min_prec: nat, depth: nat)
    requires
        parse_expr(tokens, pos, min_prec, depth).0 is Ok,
    ensures
        pos + parse_expr(tokens, pos, min_prec, depth).1 <= tokens.len(),
        tokens_of(parse_expr(tokens, pos, min_prec, depth).0->Ok_0) == tokens.subrange(
            pos as int,
            pos as int + parse_expr(tokens, pos, min_prec, depth).1,
        ),
    decreases tokens_left(tokens, pos), 2nat,
{
    let (first, n) = parse_primary(tokens, pos, depth);
    let left = first->Ok_0;
    let (all, m) = parse_infix(tokens, pos + n, left, min_prec, depth);
    lemma_primary_stays_inside(tokens, pos, depth);
    lemma_infix_stays_inside(tokens, pos + n, left, min_prec, depth);
    lemma_primary_round_trip(tokens, pos, depth);
    lemma_infix_round_trip(tokens, pos + n, left, min_prec, depth);
    assert(tokens.subrange(pos as int, pos as int + n) + tokens.subrange(pos as int + n, pos as int + n + m)
        =~= tokens.subrange(pos as int, pos as int + n + m));
}

proof fn lemma_primary_round_trip(tokens: Seq<TokenView>, pos: nat, depth: nat)
    requires
        parse_primary(tokens, pos, depth).0 is Ok,
    ensures
        pos + parse_primary(tokens, pos, depth).1 <= tokens.len(),
        tokens_of(parse_primary(tokens, pos, depth).0->Ok_0) == tokens.subrange(
            pos as int,
            pos as int + parse_primary(tokens, pos, depth).1,
        ),
    decreases tokens_left(tokens, pos), 1nat,
{
    lemma_primary_stays_inside(tokens, pos, depth);
    let n = parse_primary(tokens, pos, depth).1;
    let e = parse_primary(tokens, pos, depth).0->Ok_0;
    let here = tokens[pos as int];
    match here {
        TokenView::Keyword(Keyword::Not) | TokenView::Minus => {
            lemma_expr_round_trip(
                tokens,
                pos + 1,
                crate::pratt::UNARY_PRECEDENCE as nat,
                depth + 1,
            );
            assert(seq![here] + tokens.subrange(pos as int + 1, pos as int + n) =~= tokens.subrange(
                pos as int,
                pos as int + n,
            ));
        },
        TokenView::LeftParentheses => {
            lemma_expr_round_trip(tokens, pos + 1, 1, depth + 1);
            assert(seq![here] + tokens.subrange(pos as int + 1, pos as int + n - 1) + seq![
                TokenView::RightParentheses,
            ] =~= tokens.subrange(pos as int, pos as int + n));
        },
        _ => {
            assert(seq![here] =~= tokens.subrange(pos as int, pos as int + 1));
        },
    }
}

proof fn lemma_infix_round_trip(
    tokens: Seq<TokenView>,
    pos: nat,
    left: ExpressionView,
    min_prec: nat,
    depth: nat,
)
    requires
        parse_infix(tokens, pos, left, min_prec, depth).0 is Ok,
        pos <= tokens.len(),
    ensures
        pos + parse_infix(tokens, pos, left, min_prec, depth).1 <= tokens.len(),
        tokens_of(parse_infix(tokens, pos, left, min_prec, depth).0->Ok_0) == tokens_of(left)
            + tokens.subrange(pos as int, pos as int + parse_infix(tokens, pos, left, min_prec, depth).1),
    decreases tokens_left(tokens, pos), 0nat,
{
    lemma_infix_stays_inside(tokens, pos, left, min_prec, depth);
    if pos < tokens.len() && precedence_of(tokens[pos as int]) >= min_prec {
        let op = tokens[pos as int];
        let (operand, n) = parse_expr(tokens, pos + 1, precedence_of(op) + 1, depth + 1);
        let right = operand->Ok_0;
        let operator = binary_operator_of(op)->0;
        let (all, m) = parse_infix(
            tokens,
            pos + 1 + n,
            binary(left, operator, right),
            min_prec,
            depth,
        );
        lemma_expr_round_trip(tokens, pos + 1, precedence_of(op) + 1, depth + 1);
        lemma_infix_round_trip(tokens, pos + 1 + n, binary(left, operator, right), min_prec, depth);
        assert(operator_token(operator) == op);
        assert(tokens_of(left) + seq![op] + tokens.subrange(pos as int + 1, pos as int + 1 + n)
            + tokens.subrange(pos as int + 1 + n, pos as int + 1 + n + m) =~= tokens_of(left) + tokens.subrange(
            pos as int,
            pos as int + 1 + n + m,
        ));
    } else {
        assert(tokens_of(left) + tokens.subrange(pos as int, pos as int) =~= tokens_of(left));
    }
}

/// The names that the identifiers of a token sequence hold, in order.
pub open spec fn names_in(tokens: Seq<TokenView>) -> Seq<Seq<char>>
    decreases tokens.len(),
{
    if tokens.len() == 0 {
        Seq::empty()
    } else {
        match tokens[0] {
            TokenView::Identifier(name) => seq![name] + names_in(tokens.drop_first()),
            _ => names_in(tokens.drop_first()),
        }
    }
}

/// What a column list is. A `SELECT` list that is read with success ends
/// with `FROM`; before it stand identifiers and commas only; and the columns
/// are the names of those identifiers, in order, behind the names that were
/// there before.
pub proof fn lemma_select_columns_are_the_names(
    tokens: Seq<TokenView>,
    pos: nat,
    columns: Seq<Seq<char>>,
)
    requires
        select_columns(tokens, pos, columns).0 is Ok,
    ensures
        ({
            let (list, n) = select_columns(tokens, pos, columns);
            &&& n >= 1
            &&& pos + n <= tokens.len()
            &&& tokens[pos as int + n - 1] == TokenView::Keyword(Keyword::From)
            &&& forall|i: int|
                pos <= i < pos + n - 1 ==> (#[trigger] tokens[i]) is Identifier || tokens[i]
                    == TokenView::Comma
            &&& list->Ok_0 == columns + names_in(tokens.subrange(pos as int, pos as int + n - 1))
        }),
    decreases tokens_left(tokens, pos),
{
    let n = select_columns(tokens, pos, columns).1;
    let listed = tokens.subrange(pos as int, pos as int + n - 1);
    match tokens[pos as int] {
        TokenView::Identifier(name) => {
            lemma_select_columns_are_the_names(tokens, pos + 1, columns.push(name));
            assert(listed.drop_first() =~= tokens.subrange(pos as int + 1, pos as int + n - 1));
            assert(columns.push(name) + names_in(listed.drop_first()) =~= columns + (seq![name]
                + names_in(listed.drop_first())));
        },
        TokenView::Comma => {
            lemma_select_columns_are_the_names(tokens, pos + 1, columns);
            assert(listed.drop_first() =~= tokens.subrange(pos as int + 1, pos as int + n - 1));
        },
        _ => {
            assert(columns + names_in(listed) =~= columns);
        },
    }
}

/// What an `ORDER BY` list is. A list that is read with success ends with
/// `;` or `Eof`; before it stand identifiers and commas only; and the names
/// are those of the identifiers, in order, behind the names that were there
/// before.
pub proof fn lemma_order_columns_are_the_names(
    tokens: Seq<TokenView>,
    pos: nat,
    columns: Seq<Seq<char>>,
)
    requires
        order_columns(tokens, pos, columns).0 is Ok,
    ensures
        ({
            let (list, n) = order_columns(tokens, pos, columns);
            &&& n >= 1
            &&& pos + n <= tokens.len()
            &&& (tokens[pos as int + n - 1] == TokenView::Semicolon || tokens[pos as int + n - 1]
                == TokenView::Eof)
            &&& forall|i: int|
                pos <= i < pos + n - 1 ==> (#[trigger] tokens[i]) is Identifier || tokens[i]
                    == TokenView::Comma
            &&& list->Ok_0 == columns + names_in(tokens.subrange(pos as int, pos as int + n - 1))
        }),
    decreases tokens_left(tokens, pos),
{
    let n = order_columns(tokens, pos, columns).1;
    let listed = tokens.subrange(pos as int, pos as int + n - 1);
    match tokens[pos as int] {
        TokenView::Identifier(name) => {
            lemma_order_columns_are_the_names(tokens, pos + 1, columns.push(name));
            assert(listed.drop_first() =~= tokens.subrange(pos as int + 1, pos as int + n - 1));
            assert(columns.push(name) + names_in(listed.drop_first()) =~= columns + (seq![name]
                + names_in(listed.drop_first())));
        },
        TokenView::Comma => {
            lemma_order_columns_are_the_names(tokens, pos + 1, columns);
            assert(listed.drop_first() =~= tokens.subrange(pos as int + 1, pos as int + n - 1));
        },
        _ => {
            assert(columns + names_in(listed) =~= columns);
        },
    }
}

} // verus!
