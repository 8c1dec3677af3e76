//! The syntax tree that the parsers build, and its mathematical model.
use vstd::prelude::*;

verus! {

/// An operator between two operands.
#[derive(Debug, Clone, Copy, PartialEq, Eq, Structural)]
pub enum BinaryOperator {
    Equals,
    NotEquals,
    GreaterThan,
    GreaterThanOrEqual,
    LessThan,
    LessThanOrEqual,
    And,
    Or,
    Add,
    Subtract,
    Multiply,
    Divide,
}

/// An operator in front of one operand.
#[derive(Debug, Clone, Copy, PartialEq, Eq, Structural)]
pub enum UnaryOperator {
    Not,
    Negate,
}

/// The type of a column.
#[derive(Debug, Clone, Copy, PartialEq, Eq, Structural)]
pub enum DBType {
    Int,
    Bool,
    Varchar,
}

/// An expression tree. `Grouped` keeps the parentheses of the source: it
/// changes nothing in what the expression means, and is kept in its shape.
#[derive(Debug, PartialEq)]
#[allow(inconsistent_fields)]
pub enum Expression {
    Identifier(String),
    Number(u64),
    String(String),
    UnaryOperation { operator: UnaryOperator, operand: Box<Expression> },
    BinaryOperation {
        left_operand: Box<Expression>,
        operator: BinaryOperator,
        right_operand: Box<Expression>,
    },
    Boolean(bool),
    Null,
    Grouped(Box<Expression>),
}

/// What an `Expression` holds, with text as a sequence of characters.
#[allow(inconsistent_fields)]
pub enum ExpressionView {
    Identifier(Seq<char>),
    Number(u64),
    String(Seq<char>),
    UnaryOperation { operator: UnaryOperator, operand: Box<ExpressionView> },
    BinaryOperation {
        left_operand: Box<ExpressionView>,
        operator: BinaryOperator,
        right_operand: Box<ExpressionView>,
    },
    Boolean(bool),
    Null,
    Grouped(Box<ExpressionView>),
}

/// The model of an expression, node by node.
pub open spec fn expression_view(e: Expression) -> ExpressionView
    decreases e,
{
    match e {
        Expression::Identifier(name) => ExpressionView::Identifier(name@),
        Expression::Number(n) => ExpressionView::Number(n),
        Expression::String(s) => ExpressionView::String(s@),
        Expression::UnaryOperation { operator, operand } => ExpressionView::UnaryOperation {
            operator,
            operand: Box::new(expression_view(*operand)),
        },
        Expression::BinaryOperation {
            left_operand,
            operator,
            right_operand,
        } => ExpressionView::BinaryOperation {
            left_operand: Box::new(expression_view(*left_operand)),
            operator,
            right_operand: Box::new(expression_view(*right_operand)),
        },
        Expression::Boolean(b) => ExpressionView::Boolean(b),
        Expression::Null => ExpressionView::Null,
        Expression::Grouped(inner) => ExpressionView::Grouped(Box::new(expression_view(*inner))),
    }
}

impl View for Expression {
    type V = ExpressionView;

    open spec fn view(&self) -> ExpressionView {
        expression_view(*self)
    }
}

impl DeepView for Expression {
    type V = ExpressionView;

    open spec fn deep_view(&self) -> ExpressionView {
        expression_view(*self)
    }
}

/// A copy of an expression, node by node.
pub fn copy_expression(e: &Expression) -> (copy: Expression)
    ensures
        copy@ == e@,
    decreases *e,
{
    match e {
        Expression::Identifier(name) => Expression::Identifier(name.clone()),
        Expression::Number(n) => Expression::Number(*n),
        Expression::String(s) => Expression::String(s.clone()),
        Expression::UnaryOperation { operator, operand } => Expression::UnaryOperation {
            operator: *operator,
            operand: Box::new(copy_expression(operand)),
        },
        Expression::BinaryOperation {
            left_operand,
            operator,
            right_operand,
        } => Expression::BinaryOperation {
            left_operand: Box::new(copy_expression(left_operand)),
            operator: *operator,
            right_operand: Box::new(copy_expression(right_operand)),
        },
        Expression::Boolean(b) => Expression::Boolean(*b),
        Expression::Null => Expression::Null,
        Expression::Grouped(inner) => Expression::Grouped(Box::new(copy_expression(inner))),
    }
}

impl Clone for Expression {
    fn clone(&self) -> (copy: Self)
        ensures
            copy@ == self@,
    {
        copy_expression(self)
    }
}

/// A rule attached to a column.
#[derive(Debug, PartialEq)]
pub enum Constraint {
    NotNull,
    PrimaryKey,
    Check(Expression),
}

/// What a `Constraint` holds.
pub enum ConstraintView {
    NotNull,
    PrimaryKey,
    Check(ExpressionView),
}

impl View for Constraint {
    type V = ConstraintView;

    open spec fn view(&self) -> ConstraintView {
        match self {
            Constraint::NotNull => ConstraintView::NotNull,
            Constraint::PrimaryKey => ConstraintView::PrimaryKey,
            Constraint::Check(e) => ConstraintView::Check(e@),
        }
    }
}

impl DeepView for Constraint {
    type V = ConstraintView;

    open spec fn deep_view(&self) -> ConstraintView {
        self@
    }
}

/// One column of a `CREATE TABLE`.
#[derive(Debug, PartialEq)]
pub struct TableColumn {
    pub name: String,
    pub data_type: DBType,
    pub constraints: Vec<Constraint>,
}

/// What a `TableColumn` holds.
pub struct TableColumnView {
    pub name: Seq<char>,
    pub data_type: DBType,
    pub constraints: Seq<ConstraintView>,
}

impl View for TableColumn {
    type V = TableColumnView;

    open spec fn view(&self) -> TableColumnView {
        TableColumnView {
            name: self.name@,
            data_type: self.data_type,
            constraints: self.constraints.deep_view(),
        }
    }
}

impl DeepView for TableColumn {
    type V = TableColumnView;

    open spec fn deep_view(&self) -> TableColumnView {
        self@
    }
}

/// A parsed statement. `selection` is reserved for a `WHERE` clause; the
/// parser leaves it empty.
#[derive(Debug, PartialEq)]
#[allow(inconsistent_fields)]
pub enum Statement {
    Select {
        columns: Vec<String>,
        table: String,
        selection: Option<Expression>,
        order_by: Option<Vec<String>>,
    },
    CreateTable { table_name: String, columns: Vec<TableColumn> },
}

/// What a `Statement` holds.
#[allow(inconsistent_fields)]
pub enum StatementView {
    Select {
        columns: Seq<Seq<char>>,
        table: Seq<char>,
        selection: Option<ExpressionView>,
        order_by: Option<Seq<Seq<char>>>,
    },
    CreateTable { table_name: Seq<char>, columns: Seq<TableColumnView> },
}

impl View for Statement {
    type V = StatementView;

    open spec fn view(&self) -> StatementView {
        match self {
            Statement::Select { columns, table, selection, order_by } => StatementView::Select {
                columns: columns.deep_view(),
                table: table@,
                selection: match selection {
                    Some(e) => Some(e@),
                    None => None,
                },
                order_by: match order_by {
                    Some(names) => Some(names.deep_view()),
                    None => None,
                },
            },
            Statement::CreateTable { table_name, columns } => StatementView::CreateTable {
                table_name: table_name@,
                columns: columns.deep_view(),
            },
        }
    }
}


impl Clone for Constraint {
    fn clone(&self) -> (copy: Self)
        ensures
            copy@ == self@,
    {
        match self {
            Constraint::NotNull => Constraint::NotNull,
            Constraint::PrimaryKey => Constraint::PrimaryKey,
            Constraint::Check(e) => Constraint::Check(e.clone()),
        }
    }
}

fn copy_constraints(constraints: &Vec<Constraint>) -> (copy: Vec<Constraint>)
    ensures
        copy.deep_view() == constraints.deep_view(),
{
    let mut copy: Vec<Constraint> = Vec::new();
    let mut i: usize = 0;
    while i < constraints.len()
        invariant
            i <= constraints.len(),
            copy.len() == i,
            forall|j: int| 0 <= j < i ==> copy[j]@ == constraints[j]@,
        decreases constraints.len() - i,
    {
        copy.push(constraints[i].clone());
        i += 1;
    }
    assert(copy.deep_view() =~= constraints.deep_view());
    copy
}

impl Clone for TableColumn {
    fn clone(&self) -> (copy: Self)
        ensures
            copy@ == self@,
    {
        TableColumn {
            name: self.name.clone(),
            data_type: self.data_type,
            constraints: copy_constraints(&self.constraints),
        }
    }
}

fn copy_columns(columns: &Vec<TableColumn>) -> (copy: Vec<TableColumn>)
    ensures
        copy.deep_view() == columns.deep_view(),
{
    let mut copy: Vec<TableColumn> = Vec::new();
    let mut i: usize = 0;
    while i < columns.len()
        invariant
            i <= columns.len(),
            copy.len() == i,
            forall|j: int| 0 <= j < i ==> copy[j]@ == columns[j]@,
        decreases columns.len() - i,
    {
        copy.push(columns[i].clone());
        i += 1;
    }
    assert(copy.deep_view() =~= columns.deep_view());
    copy
}

fn copy_names(names: &Vec<String>) -> (copy: Vec<String>)
    ensures
        copy.deep_view() == names.deep_view(),
{
    let mut copy: Vec<String> = Vec::new();
    let mut i: usize = 0;
    while i < names.len()
        invariant
            i <= names.len(),
            copy.len() == i,
            forall|j: int| 0 <= j < i ==> copy[j]@ == names[j]@,
        decreases names.len() - i,
    {
        copy.push(names[i].clone());
        i += 1;
    }
    assert(copy.deep_view() =~= names.deep_view());
    copy
}

impl Clone for Statement {
    fn clone(&self) -> (copy: Self)
        ensures
            copy@ == self@,
    {
        match self {
            Statement::Select { columns, table, selection, order_by } => Statement::Select {
                columns: copy_names(columns),
                table: table.clone(),
                selection: match selection {
                    Some(e) => Some(e.clone()),
                    None => None,
                },
                order_by: match order_by {
                    Some(names) => Some(copy_names(names)),
                    None => None,
                },
            },
            Statement::CreateTable { table_name, columns } => Statement::CreateTable {
                table_name: table_name.clone(),
                columns: copy_columns(columns),
            },
        }
    }
}

} // verus!
