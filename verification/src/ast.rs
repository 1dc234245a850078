//! The abstract syntax tree produced by the parser, and its mathematical
//! view used by the specifications of the type checker and evaluator.

use vstd::prelude::*;

use crate::error::SourcePosition;

verus! {

/// The binary operators, by precedence family.
#[derive(Debug, Clone, Copy, PartialEq, Eq, Structural)]
pub enum BinaryOperator {
    Add,
    Subtract,
    Multiply,
    Divide,
    Remainder,
    LessThan,
    LessThanOrEqual,
    GreaterThan,
    GreaterThanOrEqual,
    Equal,
    NotEqual,
}

/// The three value types of the language.
#[derive(Debug, Clone, Copy, PartialEq, Eq, Structural)]
pub enum Type {
    Int,
    Bool,
    String,
}

/// The name of a type as used in error messages.
pub open spec fn name_of_type(ty: Type) -> Seq<char> {
    match ty {
        Type::Int => "integer"@,
        Type::Bool => "boolean"@,
        Type::String => "string"@,
    }
}

impl Type {
    /// The name of the type as used in error messages.
    pub fn name(self) -> (name: &'static str)
        ensures
            name@ == name_of_type(self),
    {
        match self {
            Type::Int => "integer",
            Type::Bool => "boolean",
            Type::String => "string",
        }
    }
}

/// An expression; every node carries the position of its first token.
#[derive(Debug, PartialEq)]
pub enum Expression {
    Literal { value: u64, position: Option<SourcePosition> },
    StringLiteral { value: String, position: Option<SourcePosition> },
    BoolLiteral { value: bool, position: Option<SourcePosition> },
    Variable { name: String, position: Option<SourcePosition> },
    Call { callee: String, arguments: Vec<Expression>, position: Option<SourcePosition> },
    UnaryNegation { operand: Box<Expression>, position: Option<SourcePosition> },
    UnaryNot { operand: Box<Expression>, position: Option<SourcePosition> },
    Binary {
        operator: BinaryOperator,
        left: Box<Expression>,
        right: Box<Expression>,
        position: Option<SourcePosition>,
    },
    LogicalAnd { left: Box<Expression>, right: Box<Expression>, position: Option<SourcePosition> },
    LogicalOr { left: Box<Expression>, right: Box<Expression>, position: Option<SourcePosition> },
    If {
        condition: Box<Expression>,
        then_branch: Box<Block>,
        else_branch: Box<Block>,
        position: Option<SourcePosition>,
    },
}

/// A `let name = initializer;` declaration.
#[derive(Debug, PartialEq)]
pub struct Declaration {
    pub name: String,
    pub initializer: Expression,
    pub position: Option<SourcePosition>,
}

/// A `{ declaration* expression }` block: an `if`/`else` branch or a
/// function body. Declarations inside a block are scoped to that block.
#[derive(Debug, PartialEq)]
pub struct Block {
    pub declarations: Vec<Declaration>,
    pub expression: Expression,
}

/// A `fn name(parameters) = { ... };` declaration.
#[derive(Debug, PartialEq)]
pub struct FunctionDeclaration {
    pub name: String,
    pub parameters: Vec<String>,
    pub body: Block,
    pub position: Option<SourcePosition>,
}

/// A whole program: functions, then declarations, then the final expression.
#[derive(Debug, PartialEq)]
pub struct Program {
    pub functions: Vec<FunctionDeclaration>,
    pub declarations: Vec<Declaration>,
    pub expression: Expression,
}

// ---------------------------------------------------------------------------
// Views.
// ---------------------------------------------------------------------------

/// The mathematical view of an expression.
pub enum ExprView {
    Literal { value: u64, position: Option<SourcePosition> },
    StringLiteral { value: Seq<char>, position: Option<SourcePosition> },
    BoolLiteral { value: bool, position: Option<SourcePosition> },
    Variable { name: Seq<char>, position: Option<SourcePosition> },
    Call { callee: Seq<char>, arguments: Seq<ExprView>, position: Option<SourcePosition> },
    UnaryNegation { operand: Box<ExprView>, position: Option<SourcePosition> },
    UnaryNot { operand: Box<ExprView>, position: Option<SourcePosition> },
    Binary {
        operator: BinaryOperator,
        left: Box<ExprView>,
        right: Box<ExprView>,
        position: Option<SourcePosition>,
    },
    LogicalAnd { left: Box<ExprView>, right: Box<ExprView>, position: Option<SourcePosition> },
    LogicalOr { left: Box<ExprView>, right: Box<ExprView>, position: Option<SourcePosition> },
    If {
        condition: Box<ExprView>,
        then_branch: Box<BlockView>,
        else_branch: Box<BlockView>,
        position: Option<SourcePosition>,
    },
}

/// The mathematical view of a declaration.
pub struct DeclView {
    pub name: Seq<char>,
    pub initializer: ExprView,
    pub position: Option<SourcePosition>,
}

/// The mathematical view of a block.
pub struct BlockView {
    pub declarations: Seq<DeclView>,
    pub expression: ExprView,
}

/// The mathematical view of a function declaration.
pub struct FunctionView {
    pub name: Seq<char>,
    pub parameters: Seq<Seq<char>>,
    pub body: BlockView,
    pub position: Option<SourcePosition>,
}

/// The mathematical view of a program.
pub struct ProgramView {
    pub functions: Seq<FunctionView>,
    pub declarations: Seq<DeclView>,
    pub expression: ExprView,
}

impl ExprView {
    /// The position of the first token of the expression.
    pub open spec fn position(self) -> Option<SourcePosition> {
        match self {
            ExprView::Literal { position, .. } => position,
            ExprView::StringLiteral { position, .. } => position,
            ExprView::BoolLiteral { position, .. } => position,
            ExprView::Variable { position, .. } => position,
            ExprView::Call { position, .. } => position,
            ExprView::UnaryNegation { position, .. } => position,
            ExprView::UnaryNot { position, .. } => position,
            ExprView::Binary { position, .. } => position,
            ExprView::LogicalAnd { position, .. } => position,
            ExprView::LogicalOr { position, .. } => position,
            ExprView::If { position, .. } => position,
        }
    }
}

impl Expression {
    /// The position of the first token that begins this expression, if known.
    pub fn position(&self) -> (position: Option<SourcePosition>)
        ensures
            position == self@.position(),
    {
        match self {
            Expression::Literal { position, .. } => *position,
            Expression::StringLiteral { position, .. } => *position,
            Expression::BoolLiteral { position, .. } => *position,
            Expression::Variable { position, .. } => *position,
            Expression::Call { position, .. } => *position,
            Expression::UnaryNegation { position, .. } => *position,
            Expression::UnaryNot { position, .. } => *position,
            Expression::Binary { position, .. } => *position,
            Expression::LogicalAnd { position, .. } => *position,
            Expression::LogicalOr { position, .. } => *position,
            Expression::If { position, .. } => *position,
        }
    }
}

pub open spec fn expr_view(e: &Expression) -> ExprView
    decreases e,
{
    match e {
        Expression::Literal { value, position } => ExprView::Literal { value: *value, position: *position },
        Expression::StringLiteral { value, position } => ExprView::StringLiteral { value: value@, position: *position },
        Expression::BoolLiteral { value, position } => ExprView::BoolLiteral { value: *value, position: *position },
        Expression::Variable { name, position } => ExprView::Variable { name: name@, position: *position },
        Expression::Call { callee, arguments, position } => ExprView::Call {
            callee: callee@,
            arguments: exprs_view(arguments@),
            position: *position,
        },
        Expression::UnaryNegation { operand, position } => ExprView::UnaryNegation {
            operand: Box::new(expr_view(operand)),
            position: *position,
        },
        Expression::UnaryNot { operand, position } => ExprView::UnaryNot {
            operand: Box::new(expr_view(operand)),
            position: *position,
        },
        Expression::Binary { operator, left, right, position } => ExprView::Binary {
            operator: *operator,
            left: Box::new(expr_view(left)),
            right: Box::new(expr_view(right)),
            position: *position,
        },
        Expression::LogicalAnd { left, right, position } => ExprView::LogicalAnd {
            left: Box::new(expr_view(left)),
            right: Box::new(expr_view(right)),
            position: *position,
        },
        Expression::LogicalOr { left, right, position } => ExprView::LogicalOr {
            left: Box::new(expr_view(left)),
            right: Box::new(expr_view(right)),
            position: *position,
        },
        Expression::If { condition, then_branch, else_branch, position } => ExprView::If {
            condition: Box::new(expr_view(condition)),
            then_branch: Box::new(block_view(then_branch)),
            else_branch: Box::new(block_view(else_branch)),
            position: *position,
        },
    }
}

pub open spec fn exprs_view(s: Seq<Expression>) -> Seq<ExprView>
    decreases s,
{
    if s.len() == 0 {
        Seq::empty()
    } else {
        exprs_view(s.drop_last()).push(expr_view(&s.last()))
    }
}

pub open spec fn decl_view(d: &Declaration) -> DeclView
    decreases d,
{
    DeclView { name: d.name@, initializer: expr_view(&d.initializer), position: d.position }
}

pub open spec fn decls_view(s: Seq<Declaration>) -> Seq<DeclView>
    decreases s,
{
    if s.len() == 0 {
        Seq::empty()
    } else {
        decls_view(s.drop_last()).push(decl_view(&s.last()))
    }
}

pub open spec fn block_view(b: &Block) -> BlockView
    decreases b,
{
    BlockView { declarations: decls_view(b.declarations@), expression: expr_view(&b.expression) }
}

pub open spec fn strings_view(s: Seq<String>) -> Seq<Seq<char>> {
    s.map_values(|x: String| x@)
}

pub open spec fn function_view(f: &FunctionDeclaration) -> FunctionView {
    FunctionView {
        name: f.name@,
        parameters: strings_view(f.parameters@),
        body: block_view(&f.body),
        position: f.position,
    }
}

pub open spec fn functions_view(s: Seq<FunctionDeclaration>) -> Seq<FunctionView> {
    s.map_values(|f: FunctionDeclaration| function_view(&f))
}

pub open spec fn program_view(p: &Program) -> ProgramView {
    ProgramView {
        functions: functions_view(p.functions@),
        declarations: decls_view(p.declarations@),
        expression: expr_view(&p.expression),
    }
}

impl View for Expression {
    type V = ExprView;

    open spec fn view(&self) -> ExprView {
        expr_view(self)
    }
}

impl View for Declaration {
    type V = DeclView;

    open spec fn view(&self) -> DeclView {
        decl_view(self)
    }
}

impl View for Block {
    type V = BlockView;

    open spec fn view(&self) -> BlockView {
        block_view(self)
    }
}

impl View for FunctionDeclaration {
    type V = FunctionView;

    open spec fn view(&self) -> FunctionView {
        function_view(self)
    }
}

impl View for Program {
    type V = ProgramView;

    open spec fn view(&self) -> ProgramView {
        program_view(self)
    }
}

pub proof fn lemma_exprs_view_push(s: Seq<Expression>, e: Expression)
    ensures
        exprs_view(s.push(e)) == exprs_view(s).push(expr_view(&e)),
{
    assert(s.push(e).drop_last() == s);
}

pub proof fn lemma_decls_view_push(s: Seq<Declaration>, d: Declaration)
    ensures
        decls_view(s.push(d)) == decls_view(s).push(decl_view(&d)),
{
    assert(s.push(d).drop_last() == s);
}

pub proof fn lemma_exprs_view_index(s: Seq<Expression>)
    ensures
        exprs_view(s).len() == s.len(),
        forall|i: int| 0 <= i < s.len() ==> #[trigger] exprs_view(s)[i] == expr_view(&s[i]),
    decreases s.len(),
{
    if s.len() > 0 {
        lemma_exprs_view_index(s.drop_last());
    }
}

pub proof fn lemma_decls_view_index(s: Seq<Declaration>)
    ensures
        decls_view(s).len() == s.len(),
        forall|i: int| 0 <= i < s.len() ==> #[trigger] decls_view(s)[i] == decl_view(&s[i]),
    decreases s.len(),
{
    if s.len() > 0 {
        lemma_decls_view_index(s.drop_last());
    }
}

} // verus!
