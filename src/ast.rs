use vstd::prelude::*;
use crate::token::Token;

verus! {

broadcast use vstd::std_specs::vec::group_vec_axioms;

// ---------------------------------------------------------------------------
// The mathematical model of the syntax tree: what a tree means, without tokens.

/// An expression of the language.
pub enum ExprModel {
    Ident(Seq<char>),
    Int(i64),
    Bool(bool),
    Prefix(Seq<char>, Box<ExprModel>),
    Infix(Box<ExprModel>, Seq<char>, Box<ExprModel>),
    Block(Seq<NodeModel>),
    If(Box<ExprModel>, Seq<NodeModel>, Option<Seq<NodeModel>>),
    Func(Seq<Seq<char>>, Seq<NodeModel>),
    Call(Box<ExprModel>, Seq<ExprModel>),
}

/// A statement of the language.
pub enum StmtModel {
    Let(Seq<char>, ExprModel),
    Return(ExprModel),
    Expr(ExprModel),
}

/// An element of a statement list.
pub enum NodeModel {
    Stmt(StmtModel),
    Expr(ExprModel),
}

// ---------------------------------------------------------------------------
// The syntax tree that the parser builds.

#[derive(Debug)]
pub enum Node {
    Statement(Statement),
    Expression(Expression),
}

#[derive(Debug)]
pub enum Statement {
    LetStatement(LetStatement),
    ReturnStatement(ReturnStatement),
    ExpressionStatement(ExpressionStatement),
}

#[derive(Debug)]
pub enum Expression {
    Identifier(Identifier),
    IntegerLiteral(IntegerLiteral),
    PrefixExpression(PrefixExpression),
    InfixExpression(InfixExpression),
    BooleanExpression(BooleanExpression),
    BlockStatement(BlockStatement),
    IfExpression(IfExpression),
    FunctionLiteral(FunctionLiteral),
    CallExpression(CallExpression),
}

#[derive(Debug)]
pub struct LetStatement {
    pub token: Token,
    pub name: Identifier,
    pub value: Expression,
}

#[derive(Debug)]
pub struct ReturnStatement {
    pub token: Token,
    pub return_value: Expression,
}

#[derive(Debug)]
pub struct ExpressionStatement {
    pub token: Token,
    pub expression: Box<Expression>,
}

#[derive(Debug)]
pub struct BlockStatement {
    pub token: Token,
    pub statements: Vec<Node>,
}

#[derive(Debug)]
pub struct Identifier {
    pub token: Token,
    pub value: String,
}

#[derive(Debug)]
pub struct IntegerLiteral {
    pub token: Token,
    pub value: i64,
}

#[derive(Debug)]
pub struct BooleanExpression {
    pub token: Token,
    pub value: bool,
}

#[derive(Debug)]
pub struct PrefixExpression {
    pub token: Token,
    pub operator: String,
    pub right: Box<Expression>,
}

#[derive(Debug)]
pub struct InfixExpression {
    pub token: Token,
    pub left: Box<Expression>,
    pub operator: String,
    pub right: Box<Expression>,
}

#[derive(Debug)]
pub struct IfExpression {
    pub token: Token,
    pub condition: Box<Expression>,
    pub consequence: BlockStatement,
    pub alternative: Option<BlockStatement>,
}

#[derive(Debug)]
pub struct FunctionLiteral {
    pub token: Token,
    pub parameters: Vec<Identifier>,
    pub body: BlockStatement,
}

#[derive(Debug)]
pub struct CallExpression {
    pub token: Token,
    pub function: Box<Expression>,
    pub arguments: Vec<Expression>,
}

/// The root of a parse: the top-level statements in order.
#[derive(Debug)]
pub struct Program {
    pub statements: Vec<Node>,
}

// ---------------------------------------------------------------------------
// From the tree to its model.

pub open spec fn nodes_model(v: Seq<Node>) -> Seq<NodeModel>
    decreases v,
{
    if v.len() == 0 {
        Seq::empty()
    } else {
        nodes_model(v.subrange(0, v.len() - 1)).push(v[v.len() - 1].model())
    }
}

pub open spec fn exprs_model(v: Seq<Expression>) -> Seq<ExprModel>
    decreases v,
{
    if v.len() == 0 {
        Seq::empty()
    } else {
        exprs_model(v.subrange(0, v.len() - 1)).push(v[v.len() - 1].model())
    }
}

pub open spec fn names_model(v: Seq<Identifier>) -> Seq<Seq<char>>
    decreases v.len(),
{
    if v.len() == 0 {
        Seq::empty()
    } else {
        names_model(v.subrange(0, v.len() - 1)).push(v[v.len() - 1].value@)
    }
}

impl Node {
    pub open spec fn model(&self) -> NodeModel
        decreases self,
    {
        match self {
            Node::Statement(s) => NodeModel::Stmt(s.model()),
            Node::Expression(e) => NodeModel::Expr(e.model()),
        }
    }
}

impl Statement {
    pub open spec fn model(&self) -> StmtModel
        decreases self,
    {
        match self {
            Statement::LetStatement(s) => StmtModel::Let(s.name.value@, s.value.model()),
            Statement::ReturnStatement(s) => StmtModel::Return(s.return_value.model()),
            Statement::ExpressionStatement(s) => StmtModel::Expr(s.expression.model()),
        }
    }
}

impl BlockStatement {
    pub open spec fn model(&self) -> Seq<NodeModel>
        decreases self,
    {
        nodes_model(self.statements@)
    }
}

impl Identifier {
    pub open spec fn model(&self) -> ExprModel {
        ExprModel::Ident(self.value@)
    }
}

impl PrefixExpression {
    pub open spec fn model(&self) -> ExprModel
        decreases self,
    {
        ExprModel::Prefix(self.operator@, Box::new(self.right.model()))
    }
}

impl InfixExpression {
    pub open spec fn model(&self) -> ExprModel
        decreases self,
    {
        ExprModel::Infix(Box::new(self.left.model()), self.operator@, Box::new(self.right.model()))
    }
}

impl IfExpression {
    pub open spec fn model(&self) -> ExprModel
        decreases self,
    {
        ExprModel::If(
            Box::new(self.condition.model()),
            nodes_model(self.consequence.statements@),
            match self.alternative {
                Some(b) => Some(nodes_model(b.statements@)),
                None => None,
            },
        )
    }
}

impl FunctionLiteral {
    pub open spec fn model(&self) -> ExprModel
        decreases self,
    {
        ExprModel::Func(names_model(self.parameters@), nodes_model(self.body.statements@))
    }
}

impl CallExpression {
    pub open spec fn model(&self) -> ExprModel
        decreases self,
    {
        ExprModel::Call(Box::new(self.function.model()), exprs_model(self.arguments@))
    }
}

impl Expression {
    pub open spec fn model(&self) -> ExprModel
        decreases self,
    {
        match self {
            Expression::Identifier(e) => e.model(),
            Expression::IntegerLiteral(e) => ExprModel::Int(e.value),
            Expression::BooleanExpression(e) => ExprModel::Bool(e.value),
            Expression::PrefixExpression(e) => e.model(),
            Expression::InfixExpression(e) => e.model(),
            Expression::BlockStatement(b) => ExprModel::Block(nodes_model(b.statements@)),
            Expression::IfExpression(e) => e.model(),
            Expression::FunctionLiteral(f) => f.model(),
            Expression::CallExpression(c) => c.model(),
        }
    }
}

impl Program {
    pub open spec fn model(&self) -> Seq<NodeModel> {
        nodes_model(self.statements@)
    }
}

// ---------------------------------------------------------------------------
// Access to the parts of a tree.

impl Node {
    pub fn get_node(&self) -> (r: &Node)
        ensures
            *r == *self,
    {
        self
    }

    /// The token the node starts with.
    pub fn get_token(&self) -> (r: &Token)
        ensures
            match self {
                Node::Statement(s) => *r == s.token_spec(),
                Node::Expression(e) => *r == e.token_spec(),
            },
    {
        match self {
            Node::Statement(stmt) => stmt.token(),
            Node::Expression(expr) => expr.token(),
        }
    }

    pub fn get_expression(&self) -> (r: &Expression)
        requires
            self is Expression,
        ensures
            *self == Node::Expression(*r),
    {
        match self {
            Node::Expression(expr) => expr,
            Node::Statement(_) => vstd::pervasive::unreached(),
        }
    }

    pub fn get_statement(&self) -> (r: &Statement)
        requires
            self is Statement,
        ensures
            *self == Node::Statement(*r),
    {
        match self {
            Node::Statement(stmt) => stmt,
            Node::Expression(_) => vstd::pervasive::unreached(),
        }
    }

    pub fn get_statement_expr(&self) -> (r: &ExpressionStatement)
        requires
            self is Statement && self->Statement_0 is ExpressionStatement,
        ensures
            *self == Node::Statement(Statement::ExpressionStatement(*r)),
    {
        match self {
            Node::Statement(Statement::ExpressionStatement(expr)) => expr,
            _ => vstd::pervasive::unreached(),
        }
    }
}

impl Statement {
    pub open spec fn token_spec(&self) -> Token {
        match self {
            Statement::LetStatement(stmt) => stmt.token,
            Statement::ReturnStatement(stmt) => stmt.token,
            Statement::ExpressionStatement(stmt) => stmt.token,
        }
    }

    fn token(&self) -> (r: &Token)
        ensures
            *r == self.token_spec(),
    {
        match self {
            Statement::LetStatement(stmt) => &stmt.token,
            Statement::ReturnStatement(stmt) => &stmt.token,
            Statement::ExpressionStatement(stmt) => &stmt.token,
        }
    }

    pub fn get_let_stmt(&self) -> (r: &LetStatement)
        requires
            self is LetStatement,
        ensures
            *self == Statement::LetStatement(*r),
    {
        match self {
            Statement::LetStatement(stmt) => stmt,
            _ => vstd::pervasive::unreached(),
        }
    }

    pub fn get_return_stmt(&self) -> (r: &ReturnStatement)
        requires
            self is ReturnStatement,
        ensures
            *self == Statement::ReturnStatement(*r),
    {
        match self {
            Statement::ReturnStatement(stmt) => stmt,
            _ => vstd::pervasive::unreached(),
        }
    }
}

impl Expression {
    pub open spec fn token_spec(&self) -> Token {
        match self {
            Expression::Identifier(expr) => expr.token,
            Expression::IntegerLiteral(expr) => expr.token,
            Expression::PrefixExpression(expr) => expr.token,
            Expression::InfixExpression(expr) => expr.token,
            Expression::BooleanExpression(expr) => expr.token,
            Expression::IfExpression(expr) => expr.token,
            Expression::BlockStatement(expr) => expr.token,
            Expression::FunctionLiteral(expr) => expr.token,
            Expression::CallExpression(expr) => expr.token,
        }
    }

    fn token(&self) -> (r: &Token)
        ensures
            *r == self.token_spec(),
    {
        match self {
            Expression::Identifier(expr) => &expr.token,
            Expression::IntegerLiteral(expr) => &expr.token,
            Expression::PrefixExpression(expr) => &expr.token,
            Expression::InfixExpression(expr) => &expr.token,
            Expression::BooleanExpression(expr) => &expr.token,
            Expression::IfExpression(expr) => &expr.token,
            Expression::BlockStatement(expr) => &expr.token,
            Expression::FunctionLiteral(expr) => &expr.token,
            Expression::CallExpression(expr) => &expr.token,
        }
    }

    pub fn get_identifer(&self) -> (r: &Identifier)
        requires
            self is Identifier,
        ensures
            *self == Expression::Identifier(*r),
    {
        match self {
            Expression::Identifier(expr) => expr,
            _ => vstd::pervasive::unreached(),
        }
    }

    pub fn get_integer_literal(&self) -> (r: &IntegerLiteral)
        requires
            self is IntegerLiteral,
        ensures
            *self == Expression::IntegerLiteral(*r),
    {
        match self {
            Expression::IntegerLiteral(expr) => expr,
            _ => vstd::pervasive::unreached(),
        }
    }

    pub fn get_boolean_expression(&self) -> (r: &BooleanExpression)
        requires
            self is BooleanExpression,
        ensures
            *self == Expression::BooleanExpression(*r),
    {
        match self {
            Expression::BooleanExpression(expr) => expr,
            _ => vstd::pervasive::unreached(),
        }
    }

    pub fn get_prefix_expr(&self) -> (r: &PrefixExpression)
        requires
            self is PrefixExpression,
        ensures
            *self == Expression::PrefixExpression(*r),
    {
        match self {
            Expression::PrefixExpression(expr) => expr,
            _ => vstd::pervasive::unreached(),
        }
    }

    pub fn get_infix_expr(&self) -> (r: &InfixExpression)
        requires
            self is InfixExpression,
        ensures
            *self == Expression::InfixExpression(*r),
    {
        match self {
            Expression::InfixExpression(expr) => expr,
            _ => vstd::pervasive::unreached(),
        }
    }

    pub fn get_block_statement(&self) -> (r: &BlockStatement)
        requires
            self is BlockStatement,
        ensures
            *self == Expression::BlockStatement(*r),
    {
        match self {
            Expression::BlockStatement(expr) => expr,
            _ => vstd::pervasive::unreached(),
        }
    }

    pub fn get_if_expr(&self) -> (r: &IfExpression)
        requires
            self is IfExpression,
        ensures
            *self == Expression::IfExpression(*r),
    {
        match self {
            Expression::IfExpression(expr) => expr,
            _ => vstd::pervasive::unreached(),
        }
    }

    pub fn get_function_expr(&self) -> (r: &FunctionLiteral)
        requires
            self is FunctionLiteral,
        ensures
            *self == Expression::FunctionLiteral(*r),
    {
        match self {
            Expression::FunctionLiteral(expr) => expr,
            _ => vstd::pervasive::unreached(),
        }
    }

    pub fn get_call_expr(&self) -> (r: &CallExpression)
        requires
            self is CallExpression,
        ensures
            *self == Expression::CallExpression(*r),
    {
        match self {
            Expression::CallExpression(expr) => expr,
            _ => vstd::pervasive::unreached(),
        }
    }

    pub fn is_integer_literal(&self) -> (r: bool)
        ensures
            r == self is IntegerLiteral,
    {
        match self {
            Expression::IntegerLiteral(_) => true,
            _ => false,
        }
    }

    pub fn is_identifier(&self) -> (r: bool)
        ensures
            r == self is Identifier,
    {
        match self {
            Expression::Identifier(_) => true,
            _ => false,
        }
    }
}

} // verus!
