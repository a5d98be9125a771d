use vstd::prelude::*;
use crate::ast::{
    BlockStatement, CallExpression, ExprModel, Expression, ExpressionStatement, FunctionLiteral,
    Identifier, IfExpression, InfixExpression, LetStatement, Node, NodeModel, PrefixExpression,
    Program, ReturnStatement, Statement, StmtModel, BooleanExpression, exprs_model, names_model,
    nodes_model,
};
use crate::text::{decimal, decimal_string, owned, push_str};

verus! {

broadcast use vstd::std_specs::vec::group_vec_axioms;

// ---------------------------------------------------------------------------
// The source-like text of a tree: every prefix and infix expression in parentheses.

pub open spec fn bool_text(b: bool) -> Seq<char> {
    if b {
        "true"@
    } else {
        "false"@
    }
}

/// Names separated by a comma and a blank.
pub open spec fn names_text(s: Seq<Seq<char>>) -> Seq<char>
    decreases s.len(),
{
    if s.len() == 0 {
        Seq::empty()
    } else if s.len() == 1 {
        s[0]
    } else {
        names_text(s.subrange(0, s.len() - 1)) + ", "@ + s[s.len() - 1]
    }
}

pub open spec fn expr_text(e: ExprModel) -> Seq<char>
    decreases e,
{
    match e {
        ExprModel::Ident(n) => n,
        ExprModel::Int(v) => decimal(v as int),
        ExprModel::Bool(b) => bool_text(b),
        ExprModel::Prefix(op, r) => "("@ + op + expr_text(*r) + ")"@,
        ExprModel::Infix(l, op, r) => "("@ + expr_text(*l) + " "@ + op + " "@ + expr_text(*r) + ")"@,
        ExprModel::Block(items) => items_text(items),
        ExprModel::If(c, t, a) => "if "@ + expr_text(*c) + " { "@ + items_text(t) + " }"@ + match a {
            Some(a) => " else { "@ + items_text(a) + " }"@,
            None => Seq::empty(),
        },
        ExprModel::Func(ps, body) => "fn ( "@ + names_text(ps) + " ) { "@ + items_text(body) + " }"@,
        ExprModel::Call(f, args) => expr_text(*f) + "("@ + args_text(args) + ")"@,
    }
}

/// Expressions separated by a comma and a blank.
pub open spec fn args_text(s: Seq<ExprModel>) -> Seq<char>
    decreases s,
{
    if s.len() == 0 {
        Seq::empty()
    } else if s.len() == 1 {
        expr_text(s[0])
    } else {
        args_text(s.subrange(0, s.len() - 1)) + ", "@ + expr_text(s[s.len() - 1])
    }
}

pub open spec fn stmt_text(s: StmtModel) -> Seq<char>
    decreases s,
{
    match s {
        StmtModel::Let(n, v) => n + " = "@ + expr_text(v) + ";"@,
        StmtModel::Return(v) => "return "@ + expr_text(v) + ";"@,
        StmtModel::Expr(e) => expr_text(e),
    }
}

pub open spec fn node_text(n: NodeModel) -> Seq<char>
    decreases n,
{
    match n {
        NodeModel::Stmt(s) => stmt_text(s),
        NodeModel::Expr(e) => expr_text(e),
    }
}

/// The texts of the elements, one after the other.
pub open spec fn items_text(s: Seq<NodeModel>) -> Seq<char>
    decreases s,
{
    if s.len() == 0 {
        Seq::empty()
    } else {
        items_text(s.subrange(0, s.len() - 1)) + node_text(s[s.len() - 1])
    }
}

// ---------------------------------------------------------------------------
// Facts on prefixes of sequences.

pub proof fn lemma_nodes_model_prefix(v: Seq<Node>, i: int)
    requires
        0 <= i < v.len(),
    ensures
        nodes_model(v.subrange(0, i + 1)) == nodes_model(v.subrange(0, i)).push(v[i].model()),
{
    assert(v.subrange(0, i + 1).subrange(0, i) =~= v.subrange(0, i));
}

pub proof fn lemma_exprs_model_prefix(v: Seq<Expression>, i: int)
    requires
        0 <= i < v.len(),
    ensures
        exprs_model(v.subrange(0, i + 1)) == exprs_model(v.subrange(0, i)).push(v[i].model()),
{
    assert(v.subrange(0, i + 1).subrange(0, i) =~= v.subrange(0, i));
}

pub proof fn lemma_names_model_prefix(v: Seq<Identifier>, i: int)
    requires
        0 <= i < v.len(),
    ensures
        names_model(v.subrange(0, i + 1)) == names_model(v.subrange(0, i)).push(v[i].value@),
{
    assert(v.subrange(0, i + 1).subrange(0, i) =~= v.subrange(0, i));
}

pub proof fn lemma_nodes_model_len(v: Seq<Node>)
    ensures
        nodes_model(v).len() == v.len(),
        forall|i: int| 0 <= i < v.len() ==> #[trigger] nodes_model(v)[i] == v[i].model(),
    decreases v.len(),
{
    if v.len() > 0 {
        lemma_nodes_model_len(v.subrange(0, v.len() - 1));
    }
}

pub proof fn lemma_exprs_model_len(v: Seq<Expression>)
    ensures
        exprs_model(v).len() == v.len(),
        forall|i: int| 0 <= i < v.len() ==> #[trigger] exprs_model(v)[i] == v[i].model(),
    decreases v.len(),
{
    if v.len() > 0 {
        lemma_exprs_model_len(v.subrange(0, v.len() - 1));
    }
}

pub proof fn lemma_names_model_len(v: Seq<Identifier>)
    ensures
        names_model(v).len() == v.len(),
        forall|i: int| 0 <= i < v.len() ==> #[trigger] names_model(v)[i] == v[i].value@,
    decreases v.len(),
{
    if v.len() > 0 {
        lemma_names_model_len(v.subrange(0, v.len() - 1));
    }
}

proof fn lemma_items_text_push(x: Seq<NodeModel>, y: NodeModel)
    ensures
        items_text(x.push(y)) == items_text(x) + node_text(y),
{
    assert(x.push(y).subrange(0, x.len() as int) =~= x);
}

proof fn lemma_args_text_push(x: Seq<ExprModel>, y: ExprModel)
    ensures
        args_text(x.push(y)) == if x.len() == 0 {
            expr_text(y)
        } else {
            args_text(x) + ", "@ + expr_text(y)
        },
{
    assert(x.push(y).subrange(0, x.len() as int) =~= x);
}

proof fn lemma_names_text_push(x: Seq<Seq<char>>, y: Seq<char>)
    ensures
        names_text(x.push(y)) == if x.len() == 0 {
            y
        } else {
            names_text(x) + ", "@ + y
        },
{
    assert(x.push(y).subrange(0, x.len() as int) =~= x);
}

// ---------------------------------------------------------------------------
// Rendering.

fn nodes_string(v: &Vec<Node>) -> (r: String)
    ensures
        r@ == items_text(nodes_model(v@)),
    decreases v, 0int,
{
    let mut s = String::new();
    let mut i: usize = 0;
    assert(v@.subrange(0, 0) =~= Seq::<Node>::empty());
    while i < v.len()
        invariant
            i <= v@.len(),
            s@ == items_text(nodes_model(v@.subrange(0, i as int))),
        decreases v.len() - i,
    {
        let t = v[i].string();
        proof {
            lemma_nodes_model_prefix(v@, i as int);
            lemma_items_text_push(nodes_model(v@.subrange(0, i as int)), v@[i as int].model());
        }
        push_str(&mut s, t.as_str());
        i = i + 1;
    }
    assert(v@.subrange(0, v@.len() as int) =~= v@);
    s
}

impl Node {
    pub fn string(&self) -> (r: String)
        ensures
            r@ == node_text(self.model()),
        decreases self, 0int,
    {
        match self {
            Node::Statement(s) => s.string(),
            Node::Expression(e) => e.string(),
        }
    }
}

impl Statement {
    pub fn string(&self) -> (r: String)
        ensures
            r@ == stmt_text(self.model()),
        decreases self, 0int,
    {
        match self {
            Statement::LetStatement(s) => s.string(),
            Statement::ReturnStatement(s) => s.string(),
            Statement::ExpressionStatement(s) => s.string(),
        }
    }
}

impl LetStatement {
    pub fn string(&self) -> (r: String)
        ensures
            r@ == stmt_text(StmtModel::Let(self.name.value@, self.value.model())),
        decreases self, 0int,
    {
        let mut s = owned(self.name.value.as_str());
        push_str(&mut s, " = ");
        let v = self.value.string();
        push_str(&mut s, v.as_str());
        push_str(&mut s, ";");
        s
    }
}

impl ReturnStatement {
    pub fn string(&self) -> (r: String)
        ensures
            r@ == stmt_text(StmtModel::Return(self.return_value.model())),
        decreases self, 0int,
    {
        let mut s = owned("return ");
        let v = self.return_value.string();
        push_str(&mut s, v.as_str());
        push_str(&mut s, ";");
        s
    }
}

impl ExpressionStatement {
    pub fn string(&self) -> (r: String)
        ensures
            r@ == stmt_text(StmtModel::Expr(self.expression.model())),
        decreases self, 0int,
    {
        self.expression.string()
    }
}

impl BlockStatement {
    pub fn string(&self) -> (r: String)
        ensures
            r@ == items_text(self.model()),
        decreases self, 0int,
    {
        nodes_string(&self.statements)
    }
}

impl Identifier {
    pub fn string(&self) -> (r: String)
        ensures
            r@ == self.value@,
    {
        owned(self.value.as_str())
    }
}

impl BooleanExpression {
    fn string(&self) -> (r: String)
        ensures
            r@ == bool_text(self.value),
    {
        if self.value {
            owned("true")
        } else {
            owned("false")
        }
    }
}

impl PrefixExpression {
    pub fn string(&self) -> (r: String)
        ensures
            r@ == expr_text(self.model()),
        decreases self, 0int,
    {
        let mut s = owned("(");
        push_str(&mut s, self.operator.as_str());
        let t = self.right.string();
        push_str(&mut s, t.as_str());
        push_str(&mut s, ")");
        s
    }
}

impl InfixExpression {
    /// The text of the expression, fully parenthesised.
    pub fn precedence(&self) -> (r: String)
        ensures
            r@ == expr_text(self.model()),
        decreases self, 0int,
    {
        let mut s = owned("(");
        let l = self.left.string();
        push_str(&mut s, l.as_str());
        push_str(&mut s, " ");
        push_str(&mut s, self.operator.as_str());
        push_str(&mut s, " ");
        let r = self.right.string();
        push_str(&mut s, r.as_str());
        push_str(&mut s, ")");
        s
    }
}

impl IfExpression {
    pub fn string(&self) -> (r: String)
        ensures
            r@ == expr_text(self.model()),
        decreases self, 0int,
    {
        let mut s = owned("if ");
        let c = self.condition.string();
        push_str(&mut s, c.as_str());
        push_str(&mut s, " { ");
        let t = self.consequence.string();
        push_str(&mut s, t.as_str());
        push_str(&mut s, " }");
        match &self.alternative {
            Some(b) => {
                push_str(&mut s, " else { ");
                let a = b.string();
                push_str(&mut s, a.as_str());
                push_str(&mut s, " }");
            },
            None => {
                assert(s@ + Seq::<char>::empty() =~= s@);
            },
        }
        s
    }
}

impl FunctionLiteral {
    pub fn string(&self) -> (r: String)
        ensures
            r@ == expr_text(self.model()),
        decreases self, 0int,
    {
        let mut ps = String::new();
        let mut i: usize = 0;
        assert(self.parameters@.subrange(0, 0) =~= Seq::<Identifier>::empty());
        while i < self.parameters.len()
            invariant
                i <= self.parameters@.len(),
                ps@ == names_text(names_model(self.parameters@.subrange(0, i as int))),
            decreases self.parameters.len() - i,
        {
            proof {
                lemma_names_model_prefix(self.parameters@, i as int);
                lemma_names_text_push(
                    names_model(self.parameters@.subrange(0, i as int)),
                    self.parameters@[i as int].value@,
                );
                lemma_names_model_len(self.parameters@.subrange(0, i as int));
            }
            if i > 0 {
                push_str(&mut ps, ", ");
            }
            push_str(&mut ps, self.parameters[i].value.as_str());
            i = i + 1;
        }
        assert(self.parameters@.subrange(0, self.parameters@.len() as int) =~= self.parameters@);
        let mut s = owned("fn ( ");
        push_str(&mut s, ps.as_str());
        push_str(&mut s, " ) { ");
        let b = self.body.string();
        push_str(&mut s, b.as_str());
        push_str(&mut s, " }");
        s
    }
}

impl CallExpression {
    pub fn string(&self) -> (r: String)
        ensures
            r@ == expr_text(self.model()),
        decreases self, 0int,
    {
        let mut args = String::new();
        let mut i: usize = 0;
        assert(self.arguments@.subrange(0, 0) =~= Seq::<Expression>::empty());
        while i < self.arguments.len()
            invariant
                i <= self.arguments@.len(),
                args@ == args_text(exprs_model(self.arguments@.subrange(0, i as int))),
            decreases self.arguments.len() - i,
        {
            proof {
                lemma_exprs_model_prefix(self.arguments@, i as int);
                lemma_args_text_push(
                    exprs_model(self.arguments@.subrange(0, i as int)),
                    self.arguments@[i as int].model(),
                );
                lemma_exprs_model_len(self.arguments@.subrange(0, i as int));
            }
            if i > 0 {
                push_str(&mut args, ", ");
            }
            let t = self.arguments[i].string();
            push_str(&mut args, t.as_str());
            i = i + 1;
        }
        assert(self.arguments@.subrange(0, self.arguments@.len() as int) =~= self.arguments@);
        let mut s = self.function.string();
        push_str(&mut s, "(");
        push_str(&mut s, args.as_str());
        push_str(&mut s, ")");
        s
    }
}

impl Expression {
    pub fn string(&self) -> (r: String)
        ensures
            r@ == expr_text(self.model()),
        decreases self, 0int,
    {
        match self {
            Expression::Identifier(e) => owned(e.value.as_str()),
            Expression::IntegerLiteral(e) => decimal_string(e.value),
            Expression::PrefixExpression(e) => e.string(),
            Expression::InfixExpression(e) => e.precedence(),
            Expression::BooleanExpression(e) => e.string(),
            Expression::IfExpression(e) => e.string(),
            Expression::BlockStatement(e) => e.string(),
            Expression::FunctionLiteral(e) => e.string(),
            Expression::CallExpression(e) => e.string(),
        }
    }
}

impl Program {
    pub fn string(&self) -> (r: String)
        ensures
            r@ == items_text(self.model()),
    {
        nodes_string(&self.statements)
    }
}

} // verus!
