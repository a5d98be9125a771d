use vstd::prelude::*;
use crate::ast::{
    BlockStatement, BooleanExpression, CallExpression, Expression, ExpressionStatement,
    FunctionLiteral, Identifier, IfExpression, InfixExpression, IntegerLiteral, LetStatement, Node,
    PrefixExpression, ReturnStatement, Statement, exprs_model, names_model, nodes_model,
};
use crate::render::{
    lemma_exprs_model_len, lemma_exprs_model_prefix, lemma_names_model_len, lemma_names_model_prefix,
    lemma_nodes_model_len, lemma_nodes_model_prefix,
};
use crate::token::str_equal;
use crate::text::owned;

verus! {

broadcast use vstd::std_specs::vec::group_vec_axioms;

fn copy_nodes(v: &Vec<Node>) -> (r: Vec<Node>)
    ensures
        nodes_model(r@) == nodes_model(v@),
    decreases v, 0int,
{
    let mut out: Vec<Node> = Vec::new();
    let mut i: usize = 0;
    assert(v@.subrange(0, 0) =~= Seq::<Node>::empty());
    while i < v.len()
        invariant
            i <= v@.len(),
            out@.len() == i,
            nodes_model(out@) == nodes_model(v@.subrange(0, i as int)),
        decreases v.len() - i,
    {
        let n = v[i].copy();
        proof {
            lemma_nodes_model_prefix(v@, i as int);
            assert(out@.push(n).subrange(0, i as int) =~= out@);
        }
        out.push(n);
        i = i + 1;
    }
    assert(v@.subrange(0, v@.len() as int) =~= v@);
    out
}

fn copy_exprs(v: &Vec<Expression>) -> (r: Vec<Expression>)
    ensures
        exprs_model(r@) == exprs_model(v@),
    decreases v, 0int,
{
    let mut out: Vec<Expression> = Vec::new();
    let mut i: usize = 0;
    assert(v@.subrange(0, 0) =~= Seq::<Expression>::empty());
    while i < v.len()
        invariant
            i <= v@.len(),
            out@.len() == i,
            exprs_model(out@) == exprs_model(v@.subrange(0, i as int)),
        decreases v.len() - i,
    {
        let n = v[i].copy();
        proof {
            lemma_exprs_model_prefix(v@, i as int);
            assert(out@.push(n).subrange(0, i as int) =~= out@);
        }
        out.push(n);
        i = i + 1;
    }
    assert(v@.subrange(0, v@.len() as int) =~= v@);
    out
}

fn copy_names(v: &Vec<Identifier>) -> (r: Vec<Identifier>)
    ensures
        names_model(r@) == names_model(v@),
{
    let mut out: Vec<Identifier> = Vec::new();
    let mut i: usize = 0;
    assert(v@.subrange(0, 0) =~= Seq::<Identifier>::empty());
    while i < v.len()
        invariant
            i <= v@.len(),
            out@.len() == i,
            names_model(out@) == names_model(v@.subrange(0, i as int)),
        decreases v.len() - i,
    {
        let n = v[i].copy();
        proof {
            lemma_names_model_prefix(v@, i as int);
            assert(out@.push(n).subrange(0, i as int) =~= out@);
        }
        out.push(n);
        i = i + 1;
    }
    assert(v@.subrange(0, v@.len() as int) =~= v@);
    out
}

impl Identifier {
    pub fn copy(&self) -> (r: Identifier)
        ensures
            r.value@ == self.value@,
            r.token.token_type == self.token.token_type,
            r.token.literal@ == self.token.literal@,
    {
        Identifier { token: self.token.duplicate(), value: owned(self.value.as_str()) }
    }
}

impl BlockStatement {
    pub fn copy(&self) -> (r: BlockStatement)
        ensures
            r.model() == self.model(),
        decreases self, 0int,
    {
        BlockStatement { token: self.token.duplicate(), statements: copy_nodes(&self.statements) }
    }
}

impl Node {
    pub fn copy(&self) -> (r: Node)
        ensures
            r.model() == self.model(),
        decreases self, 0int,
    {
        match self {
            Node::Statement(s) => Node::Statement(s.copy()),
            Node::Expression(e) => Node::Expression(e.copy()),
        }
    }
}

impl Statement {
    pub fn copy(&self) -> (r: Statement)
        ensures
            r.model() == self.model(),
        decreases self, 0int,
    {
        match self {
            Statement::LetStatement(s) => Statement::LetStatement(
                LetStatement { token: s.token.duplicate(), name: s.name.copy(), value: s.value.copy() },
            ),
            Statement::ReturnStatement(s) => Statement::ReturnStatement(
                ReturnStatement { token: s.token.duplicate(), return_value: s.return_value.copy() },
            ),
            Statement::ExpressionStatement(s) => Statement::ExpressionStatement(
                ExpressionStatement {
                    token: s.token.duplicate(),
                    expression: Box::new(s.expression.copy()),
                },
            ),
        }
    }
}

impl Expression {
    pub fn copy(&self) -> (r: Expression)
        ensures
            r.model() == self.model(),
        decreases self, 0int,
    {
        match self {
            Expression::Identifier(e) => Expression::Identifier(e.copy()),
            Expression::IntegerLiteral(e) => Expression::IntegerLiteral(
                IntegerLiteral { token: e.token.duplicate(), value: e.value },
            ),
            Expression::BooleanExpression(e) => Expression::BooleanExpression(
                BooleanExpression { token: e.token.duplicate(), value: e.value },
            ),
            Expression::PrefixExpression(e) => Expression::PrefixExpression(
                PrefixExpression {
                    token: e.token.duplicate(),
                    operator: owned(e.operator.as_str()),
                    right: Box::new(e.right.copy()),
                },
            ),
            Expression::InfixExpression(e) => Expression::InfixExpression(
                InfixExpression {
                    token: e.token.duplicate(),
                    left: Box::new(e.left.copy()),
                    operator: owned(e.operator.as_str()),
                    right: Box::new(e.right.copy()),
                },
            ),
            Expression::BlockStatement(b) => Expression::BlockStatement(b.copy()),
            Expression::IfExpression(e) => {
                let alternative = match &e.alternative {
                    Some(b) => Some(b.copy()),
                    None => None,
                };
                Expression::IfExpression(
                    IfExpression {
                        token: e.token.duplicate(),
                        condition: Box::new(e.condition.copy()),
                        consequence: e.consequence.copy(),
                        alternative,
                    },
                )
            },
            Expression::FunctionLiteral(f) => Expression::FunctionLiteral(
                FunctionLiteral {
                    token: f.token.duplicate(),
                    parameters: copy_names(&f.parameters),
                    body: f.body.copy(),
                },
            ),
            Expression::CallExpression(c) => Expression::CallExpression(
                CallExpression {
                    token: c.token.duplicate(),
                    function: Box::new(c.function.copy()),
                    arguments: copy_exprs(&c.arguments),
                },
            ),
        }
    }
}

// ---------------------------------------------------------------------------
// Comparing trees by what they mean.

fn same_nodes(a: &Vec<Node>, b: &Vec<Node>) -> (r: bool)
    ensures
        r == (nodes_model(a@) == nodes_model(b@)),
    decreases a, 0int,
{
    proof {
        lemma_nodes_model_len(a@);
        lemma_nodes_model_len(b@);
    }
    if a.len() != b.len() {
        return false;
    }
    let mut i: usize = 0;
    while i < a.len()
        invariant
            a@.len() == b@.len(),
            i <= a@.len(),
            nodes_model(a@).len() == a@.len(),
            nodes_model(b@).len() == b@.len(),
            forall|j: int| 0 <= j < a@.len() ==> #[trigger] nodes_model(a@)[j] == a@[j].model(),
            forall|j: int| 0 <= j < b@.len() ==> #[trigger] nodes_model(b@)[j] == b@[j].model(),
            forall|j: int| 0 <= j < i ==> (#[trigger] a@[j]).model() == b@[j].model(),
        decreases a.len() - i,
    {
        if !a[i].same(&b[i]) {
            assert(nodes_model(a@)[i as int] != nodes_model(b@)[i as int]);
            return false;
        }
        i = i + 1;
    }
    assert(nodes_model(a@) =~= nodes_model(b@));
    true
}

fn same_exprs(a: &Vec<Expression>, b: &Vec<Expression>) -> (r: bool)
    ensures
        r == (exprs_model(a@) == exprs_model(b@)),
    decreases a, 0int,
{
    proof {
        lemma_exprs_model_len(a@);
        lemma_exprs_model_len(b@);
    }
    if a.len() != b.len() {
        return false;
    }
    let mut i: usize = 0;
    while i < a.len()
        invariant
            a@.len() == b@.len(),
            i <= a@.len(),
            exprs_model(a@).len() == a@.len(),
            exprs_model(b@).len() == b@.len(),
            forall|j: int| 0 <= j < a@.len() ==> #[trigger] exprs_model(a@)[j] == a@[j].model(),
            forall|j: int| 0 <= j < b@.len() ==> #[trigger] exprs_model(b@)[j] == b@[j].model(),
            forall|j: int| 0 <= j < i ==> (#[trigger] a@[j]).model() == b@[j].model(),
        decreases a.len() - i,
    {
        if !a[i].same(&b[i]) {
            assert(exprs_model(a@)[i as int] != exprs_model(b@)[i as int]);
            return false;
        }
        i = i + 1;
    }
    assert(exprs_model(a@) =~= exprs_model(b@));
    true
}

fn same_names(a: &Vec<Identifier>, b: &Vec<Identifier>) -> (r: bool)
    ensures
        r == (names_model(a@) == names_model(b@)),
{
    proof {
        lemma_names_model_len(a@);
        lemma_names_model_len(b@);
    }
    if a.len() != b.len() {
        return false;
    }
    let mut i: usize = 0;
    while i < a.len()
        invariant
            a@.len() == b@.len(),
            i <= a@.len(),
            names_model(a@).len() == a@.len(),
            names_model(b@).len() == b@.len(),
            forall|j: int| 0 <= j < a@.len() ==> #[trigger] names_model(a@)[j] == a@[j].value@,
            forall|j: int| 0 <= j < b@.len() ==> #[trigger] names_model(b@)[j] == b@[j].value@,
            forall|j: int| 0 <= j < i ==> (#[trigger] a@[j]).value@ == b@[j].value@,
        decreases a.len() - i,
    {
        if !str_equal(a[i].value.as_str(), b[i].value.as_str()) {
            assert(names_model(a@)[i as int] != names_model(b@)[i as int]);
            return false;
        }
        i = i + 1;
    }
    assert(names_model(a@) =~= names_model(b@));
    true
}

impl BlockStatement {
    /// Whether the two blocks hold the same statements.
    pub fn same(&self, other: &BlockStatement) -> (r: bool)
        ensures
            r == (self.model() == other.model()),
        decreases self, 0int,
    {
        same_nodes(&self.statements, &other.statements)
    }
}

impl Node {
    /// Whether the two nodes mean the same, tokens aside.
    pub fn same(&self, other: &Node) -> (r: bool)
        ensures
            r == (self.model() == other.model()),
        decreases self, 0int,
    {
        match (self, other) {
            (Node::Statement(a), Node::Statement(b)) => a.same(b),
            (Node::Expression(a), Node::Expression(b)) => a.same(b),
            _ => false,
        }
    }
}

impl Statement {
    /// Whether the two statements mean the same, tokens aside.
    pub fn same(&self, other: &Statement) -> (r: bool)
        ensures
            r == (self.model() == other.model()),
        decreases self, 0int,
    {
        match (self, other) {
            (Statement::LetStatement(a), Statement::LetStatement(b)) => str_equal(
                a.name.value.as_str(),
                b.name.value.as_str(),
            ) && a.value.same(&b.value),
            (Statement::ReturnStatement(a), Statement::ReturnStatement(b)) => a.return_value.same(&b.return_value),
            (Statement::ExpressionStatement(a), Statement::ExpressionStatement(b)) => a.expression.same(&b.expression),
            _ => false,
        }
    }
}

impl Expression {
    /// Whether the two expressions mean the same, tokens aside.
    pub fn same(&self, other: &Expression) -> (r: bool)
        ensures
            r == (self.model() == other.model()),
        decreases self, 0int,
    {
        match (self, other) {
            (Expression::Identifier(a), Expression::Identifier(b)) => str_equal(a.value.as_str(), b.value.as_str()),
            (Expression::IntegerLiteral(a), Expression::IntegerLiteral(b)) => a.value == b.value,
            (Expression::BooleanExpression(a), Expression::BooleanExpression(b)) => a.value == b.value,
            (Expression::PrefixExpression(a), Expression::PrefixExpression(b)) => str_equal(
                a.operator.as_str(),
                b.operator.as_str(),
            ) && a.right.same(&b.right),
            (Expression::InfixExpression(a), Expression::InfixExpression(b)) => a.left.same(&b.left) && str_equal(
                a.operator.as_str(),
                b.operator.as_str(),
            ) && a.right.same(&b.right),
            (Expression::BlockStatement(a), Expression::BlockStatement(b)) => same_nodes(&a.statements, &b.statements),
            (Expression::IfExpression(a), Expression::IfExpression(b)) => {
                let alternatives = match (&a.alternative, &b.alternative) {
                    (Some(x), Some(y)) => same_nodes(&x.statements, &y.statements),
                    (None, None) => true,
                    _ => false,
                };
                a.condition.same(&b.condition) && same_nodes(&a.consequence.statements, &b.consequence.statements)
                    && alternatives
            },
            (Expression::FunctionLiteral(a), Expression::FunctionLiteral(b)) => same_names(
                &a.parameters,
                &b.parameters,
            ) && same_nodes(&a.body.statements, &b.body.statements),
            (Expression::CallExpression(a), Expression::CallExpression(b)) => a.function.same(&b.function) && same_exprs(
                &a.arguments,
                &b.arguments,
            ),
            _ => false,
        }
    }
}

} // verus!
