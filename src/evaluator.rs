use vstd::prelude::*;
use crate::ast::{
    CallExpression, ExprModel, Expression, IfExpression, Identifier, LetStatement, Node, NodeModel,
    ReturnStatement, Statement, exprs_model, names_model, nodes_model,
};
use crate::environment::{EnvModel, Environment};
use crate::object::{
    Boolean, Error, Function, Integer, Null, Object, ObjectType, Return, Value, kind_name,
    strings_model,
};
use crate::render::{
    lemma_exprs_model_len, lemma_exprs_model_prefix, lemma_names_model_len, lemma_nodes_model_prefix,
};
use crate::semantics::{
    single, apply, binary_message, bind_params, ev_args, ev_expr, ev_items, ev_node, ev_program, ev_stmt,
    eval_infix, eval_integer_infix, eval_prefix, min, overflow_message, stops, truthy, unwrap_return,
};
use crate::text::{decimal_string, owned, push_str};
use crate::token::str_equal;

verus! {

broadcast use vstd::std_specs::vec::group_vec_axioms;

/// How deeply function calls may nest before evaluation gives up with an error: as deep as
/// a 64-bit count goes, so in practice the call stack runs out first.
pub const MAX_CALL_DEPTH: u64 = 18446744073709551615;

pub open spec fn values_model(v: Seq<Object>) -> Seq<Value> {
    Seq::new(v.len(), |i: int| v[i].model())
}

// ---------------------------------------------------------------------------
// Facts on evaluating lists.

proof fn lemma_ev_items_push(x: Seq<NodeModel>, y: NodeModel, env: EnvModel, fuel: nat)
    ensures
        ev_items(x.push(y), env, fuel) == ({
            let (v, env1) = ev_items(x, env, fuel);
            if stops(v) {
                (v, env1)
            } else {
                ev_node(y, env1, fuel)
            }
        }),
{
    assert(x.push(y).subrange(0, x.len() as int) =~= x);
}

proof fn lemma_ev_args_push(x: Seq<ExprModel>, y: ExprModel, env: EnvModel, fuel: nat)
    ensures
        ev_args(x.push(y), env, fuel) == ({
            let (done, env1) = ev_args(x, env, fuel);
            match done {
                Err(failure) => (Err(failure), env1),
                Ok(vals) => {
                    let (v, env2) = ev_expr(y, env1, fuel);
                    if stops(v) {
                        (Err(v), env2)
                    } else {
                        (Ok(vals.push(v)), env2)
                    }
                },
            }
        }),
{
    assert(x.push(y).subrange(0, x.len() as int) =~= x);
}

proof fn lemma_ev_args_stopped(args: Seq<ExprModel>, k: int, env: EnvModel, fuel: nat)
    requires
        0 <= k <= args.len(),
        ev_args(args.subrange(0, k), env, fuel).0 is Err,
    ensures
        ev_args(args, env, fuel) == ev_args(args.subrange(0, k), env, fuel),
    decreases args.len(),
{
    if args.len() == k {
        assert(args.subrange(0, k) =~= args);
    } else {
        let front = args.subrange(0, args.len() - 1);
        assert(front.subrange(0, k) =~= args.subrange(0, k));
        lemma_ev_args_stopped(front, k, env, fuel);
    }
}

// ---------------------------------------------------------------------------
// Small helpers on values.

fn new_error(msg: String) -> (r: Object)
    ensures
        r.model() == Value::Failure(msg@),
{
    Object::Error(Error { message: msg })
}

fn is_error(obj: &Object) -> (r: bool)
    ensures
        r == obj.model() is Failure,
{
    match obj {
        Object::Error(_) => true,
        _ => false,
    }
}

fn is_stop(obj: &Object) -> (r: bool)
    ensures
        r == stops(obj.model()),
{
    match obj {
        Object::Error(_) => true,
        Object::Return(_) => true,
        _ => false,
    }
}

fn is_truthy(obj: &Object) -> (r: bool)
    ensures
        r == truthy(obj.model()),
{
    match obj {
        Object::Boolean(b) => b.value,
        Object::Null(_) => false,
        _ => true,
    }
}

fn unwrap_return_value(obj: Object) -> (r: Object)
    ensures
        r.model() == unwrap_return(obj.model()),
{
    match obj {
        Object::Return(r) => *r.value,
        _ => obj,
    }
}

fn kind_string(t: ObjectType) -> (r: String)
    ensures
        r@ == kind_name(t),
{
    match t {
        ObjectType::Integer => owned("Integer"),
        ObjectType::Boolean => owned("Boolean"),
        ObjectType::Return => owned("Return"),
        ObjectType::Function => owned("Function"),
        ObjectType::Null => owned("Null"),
        ObjectType::Error => owned("Error"),
    }
}

fn binary_error(head: &str, l: ObjectType, op: &String, r: ObjectType) -> (o: Object)
    ensures
        o.model() == Value::Failure(binary_message(head@, l, op@, r)),
{
    let mut s = owned(head);
    let ls = kind_string(l);
    push_str(&mut s, ls.as_str());
    push_str(&mut s, " ");
    push_str(&mut s, op.as_str());
    push_str(&mut s, " ");
    let rs = kind_string(r);
    push_str(&mut s, rs.as_str());
    new_error(s)
}

fn overflow_error(l: i64, op: &String, r: i64) -> (o: Object)
    ensures
        o.model() == Value::Failure(overflow_message(l, op@, r)),
{
    let mut s = owned("integer overflow: ");
    let ls = decimal_string(l);
    push_str(&mut s, ls.as_str());
    push_str(&mut s, " ");
    push_str(&mut s, op.as_str());
    push_str(&mut s, " ");
    let rs = decimal_string(r);
    push_str(&mut s, rs.as_str());
    new_error(s)
}

fn checked_result(x: Option<i64>, l: i64, op: &String, r: i64) -> (o: Object)
    ensures
        x is Some ==> o.model() == Value::Int(x->0),
        x is None ==> o.model() == Value::Failure(overflow_message(l, op@, r)),
{
    match x {
        Some(v) => Object::Integer(Integer { value: v }),
        None => overflow_error(l, op, r),
    }
}

// ---------------------------------------------------------------------------
// Operators.

fn eval_integer_infix_expression(operator: &String, left: Integer, right: Integer) -> (r: Object)
    ensures
        r.model() == eval_integer_infix(operator@, left.value, right.value),
{
    let l = left.value;
    let rv = right.value;
    let op = operator.as_str();
    if str_equal(op, "+") {
        checked_result(l.checked_add(rv), l, operator, rv)
    } else if str_equal(op, "-") {
        checked_result(l.checked_sub(rv), l, operator, rv)
    } else if str_equal(op, "*") {
        checked_result(l.checked_mul(rv), l, operator, rv)
    } else if str_equal(op, "/") {
        if rv == 0 {
            let mut s = owned("division by zero: ");
            let ls = decimal_string(l);
            push_str(&mut s, ls.as_str());
            push_str(&mut s, " / 0");
            new_error(s)
        } else {
            checked_result(l.checked_div(rv), l, operator, rv)
        }
    } else if str_equal(op, "<") {
        Object::Boolean(Boolean { value: l < rv })
    } else if str_equal(op, ">") {
        Object::Boolean(Boolean { value: l > rv })
    } else if str_equal(op, "==") {
        Object::Boolean(Boolean { value: l == rv })
    } else if str_equal(op, "!=") {
        Object::Boolean(Boolean { value: l != rv })
    } else {
        binary_error("unknown operator: ", ObjectType::Integer, operator, ObjectType::Integer)
    }
}

fn same_strings(a: &Vec<String>, b: &Vec<String>) -> (r: bool)
    ensures
        r == (strings_model(a@) == strings_model(b@)),
{
    if a.len() != b.len() {
        assert(strings_model(a@).len() != strings_model(b@).len());
        return false;
    }
    let mut i: usize = 0;
    while i < a.len()
        invariant
            a@.len() == b@.len(),
            i <= a@.len(),
            forall|j: int| 0 <= j < i ==> (#[trigger] a@[j])@ == b@[j]@,
        decreases a.len() - i,
    {
        if !str_equal(a[i].as_str(), b[i].as_str()) {
            assert(strings_model(a@)[i as int] != strings_model(b@)[i as int]);
            return false;
        }
        i = i + 1;
    }
    assert(strings_model(a@) =~= strings_model(b@));
    true
}

/// Whether two values that are neither errors nor return signals are the same value.
fn same_value(left: &Object, right: &Object) -> (r: bool)
    requires
        !stops(left.model()),
        !stops(right.model()),
    ensures
        r == (left.model() == right.model()),
{
    match (left, right) {
        (Object::Integer(a), Object::Integer(b)) => a.value == b.value,
        (Object::Boolean(a), Object::Boolean(b)) => a.value == b.value,
        (Object::Null(_), Object::Null(_)) => true,
        (Object::Function(f), Object::Function(g)) => same_strings(&f.parameters, &g.parameters) && f.body.same(
            &g.body,
        ) && f.env == g.env,
        _ => false,
    }
}

fn eval_infix_expression(operator: &String, left: Object, right: Object) -> (r: Object)
    requires
        !stops(left.model()),
        !stops(right.model()),
    ensures
        r.model() == eval_infix(operator@, left.model(), right.model()),
{
    let lt = left.object_type();
    let rt = right.object_type();
    match (left, right) {
        (Object::Integer(a), Object::Integer(b)) => eval_integer_infix_expression(operator, a, b),
        (left, right) => {
            if lt != rt {
                return binary_error("type mismatch: ", lt, operator, rt);
            }
            let eq = same_value(&left, &right);
            if str_equal(operator.as_str(), "==") {
                Object::Boolean(Boolean { value: eq })
            } else if str_equal(operator.as_str(), "!=") {
                Object::Boolean(Boolean { value: !eq })
            } else {
                binary_error("unknown operator: ", lt, operator, rt)
            }
        },
    }
}

fn eval_bang_prefix_operator_expression(right: Object) -> (r: Object)
    ensures
        r.model() == eval_prefix("!"@, right.model()),
{
    match right {
        Object::Boolean(b) => Object::Boolean(Boolean { value: !b.value }),
        Object::Null(_) => Object::Boolean(Boolean { value: true }),
        _ => Object::Boolean(Boolean { value: false }),
    }
}

fn eval_minus_prefix_operator_expression(right: Object) -> (r: Object)
    ensures
        r.model() == eval_prefix("-"@, right.model()),
{
    proof {
        reveal_strlit("-");
        reveal_strlit("!");
        assert("-"@[0] != "!"@[0]);
    }
    match right {
        Object::Integer(i) => {
            if i.value == i64::MIN {
                let mut s = owned("integer overflow: -");
                let d = decimal_string(i.value);
                push_str(&mut s, d.as_str());
                new_error(s)
            } else {
                Object::Integer(Integer { value: -i.value })
            }
        },
        _ => {
            let mut s = owned("unknown operator: -");
            let k = kind_string(right.object_type());
            push_str(&mut s, k.as_str());
            new_error(s)
        },
    }
}

fn eval_prefix_expression(operator: &String, right: Object) -> (r: Object)
    ensures
        r.model() == eval_prefix(operator@, right.model()),
{
    if str_equal(operator.as_str(), "!") {
        eval_bang_prefix_operator_expression(right)
    } else if str_equal(operator.as_str(), "-") {
        eval_minus_prefix_operator_expression(right)
    } else {
        let mut s = owned("unknown operator: ");
        push_str(&mut s, operator.as_str());
        let k = kind_string(right.object_type());
        push_str(&mut s, k.as_str());
        new_error(s)
    }
}

// ---------------------------------------------------------------------------
// Evaluation.

/// Evaluates a program's statements in `env`, which keeps the bindings they make.
/// The result is the value of the last statement, the first error met, or the value of
/// the first top-level `return`.
pub fn eval(statements: &Vec<Node>, env: &mut Environment) -> (r: Object)
    requires
        old(env).wf(),
    ensures
        final(env).wf(),
        !(r.model() is Ret),
        (r.model(), final(env).model()) == ev_program(
            nodes_model(statements@),
            old(env).model(),
            MAX_CALL_DEPTH as nat,
        ),
{
    let r = evaluate_block_statement(statements, env, MAX_CALL_DEPTH);
    unwrap_return_value(r)
}

fn evaluate_block_statement(v: &Vec<Node>, env: &mut Environment, fuel: u64) -> (r: Object)
    requires
        old(env).wf(),
    ensures
        final(env).wf(),
        final(env).outer@.len() >= old(env).outer@.len(),
        single(r.model()),
        (r.model(), final(env).model()) == ev_items(nodes_model(v@), old(env).model(), fuel as nat),
    decreases fuel, v, 0nat,
{
    let ghost env0 = env.model();
    let mut result = Object::Null(Null {});
    let mut i: usize = 0;
    assert(v@.subrange(0, 0) =~= Seq::<Node>::empty());
    while i < v.len()
        invariant
            env0 == old(env).model(),
            i <= v@.len(),
            (result.model(), env.model()) == ev_items(nodes_model(v@.subrange(0, i as int)), env0, fuel as nat),
            !stops(result.model()),
            env.wf(),
            env.outer@.len() >= old(env).outer@.len(),
        decreases v.len() - i,
    {
        proof {
            lemma_nodes_model_prefix(v@, i as int);
            lemma_ev_items_push(nodes_model(v@.subrange(0, i as int)), v@[i as int].model(), env0, fuel as nat);
        }
        let obj = evaluate_node(&v[i], env, fuel);
        if is_stop(&obj) {
            proof {
                lemma_nodes_model_prefix(v@, i as int);
                let all = nodes_model(v@);
                crate::render::lemma_nodes_model_len(v@);
                crate::render::lemma_nodes_model_len(v@.subrange(0, i + 1));
                assert(all.subrange(0, i + 1) =~= nodes_model(v@.subrange(0, i + 1)));
                crate::laws::lemma_stopped_prefix(all, i + 1, env0, fuel as nat);
            }
            return obj;
        }
        result = obj;
        i = i + 1;
    }
    assert(v@.subrange(0, v@.len() as int) =~= v@);
    result
}

fn evaluate_node(n: &Node, env: &mut Environment, fuel: u64) -> (r: Object)
    requires
        old(env).wf(),
    ensures
        final(env).wf(),
        final(env).outer@.len() >= old(env).outer@.len(),
        single(r.model()),
        (r.model(), final(env).model()) == ev_node(n.model(), old(env).model(), fuel as nat),
    decreases fuel, n, 0nat,
{
    match n {
        Node::Statement(s) => evaluate_statement(s, env, fuel),
        Node::Expression(_) => Object::Null(Null {}),
    }
}

fn evaluate_statement(s: &Statement, env: &mut Environment, fuel: u64) -> (r: Object)
    requires
        old(env).wf(),
    ensures
        final(env).wf(),
        final(env).outer@.len() >= old(env).outer@.len(),
        single(r.model()),
        (r.model(), final(env).model()) == ev_stmt(s.model(), old(env).model(), fuel as nat),
    decreases fuel, s, 0nat,
{
    match s {
        Statement::ExpressionStatement(es) => evaluate_expression_statement(&es.expression, env, fuel),
        Statement::ReturnStatement(rs) => eval_return_statement(rs, env, fuel),
        Statement::LetStatement(ls) => eval_let_statement(ls, env, fuel),
    }
}

fn eval_return_statement(rs: &ReturnStatement, env: &mut Environment, fuel: u64) -> (r: Object)
    requires
        old(env).wf(),
    ensures
        final(env).wf(),
        final(env).outer@.len() >= old(env).outer@.len(),
        single(r.model()),
        (r.model(), final(env).model()) == ev_stmt(
            crate::ast::StmtModel::Return(rs.return_value.model()),
            old(env).model(),
            fuel as nat,
        ),
    decreases fuel, rs, 0nat,
{
    let val = evaluate_expression_statement(&rs.return_value, env, fuel);
    if is_stop(&val) {
        return val;
    }
    Object::Return(Return { value: Box::new(val) })
}

fn eval_let_statement(ls: &LetStatement, env: &mut Environment, fuel: u64) -> (r: Object)
    requires
        old(env).wf(),
    ensures
        final(env).wf(),
        final(env).outer@.len() >= old(env).outer@.len(),
        single(r.model()),
        (r.model(), final(env).model()) == ev_stmt(
            crate::ast::StmtModel::Let(ls.name.value@, ls.value.model()),
            old(env).model(),
            fuel as nat,
        ),
    decreases fuel, ls, 0nat,
{
    let val = evaluate_expression_statement(&ls.value, env, fuel);
    if is_stop(&val) {
        return val;
    }
    env.set(owned(ls.name.value.as_str()), val.copy());
    val
}

fn evaluate_expression_statement(e: &Expression, env: &mut Environment, fuel: u64) -> (r: Object)
    requires
        old(env).wf(),
    ensures
        final(env).wf(),
        final(env).outer@.len() >= old(env).outer@.len(),
        single(r.model()),
        (r.model(), final(env).model()) == ev_expr(e.model(), old(env).model(), fuel as nat),
    decreases fuel, e, 0nat,
{
    match e {
        Expression::IntegerLiteral(i) => Object::Integer(Integer { value: i.value }),
        Expression::BooleanExpression(b) => Object::Boolean(Boolean { value: b.value }),
        Expression::PrefixExpression(p) => {
            let right = evaluate_expression_statement(&p.right, env, fuel);
            if is_stop(&right) {
                return right;
            }
            eval_prefix_expression(&p.operator, right)
        },
        Expression::InfixExpression(ie) => {
            let left = evaluate_expression_statement(&ie.left, env, fuel);
            if is_stop(&left) {
                return left;
            }
            let right = evaluate_expression_statement(&ie.right, env, fuel);
            if is_stop(&right) {
                return right;
            }
            eval_infix_expression(&ie.operator, left, right)
        },
        Expression::BlockStatement(bs) => evaluate_block_statement(&bs.statements, env, fuel),
        Expression::Identifier(id) => match env.get(id.value.as_str()) {
            Some(obj) => obj.copy(),
            None => {
                let mut s = owned("identifier not found: ");
                push_str(&mut s, id.value.as_str());
                new_error(s)
            },
        },
        Expression::IfExpression(ie) => eval_if_else_expression(ie, env, fuel),
        Expression::FunctionLiteral(fl) => {
            let mut parameters: Vec<String> = Vec::new();
            let mut i: usize = 0;
            while i < fl.parameters.len()
                invariant
                    i <= fl.parameters@.len(),
                    parameters@.len() == i,
                    forall|j: int| 0 <= j < i ==> (#[trigger] parameters@[j])@ == fl.parameters@[j].value@,
                decreases fl.parameters.len() - i,
            {
                parameters.push(owned(fl.parameters[i].value.as_str()));
                i = i + 1;
            }
            proof {
                lemma_names_model_len(fl.parameters@);
                assert(strings_model(parameters@) =~= names_model(fl.parameters@));
            }
            Object::Function(Function { parameters, body: fl.body.copy(), env: env.current })
        },
        Expression::CallExpression(ce) => eval_call_expression(ce, env, fuel),
    }
}

fn eval_if_else_expression(ie: &IfExpression, env: &mut Environment, fuel: u64) -> (r: Object)
    requires
        old(env).wf(),
    ensures
        final(env).wf(),
        final(env).outer@.len() >= old(env).outer@.len(),
        single(r.model()),
        (r.model(), final(env).model()) == ev_expr(ie.model(), old(env).model(), fuel as nat),
    decreases fuel, ie, 0nat,
{
    let condition = evaluate_expression_statement(&ie.condition, env, fuel);
    if is_stop(&condition) {
        return condition;
    }
    if is_truthy(&condition) {
        evaluate_block_statement(&ie.consequence.statements, env, fuel)
    } else {
        match &ie.alternative {
            Some(alt) => evaluate_block_statement(&alt.statements, env, fuel),
            None => Object::Null(Null {}),
        }
    }
}

fn eval_args(args: &Vec<Expression>, env: &mut Environment, fuel: u64) -> (r: Result<Vec<Object>, Object>)
    requires
        old(env).wf(),
    ensures
        final(env).wf(),
        final(env).outer@.len() >= old(env).outer@.len(),
        r matches Ok(vals) ==> forall|k: int| 0 <= k < vals@.len() ==> !((#[trigger] vals@[k]).model() is Ret),
        r matches Err(failure) ==> single(failure.model()) && stops(failure.model()),
        match r {
            Ok(vals) => ev_args(exprs_model(args@), old(env).model(), fuel as nat) == (
                Ok::<Seq<Value>, Value>(values_model(vals@)),
                final(env).model(),
            ),
            Err(failure) => ev_args(exprs_model(args@), old(env).model(), fuel as nat) == (
                Err::<Seq<Value>, Value>(failure.model()),
                final(env).model(),
            ),
        },
    decreases fuel, args, 0nat,
{
    let ghost env0 = env.model();
    let mut out: Vec<Object> = Vec::new();
    let mut i: usize = 0;
    assert(args@.subrange(0, 0) =~= Seq::<Expression>::empty());
    assert(values_model(out@) =~= Seq::<Value>::empty());
    while i < args.len()
        invariant
            env0 == old(env).model(),
            i <= args@.len(),
            ev_args(exprs_model(args@.subrange(0, i as int)), env0, fuel as nat) == (
                Ok::<Seq<Value>, Value>(values_model(out@)),
                env.model(),
            ),
            env.wf(),
            env.outer@.len() >= old(env).outer@.len(),
            forall|k: int| 0 <= k < out@.len() ==> !((#[trigger] out@[k]).model() is Ret),
        decreases args.len() - i,
    {
        proof {
            lemma_exprs_model_prefix(args@, i as int);
            lemma_ev_args_push(exprs_model(args@.subrange(0, i as int)), args@[i as int].model(), env0, fuel as nat);
        }
        let v = evaluate_expression_statement(&args[i], env, fuel);
        if is_stop(&v) {
            proof {
                let all = exprs_model(args@);
                lemma_exprs_model_len(args@);
                lemma_exprs_model_len(args@.subrange(0, i + 1));
                assert(all.subrange(0, i + 1) =~= exprs_model(args@.subrange(0, i + 1)));
                lemma_ev_args_stopped(all, i + 1, env0, fuel as nat);
            }
            return Err(v);
        }
        let ghost before = values_model(out@);
        out.push(v);
        assert(values_model(out@) =~= before.push(v.model()));
        i = i + 1;
    }
    assert(args@.subrange(0, args@.len() as int) =~= args@);
    Ok(out)
}

fn eval_call_expression(ce: &CallExpression, env: &mut Environment, fuel: u64) -> (r: Object)
    requires
        old(env).wf(),
    ensures
        final(env).wf(),
        final(env).outer@.len() >= old(env).outer@.len(),
        single(r.model()),
        (r.model(), final(env).model()) == ev_expr(ce.model(), old(env).model(), fuel as nat),
    decreases fuel, ce, 0nat,
{
    let function = evaluate_expression_statement(&ce.function, env, fuel);
    if is_stop(&function) {
        return function;
    }
    let args = match eval_args(&ce.arguments, env, fuel) {
        Ok(vals) => vals,
        Err(failure) => {
            return failure;
        },
    };
    match &function {
        Object::Function(f) => {
            if fuel == 0 {
                new_error(owned("call depth limit exceeded"))
            } else {
                apply_function(f, args, env, fuel - 1)
            }
        },
        _ => {
            let mut s = owned("not a function: ");
            let k = kind_string(function.object_type());
            push_str(&mut s, k.as_str());
            new_error(s)
        },
    }
}

fn apply_function(function: &Function, args: Vec<Object>, env: &mut Environment, fuel: u64) -> (r: Object)
    requires
        old(env).wf(),
        forall|k: int| 0 <= k < args@.len() ==> !((#[trigger] args@[k]).model() is Ret),
    ensures
        final(env).wf(),
        final(env).outer@.len() >= old(env).outer@.len(),
        !(r.model() is Ret),
        (r.model(), final(env).model()) == apply(
            strings_model(function.parameters@),
            function.body.model(),
            function.env as nat,
            values_model(args@),
            old(env).model(),
            fuel as nat,
        ),
    decreases fuel, function.body.statements, 1nat,
{
    let saved = env.current;
    env.enter_scope(function.env);
    extend_function_env(function, &args, env);
    let evaluated = evaluate_block_statement(&function.body.statements, env, fuel);
    env.restore_scope(saved);
    unwrap_return_value(evaluated)
}

/// Binds parameters to arguments by position, as far as both lists go.
fn extend_function_env(function: &Function, args: &Vec<Object>, env: &mut Environment)
    requires
        old(env).wf(),
        forall|k: int| 0 <= k < args@.len() ==> !((#[trigger] args@[k]).model() is Ret),
    ensures
        final(env).wf(),
        final(env).outer@ == old(env).outer@,
        final(env).model() == bind_params(
            old(env).model(),
            strings_model(function.parameters@),
            values_model(args@),
            min(function.parameters@.len(), args@.len()),
        ),
{
    let n = if function.parameters.len() <= args.len() {
        function.parameters.len()
    } else {
        args.len()
    };
    let ghost ps = strings_model(function.parameters@);
    let ghost vals = values_model(args@);
    let mut i: usize = 0;
    while i < n
        invariant
            n == min(function.parameters@.len(), args@.len()),
            n <= function.parameters@.len(),
            n <= args@.len(),
            ps == strings_model(function.parameters@),
            vals == values_model(args@),
            i <= n,
            env.model() == bind_params(old(env).model(), ps, vals, i as nat),
            env.wf(),
            env.outer@ == old(env).outer@,
            forall|k: int| 0 <= k < args@.len() ==> !((#[trigger] args@[k]).model() is Ret),
        decreases n - i,
    {
        env.set(owned(function.parameters[i].as_str()), args[i].copy());
        i = i + 1;
    }
}

} // verus!
