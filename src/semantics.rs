use vstd::prelude::*;
use crate::ast::{ExprModel, NodeModel, StmtModel};
use crate::environment::{EnvModel, bind, enclose, lookup};
use crate::object::{ObjectType, Value, kind_name, type_of};
use crate::text::decimal;

verus! {

// ---------------------------------------------------------------------------
// Values and operators.

/// Only `false` and null count as false in a condition.
pub open spec fn truthy(v: Value) -> bool {
    match v {
        Value::Bool(b) => b,
        Value::Null => false,
        _ => true,
    }
}

/// A value that ends the evaluation of whatever contains it: an error or a return signal.
/// Both pass through every enclosing expression and statement unchanged.
pub open spec fn stops(v: Value) -> bool {
    v is Ret || v is Failure
}

/// A value that is not a return signal, or a return signal around such a value.
pub open spec fn single(v: Value) -> bool {
    match v {
        Value::Ret(inner) => !(*inner is Ret),
        _ => true,
    }
}

/// The value a return signal carries; any other value as it is.
pub open spec fn unwrap_return(v: Value) -> Value {
    match v {
        Value::Ret(inner) => *inner,
        _ => v,
    }
}

/// Integer division rounding toward zero.
pub open spec fn trunc_div(x: int, d: int) -> int {
    if x == 0 {
        0
    } else if x > 0 && d > 0 {
        x / d
    } else if x < 0 && d < 0 {
        (x * -1) / (d * -1)
    } else if x < 0 {
        ((x * -1) / d) * -1
    } else {
        (x / (d * -1)) * -1
    }
}

pub open spec fn overflow_message(l: i64, op: Seq<char>, r: i64) -> Seq<char> {
    "integer overflow: "@ + decimal(l as int) + " "@ + op + " "@ + decimal(r as int)
}

/// An integer result, or an overflow error where it leaves the 64-bit range.
pub open spec fn int_result(x: int, l: i64, op: Seq<char>, r: i64) -> Value {
    if i64::MIN <= x <= i64::MAX {
        Value::Int(x as i64)
    } else {
        Value::Failure(overflow_message(l, op, r))
    }
}

pub open spec fn binary_message(head: Seq<char>, l: ObjectType, op: Seq<char>, r: ObjectType) -> Seq<char> {
    head + kind_name(l) + " "@ + op + " "@ + kind_name(r)
}

pub open spec fn eval_integer_infix(op: Seq<char>, l: i64, r: i64) -> Value {
    if op == "+"@ {
        int_result(l + r, l, op, r)
    } else if op == "-"@ {
        int_result(l - r, l, op, r)
    } else if op == "*"@ {
        int_result(l * r, l, op, r)
    } else if op == "/"@ {
        if r == 0 {
            Value::Failure("division by zero: "@ + decimal(l as int) + " / 0"@)
        } else {
            int_result(trunc_div(l as int, r as int), l, op, r)
        }
    } else if op == "<"@ {
        Value::Bool(l < r)
    } else if op == ">"@ {
        Value::Bool(l > r)
    } else if op == "=="@ {
        Value::Bool(l == r)
    } else if op == "!="@ {
        Value::Bool(l != r)
    } else {
        Value::Failure(binary_message("unknown operator: "@, ObjectType::Integer, op, ObjectType::Integer))
    }
}

/// Infix operators: arithmetic and comparison on integers; on any other two values of one
/// type, `==` and `!=` compare them as values.
pub open spec fn eval_infix(op: Seq<char>, l: Value, r: Value) -> Value {
    match (l, r) {
        (Value::Int(a), Value::Int(b)) => eval_integer_infix(op, a, b),
        _ => if type_of(l) != type_of(r) {
            Value::Failure(binary_message("type mismatch: "@, type_of(l), op, type_of(r)))
        } else if op == "=="@ {
            Value::Bool(l == r)
        } else if op == "!="@ {
            Value::Bool(l != r)
        } else {
            Value::Failure(binary_message("unknown operator: "@, type_of(l), op, type_of(r)))
        },
    }
}

/// Prefix operators: `!` negates truthiness, `-` negates integers.
pub open spec fn eval_prefix(op: Seq<char>, v: Value) -> Value {
    if op == "!"@ {
        match v {
            Value::Bool(b) => Value::Bool(!b),
            Value::Null => Value::Bool(true),
            _ => Value::Bool(false),
        }
    } else if op == "-"@ {
        match v {
            Value::Int(i) => if i == i64::MIN {
                Value::Failure("integer overflow: -"@ + decimal(i as int))
            } else {
                Value::Int((-i) as i64)
            },
            _ => Value::Failure("unknown operator: -"@ + kind_name(type_of(v))),
        }
    } else {
        Value::Failure("unknown operator: "@ + op + kind_name(type_of(v)))
    }
}

pub open spec fn not_found_message(name: Seq<char>) -> Seq<char> {
    "identifier not found: "@ + name
}

pub open spec fn depth_message() -> Seq<char> {
    "call depth limit exceeded"@
}

/// Binds the first `n` parameters to the first `n` arguments, in order.
pub open spec fn bind_params(env: EnvModel, ps: Seq<Seq<char>>, args: Seq<Value>, n: nat) -> EnvModel
    decreases n,
{
    if n == 0 {
        env
    } else {
        bind(bind_params(env, ps, args, (n - 1) as nat), ps[n - 1], args[n - 1])
    }
}

pub open spec fn min(a: nat, b: nat) -> nat {
    if a <= b {
        a
    } else {
        b
    }
}

// ---------------------------------------------------------------------------
// Evaluation. `fuel` bounds the depth of nested function calls still allowed.

pub open spec fn ev_expr(e: ExprModel, env: EnvModel, fuel: nat) -> (Value, EnvModel)
    decreases fuel, e, 0nat,
{
    match e {
        ExprModel::Int(n) => (Value::Int(n), env),
        ExprModel::Bool(b) => (Value::Bool(b), env),
        ExprModel::Ident(name) => match lookup(env, name) {
            Some(v) => (v, env),
            None => (Value::Failure(not_found_message(name)), env),
        },
        ExprModel::Prefix(op, r) => {
            let (v, env1) = ev_expr(*r, env, fuel);
            if stops(v) {
                (v, env1)
            } else {
                (eval_prefix(op, v), env1)
            }
        },
        ExprModel::Infix(l, op, r) => {
            let (lv, env1) = ev_expr(*l, env, fuel);
            if stops(lv) {
                (lv, env1)
            } else {
                let (rv, env2) = ev_expr(*r, env1, fuel);
                if stops(rv) {
                    (rv, env2)
                } else {
                    (eval_infix(op, lv, rv), env2)
                }
            }
        },
        ExprModel::Block(items) => ev_items(items, env, fuel),
        ExprModel::If(c, t, a) => {
            let (cv, env1) = ev_expr(*c, env, fuel);
            if stops(cv) {
                (cv, env1)
            } else if truthy(cv) {
                ev_items(t, env1, fuel)
            } else {
                match a {
                    Some(a) => ev_items(a, env1, fuel),
                    None => (Value::Null, env1),
                }
            }
        },
        ExprModel::Func(ps, body) => (Value::Func(ps, body, env.current), env),
        ExprModel::Call(f, args) => {
            let (fv, env1) = ev_expr(*f, env, fuel);
            if stops(fv) {
                (fv, env1)
            } else {
                let (avs, env2) = ev_args(args, env1, fuel);
                match avs {
                    Err(failure) => (failure, env2),
                    Ok(vals) => match fv {
                        Value::Func(ps, body, scope) => if fuel == 0 {
                            (Value::Failure(depth_message()), env2)
                        } else {
                            apply(ps, body, scope, vals, env2, (fuel - 1) as nat)
                        },
                        _ => (Value::Failure("not a function: "@ + kind_name(type_of(fv))), env2),
                    },
                }
            }
        },
    }
}

/// Arguments from left to right; the first error ends the list.
pub open spec fn ev_args(args: Seq<ExprModel>, env: EnvModel, fuel: nat) -> (Result<Seq<Value>, Value>, EnvModel)
    decreases fuel, args, 0nat,
{
    if args.len() == 0 {
        (Ok(Seq::empty()), env)
    } else {
        let (done, env1) = ev_args(args.subrange(0, args.len() - 1), env, fuel);
        match done {
            Err(failure) => (Err(failure), env1),
            Ok(vals) => {
                let (v, env2) = ev_expr(args[args.len() - 1], env1, fuel);
                if stops(v) {
                    (Err(v), env2)
                } else {
                    (Ok(vals.push(v)), env2)
                }
            },
        }
    }
}

/// A call: a fresh scope enclosed by the function's own scope, parameters bound to
/// arguments by position, the body run there, and the caller's scope made current again.
pub open spec fn apply(
    ps: Seq<Seq<char>>,
    body: Seq<NodeModel>,
    scope: nat,
    args: Seq<Value>,
    env: EnvModel,
    fuel: nat,
) -> (Value, EnvModel)
    decreases fuel, body, 1nat,
{
    let inner = bind_params(enclose(env, scope), ps, args, min(ps.len(), args.len()));
    let (v, env1) = ev_items(body, inner, fuel);
    (unwrap_return(v), EnvModel { current: env.current, ..env1 })
}

/// Statements in order; an error or a return signal stops the list and is its value,
/// otherwise the value of the last statement (null for none).
pub open spec fn ev_items(items: Seq<NodeModel>, env: EnvModel, fuel: nat) -> (Value, EnvModel)
    decreases fuel, items, 0nat,
{
    if items.len() == 0 {
        (Value::Null, env)
    } else {
        let (v, env1) = ev_items(items.subrange(0, items.len() - 1), env, fuel);
        if stops(v) {
            (v, env1)
        } else {
            ev_node(items[items.len() - 1], env1, fuel)
        }
    }
}

pub open spec fn ev_node(n: NodeModel, env: EnvModel, fuel: nat) -> (Value, EnvModel)
    decreases fuel, n, 0nat,
{
    match n {
        NodeModel::Stmt(s) => ev_stmt(s, env, fuel),
        NodeModel::Expr(_) => (Value::Null, env),
    }
}

pub open spec fn ev_stmt(s: StmtModel, env: EnvModel, fuel: nat) -> (Value, EnvModel)
    decreases fuel, s, 0nat,
{
    match s {
        StmtModel::Let(name, e) => {
            let (v, env1) = ev_expr(e, env, fuel);
            if stops(v) {
                (v, env1)
            } else {
                (v, bind(env1, name, v))
            }
        },
        StmtModel::Return(e) => {
            let (v, env1) = ev_expr(e, env, fuel);
            if stops(v) {
                (v, env1)
            } else {
                (Value::Ret(Box::new(v)), env1)
            }
        },
        StmtModel::Expr(e) => ev_expr(e, env, fuel),
    }
}

/// A whole program: its statements, with a top-level return signal unwrapped.
pub open spec fn ev_program(items: Seq<NodeModel>, env: EnvModel, fuel: nat) -> (Value, EnvModel) {
    let (v, env1) = ev_items(items, env, fuel);
    (unwrap_return(v), env1)
}

} // verus!
