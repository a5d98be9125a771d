use vstd::prelude::*;
use crate::ast::{ExprModel, NodeModel, StmtModel};
use crate::environment::{EnvModel, bind, enclose, lookup, lookup_from, scope_lookup};
use crate::grammar::{ParseState, p_expression, p_infix, p_infix_loop, p_prefix, prec_of};
use crate::object::Value;
use crate::token::{Token, TokenType};
use crate::semantics::{
    apply, bind_params, ev_args, ev_expr, ev_items, ev_node, ev_program, ev_stmt, min,
    not_found_message, stops,
};

verus! {

/// Once a prefix of a statement list stops with an error or a return signal, the
/// statements after it change nothing.
pub proof fn lemma_stopped_prefix(items: Seq<NodeModel>, k: int, env: EnvModel, fuel: nat)
    requires
        0 <= k <= items.len(),
        stops(ev_items(items.subrange(0, k), env, fuel).0),
    ensures
        ev_items(items, env, fuel) == ev_items(items.subrange(0, k), env, fuel),
    decreases items.len(),
{
    if items.len() == k {
        assert(items.subrange(0, k) =~= items);
    } else {
        let front = items.subrange(0, items.len() - 1);
        assert(front.subrange(0, k) =~= items.subrange(0, k));
        lemma_stopped_prefix(front, k, env, fuel);
    }
}

/// An integer literal evaluates to that integer, and a program made of it alone too.
pub proof fn law_integer_literal(n: i64, env: EnvModel, fuel: nat)
    ensures
        ev_expr(ExprModel::Int(n), env, fuel) == (Value::Int(n), env),
        ev_program(seq![NodeModel::Stmt(StmtModel::Expr(ExprModel::Int(n)))], env, fuel).0 == Value::Int(n),
{
    let items = seq![NodeModel::Stmt(StmtModel::Expr(ExprModel::Int(n)))];
    assert(items.subrange(0, 0) =~= Seq::<NodeModel>::empty());
    assert(ev_items(items.subrange(0, 0), env, fuel) == (Value::Null, env));
    assert(crate::semantics::ev_stmt(StmtModel::Expr(ExprModel::Int(n)), env, fuel) == (Value::Int(n), env));
    assert(crate::semantics::ev_node(items[0], env, fuel) == (Value::Int(n), env));
    assert(ev_items(items, env, fuel) == (Value::Int(n), env));
}

/// Negating a boolean twice gives it back.
pub proof fn law_double_negation_of_boolean(b: bool, env: EnvModel, fuel: nat)
    ensures
        ev_expr(
            ExprModel::Prefix("!"@, Box::new(ExprModel::Prefix("!"@, Box::new(ExprModel::Bool(b))))),
            env,
            fuel,
        ) == (Value::Bool(b), env),
{
    reveal_with_fuel(ev_expr, 3);
}

/// Negating an integer twice gives `true`: every integer counts as true.
pub proof fn law_double_negation_of_integer(n: i64, env: EnvModel, fuel: nat)
    ensures
        ev_expr(
            ExprModel::Prefix("!"@, Box::new(ExprModel::Prefix("!"@, Box::new(ExprModel::Int(n))))),
            env,
            fuel,
        ) == (Value::Bool(true), env),
{
    reveal_with_fuel(ev_expr, 3);
}

/// A statement that evaluates to an error ends the program with that error: the
/// statements after it are never evaluated.
pub proof fn law_error_ends_program(first: NodeModel, rest: Seq<NodeModel>, env: EnvModel, fuel: nat)
    requires
        ev_items(seq![first], env, fuel).0 is Failure,
    ensures
        ev_program(seq![first] + rest, env, fuel) == ev_program(seq![first], env, fuel),
        ev_program(seq![first] + rest, env, fuel).0 == ev_items(seq![first], env, fuel).0,
{
    let items = seq![first] + rest;
    assert(items.subrange(0, 1) =~= seq![first]);
    lemma_stopped_prefix(items, 1, env, fuel);
}

/// A `return` whose value evaluates to a plain value (no error, no return signal) ends the program with that value,
/// whatever follows it.
pub proof fn law_return_ends_program(e: ExprModel, rest: Seq<NodeModel>, env: EnvModel, fuel: nat)
    requires
        !stops(ev_expr(e, env, fuel).0),
    ensures
        ev_program(seq![NodeModel::Stmt(StmtModel::Return(e))] + rest, env, fuel) == ev_expr(e, env, fuel),
{
    let first = NodeModel::Stmt(StmtModel::Return(e));
    let items = seq![first] + rest;
    assert(items.subrange(0, 1) =~= seq![first]);
    assert(seq![first].subrange(0, 0) =~= Seq::<NodeModel>::empty());
    assert(ev_items(seq![first].subrange(0, 0), env, fuel) == (Value::Null, env));
    let (v, env1) = ev_expr(e, env, fuel);
    assert(crate::semantics::ev_stmt(StmtModel::Return(e), env, fuel) == (Value::Ret(Box::new(v)), env1));
    assert(crate::semantics::ev_node(first, env, fuel) == (Value::Ret(Box::new(v)), env1));
    assert(seq![first][0] == first);
    assert(ev_items(seq![first], env, fuel) == (Value::Ret(Box::new(v)), env1));
    lemma_stopped_prefix(items, 1, env, fuel);
}

/// A name bound nowhere in reach evaluates to the error that says so.
pub proof fn law_unbound_identifier(name: Seq<char>, env: EnvModel, fuel: nat)
    requires
        lookup(env, name) is None,
    ensures
        ev_expr(ExprModel::Ident(name), env, fuel) == (Value::Failure(not_found_message(name)), env),
        not_found_message(name) == "identifier not found: "@ + name,
{
}

proof fn lemma_bind_params_scope(env: EnvModel, ps: Seq<Seq<char>>, args: Seq<Value>, n: nat, name: Seq<char>)
    requires
        n <= ps.len(),
        n <= args.len(),
        forall|i: int| 0 <= i < n ==> ps[i] != name,
    ensures
        scope_lookup(bind_params(env, ps, args, n).bindings, env.current, name)
            == scope_lookup(env.bindings, env.current, name),
        bind_params(env, ps, args, n).current == env.current,
        bind_params(env, ps, args, n).parents == env.parents,
    decreases n,
{
    if n > 0 {
        lemma_bind_params_scope(env, ps, args, (n - 1) as nat, name);
        let b = bind_params(env, ps, args, (n - 1) as nat).bindings;
        let b2 = b.push((env.current, ps[n - 1], args[n - 1]));
        assert(b2.subrange(0, b2.len() - 1) =~= b);
    }
}

proof fn lemma_fresh_scope_empty(b: Seq<(nat, Seq<char>, Value)>, scope: nat, name: Seq<char>)
    requires
        forall|i: int| 0 <= i < b.len() ==> (#[trigger] b[i]).0 < scope,
    ensures
        scope_lookup(b, scope, name) is None,
    decreases b.len(),
{
    if b.len() > 0 {
        lemma_fresh_scope_empty(b.subrange(0, b.len() - 1), scope, name);
    }
}

/// Arity is not checked: a call binds parameters to arguments by position, as far as the
/// arguments go. A parameter with no argument (and not named like an earlier bound one)
/// stays unbound in the call's own scope, so reading it looks in the enclosing scopes.
pub proof fn law_missing_arguments_stay_unbound(
    env: EnvModel,
    scope: nat,
    ps: Seq<Seq<char>>,
    args: Seq<Value>,
    j: int,
)
    requires
        forall|i: int| 0 <= i < env.bindings.len() ==> (#[trigger] env.bindings[i]).0 < env.parents.len(),
        args.len() <= j < ps.len(),
        forall|i: int| 0 <= i < args.len() ==> ps[i] != ps[j],
    ensures
        ({
            let opened = enclose(env, scope);
            let inner = bind_params(opened, ps, args, min(ps.len(), args.len()));
            scope_lookup(inner.bindings, inner.current, ps[j]) is None
        }),
{
    let opened = enclose(env, scope);
    lemma_fresh_scope_empty(opened.bindings, opened.current, ps[j]);
    lemma_bind_params_scope(opened, ps, args, min(ps.len(), args.len()), ps[j]);
}

// ---------------------------------------------------------------------------
// Evaluation only adds: scopes and bindings are appended, and new bindings go to the
// current scope or to scopes opened on the way.

/// `b` is `a` with scopes and bindings appended; each new binding lies in `a`'s current
/// scope or in a scope `a` did not have yet.
pub open spec fn extends(a: EnvModel, b: EnvModel) -> bool {
    &&& b.current == a.current
    &&& a.parents.len() <= b.parents.len()
    &&& b.parents.subrange(0, a.parents.len() as int) == a.parents
    &&& a.bindings.len() <= b.bindings.len()
    &&& b.bindings.subrange(0, a.bindings.len() as int) == a.bindings
    &&& forall|i: int|
        a.bindings.len() <= i < b.bindings.len() ==> (#[trigger] b.bindings[i]).0 == a.current
            || b.bindings[i].0 >= a.parents.len()
}

/// `b` is `a` with scopes and bindings appended, every new binding in a scope `a` did
/// not have.
pub open spec fn extends_fresh(a: EnvModel, b: EnvModel) -> bool {
    &&& b.current == a.current
    &&& a.parents.len() <= b.parents.len()
    &&& b.parents.subrange(0, a.parents.len() as int) == a.parents
    &&& a.bindings.len() <= b.bindings.len()
    &&& b.bindings.subrange(0, a.bindings.len() as int) == a.bindings
    &&& forall|i: int| a.bindings.len() <= i < b.bindings.len() ==> (#[trigger] b.bindings[i]).0 >= a.parents.len()
}

proof fn lemma_extends_refl(a: EnvModel)
    ensures
        extends(a, a),
{
    assert(a.parents.subrange(0, a.parents.len() as int) =~= a.parents);
    assert(a.bindings.subrange(0, a.bindings.len() as int) =~= a.bindings);
}

proof fn lemma_extends_trans(a: EnvModel, b: EnvModel, c: EnvModel)
    requires
        extends(a, b),
        extends(b, c),
    ensures
        extends(a, c),
{
    assert(c.parents.subrange(0, a.parents.len() as int) =~= c.parents.subrange(0, b.parents.len() as int).subrange(
        0,
        a.parents.len() as int,
    ));
    assert(c.bindings.subrange(0, a.bindings.len() as int) =~= c.bindings.subrange(0, b.bindings.len() as int).subrange(
        0,
        a.bindings.len() as int,
    ));
    assert forall|i: int| a.bindings.len() <= i < c.bindings.len() implies (#[trigger] c.bindings[i]).0 == a.current
        || c.bindings[i].0 >= a.parents.len() by {
        if i < b.bindings.len() {
            assert(c.bindings[i] == c.bindings.subrange(0, b.bindings.len() as int)[i]);
        }
    }
}

proof fn lemma_bind_extends(a: EnvModel, name: Seq<char>, v: Value)
    ensures
        extends(a, bind(a, name, v)),
{
    let b = bind(a, name, v);
    assert(b.parents.subrange(0, a.parents.len() as int) =~= a.parents);
    assert(b.bindings.subrange(0, a.bindings.len() as int) =~= a.bindings);
}

proof fn lemma_bind_params_extends(env: EnvModel, ps: Seq<Seq<char>>, args: Seq<Value>, n: nat)
    requires
        n <= ps.len(),
        n <= args.len(),
    ensures
        extends(env, bind_params(env, ps, args, n)),
    decreases n,
{
    if n == 0 {
        lemma_extends_refl(env);
    } else {
        let prev = bind_params(env, ps, args, (n - 1) as nat);
        lemma_bind_params_extends(env, ps, args, (n - 1) as nat);
        lemma_bind_extends(prev, ps[n - 1], args[n - 1]);
        lemma_extends_trans(env, prev, bind_params(env, ps, args, n));
    }
}

proof fn lemma_expr_extends(e: ExprModel, env: EnvModel, fuel: nat)
    ensures
        extends(env, ev_expr(e, env, fuel).1),
    decreases fuel, e, 0nat,
{
    lemma_extends_refl(env);
    match e {
        ExprModel::Prefix(op, r) => {
            lemma_expr_extends(*r, env, fuel);
        },
        ExprModel::Infix(l, op, r) => {
            let (lv, env1) = ev_expr(*l, env, fuel);
            lemma_expr_extends(*l, env, fuel);
            if !stops(lv) {
                lemma_expr_extends(*r, env1, fuel);
                lemma_extends_trans(env, env1, ev_expr(*r, env1, fuel).1);
            }
        },
        ExprModel::Block(items) => {
            lemma_items_extends(items, env, fuel);
        },
        ExprModel::If(c, t, a) => {
            let (cv, env1) = ev_expr(*c, env, fuel);
            lemma_expr_extends(*c, env, fuel);
            lemma_items_extends(t, env1, fuel);
            lemma_extends_trans(env, env1, ev_items(t, env1, fuel).1);
            match a {
                Some(a) => {
                    lemma_items_extends(a, env1, fuel);
                    lemma_extends_trans(env, env1, ev_items(a, env1, fuel).1);
                },
                None => {},
            }
        },
        ExprModel::Call(f, args) => {
            let (fv, env1) = ev_expr(*f, env, fuel);
            lemma_expr_extends(*f, env, fuel);
            if !stops(fv) {
                let (avs, env2) = ev_args(args, env1, fuel);
                lemma_args_extends(args, env1, fuel);
                lemma_extends_trans(env, env1, env2);
                match (avs, fv) {
                    (Ok(vals), Value::Func(ps, body, scope)) => {
                        if fuel > 0 {
                            lemma_apply_fresh(ps, body, scope, vals, env2, (fuel - 1) as nat);
                            lemma_extends_trans(env, env2, apply(ps, body, scope, vals, env2, (fuel - 1) as nat).1);
                        }
                    },
                    _ => {},
                }
            }
        },
        _ => {},
    }
}

proof fn lemma_args_extends(args: Seq<ExprModel>, env: EnvModel, fuel: nat)
    ensures
        extends(env, ev_args(args, env, fuel).1),
    decreases fuel, args, 0nat,
{
    if args.len() == 0 {
        lemma_extends_refl(env);
    } else {
        let front = args.subrange(0, args.len() - 1);
        let (done, env1) = ev_args(front, env, fuel);
        lemma_args_extends(front, env, fuel);
        if done is Ok {
            lemma_expr_extends(args[args.len() - 1], env1, fuel);
            lemma_extends_trans(env, env1, ev_expr(args[args.len() - 1], env1, fuel).1);
        }
    }
}

proof fn lemma_apply_fresh(
    ps: Seq<Seq<char>>,
    body: Seq<NodeModel>,
    scope: nat,
    args: Seq<Value>,
    env: EnvModel,
    fuel: nat,
)
    ensures
        extends_fresh(env, apply(ps, body, scope, args, env, fuel).1),
    decreases fuel, body, 1nat,
{
    let opened = enclose(env, scope);
    let inner = bind_params(opened, ps, args, min(ps.len(), args.len()));
    lemma_bind_params_extends(opened, ps, args, min(ps.len(), args.len()));
    lemma_items_extends(body, inner, fuel);
    let env1 = ev_items(body, inner, fuel).1;
    lemma_extends_trans(opened, inner, env1);
    let r = apply(ps, body, scope, args, env, fuel).1;
    assert(opened.bindings == env.bindings);
    assert(env1.parents.subrange(0, env.parents.len() as int) =~= env1.parents.subrange(0, opened.parents.len() as int).subrange(
        0,
        env.parents.len() as int,
    ));
    assert(opened.parents.subrange(0, env.parents.len() as int) =~= env.parents);
    assert forall|i: int| env.bindings.len() <= i < r.bindings.len() implies (#[trigger] r.bindings[i]).0 >= env.parents.len() by {
        assert(r.bindings[i] == env1.bindings[i]);
    }
}

proof fn lemma_items_extends(items: Seq<NodeModel>, env: EnvModel, fuel: nat)
    ensures
        extends(env, ev_items(items, env, fuel).1),
    decreases fuel, items, 0nat,
{
    if items.len() == 0 {
        lemma_extends_refl(env);
    } else {
        let front = items.subrange(0, items.len() - 1);
        let (v, env1) = ev_items(front, env, fuel);
        lemma_items_extends(front, env, fuel);
        if !stops(v) {
            lemma_node_extends(items[items.len() - 1], env1, fuel);
            lemma_extends_trans(env, env1, ev_node(items[items.len() - 1], env1, fuel).1);
        }
    }
}

proof fn lemma_node_extends(n: NodeModel, env: EnvModel, fuel: nat)
    ensures
        extends(env, ev_node(n, env, fuel).1),
    decreases fuel, n, 0nat,
{
    lemma_extends_refl(env);
    match n {
        NodeModel::Stmt(s) => lemma_stmt_extends(s, env, fuel),
        NodeModel::Expr(_) => {},
    }
}

proof fn lemma_stmt_extends(s: StmtModel, env: EnvModel, fuel: nat)
    ensures
        extends(env, ev_stmt(s, env, fuel).1),
    decreases fuel, s, 0nat,
{
    match s {
        StmtModel::Let(name, e) => {
            let (v, env1) = ev_expr(e, env, fuel);
            lemma_expr_extends(e, env, fuel);
            if !stops(v) {
                lemma_bind_extends(env1, name, v);
                lemma_extends_trans(env, env1, bind(env1, name, v));
            }
        },
        StmtModel::Return(e) => lemma_expr_extends(e, env, fuel),
        StmtModel::Expr(e) => lemma_expr_extends(e, env, fuel),
    }
}

proof fn lemma_scope_lookup_append(a: Seq<(nat, Seq<char>, Value)>, b: Seq<(nat, Seq<char>, Value)>, s: nat, name: Seq<char>)
    requires
        a.len() <= b.len(),
        b.subrange(0, a.len() as int) == a,
        forall|i: int| a.len() <= i < b.len() ==> (#[trigger] b[i]).0 != s,
    ensures
        scope_lookup(b, s, name) == scope_lookup(a, s, name),
    decreases b.len(),
{
    if b.len() > a.len() {
        let front = b.subrange(0, b.len() - 1);
        assert(front.subrange(0, a.len() as int) =~= b.subrange(0, a.len() as int));
        lemma_scope_lookup_append(a, front, s, name);
    } else {
        assert(b =~= b.subrange(0, a.len() as int));
    }
}

proof fn lemma_lookup_from_stable(a: EnvModel, b: EnvModel, s: nat, name: Seq<char>)
    requires
        extends_fresh(a, b),
        s < a.parents.len(),
    ensures
        lookup_from(b, s, name) == lookup_from(a, s, name),
    decreases s,
{
    lemma_scope_lookup_append(a.bindings, b.bindings, s, name);
    assert(b.parents[s as int] == b.parents.subrange(0, a.parents.len() as int)[s as int]);
    match a.parents[s as int] {
        Some(p) => {
            if p < s {
                lemma_lookup_from_stable(a, b, p, name);
            }
        },
        None => {},
    }
}

/// A call binds names only in scopes it opens itself. Seen from any scope that existed
/// before the call, the caller's own among them, every name keeps the value it had: what
/// a function captured is not reachable from its caller, and the caller's bindings are out
/// of the function's reach for writing.
pub proof fn law_call_leaves_existing_scopes(
    ps: Seq<Seq<char>>,
    body: Seq<NodeModel>,
    scope: nat,
    args: Seq<Value>,
    env: EnvModel,
    fuel: nat,
    s: nat,
    name: Seq<char>,
)
    requires
        s < env.parents.len(),
    ensures
        lookup_from(apply(ps, body, scope, args, env, fuel).1, s, name) == lookup_from(env, s, name),
        apply(ps, body, scope, args, env, fuel).1.current == env.current,
{
    lemma_apply_fresh(ps, body, scope, args, env, fuel);
    lemma_lookup_from_stable(env, apply(ps, body, scope, args, env, fuel).1, s, name);
}

// ---------------------------------------------------------------------------
// Precedence and associativity.

/// The three operands and two operators of `a op1 b op2 c`.
pub open spec fn chain_shape(toks: Seq<Token>) -> bool {
    &&& toks.len() == 6
    &&& toks[0].token_type == TokenType::IDENT
    &&& toks[2].token_type == TokenType::IDENT
    &&& toks[4].token_type == TokenType::IDENT
    &&& toks[5].token_type == TokenType::EOF
    &&& prec_of(toks[1].token_type) > 0 && toks[1].token_type != TokenType::LPAREN
    &&& prec_of(toks[3].token_type) > 0 && toks[3].token_type != TokenType::LPAREN
}

pub open spec fn at(errors: Seq<Seq<char>>, pos: nat) -> ParseState {
    ParseState { pos, errors }
}

pub open spec fn operand(toks: Seq<Token>, i: int) -> Box<ExprModel> {
    Box::new(ExprModel::Ident(toks[i].literal@))
}

/// In `a op1 b op2 c`, an operator binds its neighbours first when it binds more tightly;
/// between operators that bind alike, the left one goes first. So `a + b * c` is
/// `a + (b * c)`, while `a - b + c` is `(a - b) + c` and `a * b + c` is `(a * b) + c`.
pub proof fn law_operator_chain(toks: Seq<Token>, errors: Seq<Seq<char>>)
    requires
        chain_shape(toks),
    ensures
        p_expression(toks, 0, at(errors, 0)) == (
            Ok::<ExprModel, Seq<char>>(
                if prec_of(toks[1].token_type) >= prec_of(toks[3].token_type) {
                    ExprModel::Infix(
                        Box::new(ExprModel::Infix(operand(toks, 0), toks[1].literal@, operand(toks, 2))),
                        toks[3].literal@,
                        operand(toks, 4),
                    )
                } else {
                    ExprModel::Infix(
                        operand(toks, 0),
                        toks[1].literal@,
                        Box::new(ExprModel::Infix(operand(toks, 2), toks[3].literal@, operand(toks, 4))),
                    )
                },
            ),
            at(errors, 4),
        ),
{
    let p1 = prec_of(toks[1].token_type);
    let p2 = prec_of(toks[3].token_type);
    let a = *operand(toks, 0);
    let b = *operand(toks, 2);
    let c = *operand(toks, 4);
    let s0 = at(errors, 0);
    let s2 = at(errors, 2);
    let s4 = at(errors, 4);
    assert(p_prefix(toks, s0) == (Ok::<ExprModel, Seq<char>>(a), s0));
    assert(p_prefix(toks, s2) == (Ok::<ExprModel, Seq<char>>(b), s2));
    assert(p_prefix(toks, s4) == (Ok::<ExprModel, Seq<char>>(c), s4));
    assert(p_infix_loop(toks, p2, c, s4) == (Ok::<ExprModel, Seq<char>>(c), s4));
    assert(p_expression(toks, p2, s4) == (Ok::<ExprModel, Seq<char>>(c), s4));
    let bc = ExprModel::Infix(Box::new(b), toks[3].literal@, Box::new(c));
    assert(p_infix(toks, b, s2) == (Ok::<ExprModel, Seq<char>>(bc), s4));
    if p1 < p2 {
        assert(p_infix_loop(toks, p1, bc, s4) == (Ok::<ExprModel, Seq<char>>(bc), s4));
        assert(p_infix_loop(toks, p1, b, s2) == (Ok::<ExprModel, Seq<char>>(bc), s4));
        assert(p_expression(toks, p1, s2) == (Ok::<ExprModel, Seq<char>>(bc), s4));
        let whole = ExprModel::Infix(Box::new(a), toks[1].literal@, Box::new(bc));
        assert(p_infix(toks, a, s0) == (Ok::<ExprModel, Seq<char>>(whole), s4));
        assert(p_infix_loop(toks, 0, whole, s4) == (Ok::<ExprModel, Seq<char>>(whole), s4));
        assert(p_infix_loop(toks, 0, a, s0) == (Ok::<ExprModel, Seq<char>>(whole), s4));
    } else {
        assert(p_infix_loop(toks, p1, b, s2) == (Ok::<ExprModel, Seq<char>>(b), s2));
        assert(p_expression(toks, p1, s2) == (Ok::<ExprModel, Seq<char>>(b), s2));
        let ab = ExprModel::Infix(Box::new(a), toks[1].literal@, Box::new(b));
        assert(p_infix(toks, a, s0) == (Ok::<ExprModel, Seq<char>>(ab), s2));
        let whole = ExprModel::Infix(Box::new(ab), toks[3].literal@, Box::new(c));
        assert(p_infix(toks, ab, s2) == (Ok::<ExprModel, Seq<char>>(whole), s4));
        assert(p_infix_loop(toks, 0, whole, s4) == (Ok::<ExprModel, Seq<char>>(whole), s4));
        assert(p_infix_loop(toks, 0, ab, s2) == (Ok::<ExprModel, Seq<char>>(whole), s4));
        assert(p_infix_loop(toks, 0, a, s0) == (Ok::<ExprModel, Seq<char>>(whole), s4));
    }
}

} // verus!
