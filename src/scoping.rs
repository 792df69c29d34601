use crate::eval::{
    arity_calls, bind, eval_args_spec, eval_body_spec, eval_expr_spec, EvalError, HostCall,
};
use crate::value::{Ast, Value};
use vstd::prelude::*;

verus! {

/// Whether evaluating `a` in a scope may bind `x` in that same scope: a
/// `Define` of `x` outside any function body.
pub open spec fn may_define(a: Ast, x: u64) -> bool
    decreases a, 0nat,
{
    match a {
        Ast::Lit(_) => false,
        Ast::Variable(_) => false,
        Ast::Define(id, e) => id == x || may_define(*e, x),
        Ast::Call(f, args) => may_define(*f, x) || any_may_define(args@, args@.len(), x),
    }
}

/// Whether one of the first `k` of `s` may bind `x`.
pub open spec fn any_may_define(s: Seq<Ast>, k: nat, x: u64) -> bool
    decreases s, k,
{
    if k == 0 || s.len() < k {
        false
    } else {
        any_may_define(s, (k - 1) as nat, x) || may_define(s[k - 1], x)
    }
}

/// Evaluation depends on the bindings and the natives' results alone: the
/// same tree in scopes with the same bindings gives the same result and
/// leaves the same scope.
pub proof fn lemma_eval_deterministic(
    a: Ast,
    env1: Map<u64, Value>,
    env2: Map<u64, Value>,
    depth: nat,
    outs: Seq<Value>,
)
    requires
        env1 =~= env2,
    ensures
        eval_expr_spec(a, env1, depth, outs) == eval_expr_spec(a, env2, depth, outs),
{
}

proof fn lemma_any_may_define_prefix(s: Seq<Ast>, j: nat, k: nat, x: u64)
    requires
        j <= k <= s.len(),
        !any_may_define(s, k, x),
    ensures
        !any_may_define(s, j, x),
    decreases k,
{
    if j < k {
        lemma_any_may_define_prefix(s, j, (k - 1) as nat, x);
    }
}

/// Snapshot scoping: evaluating an expression with no `Define` of `x`
/// outside function bodies leaves `x` unbound where it was unbound, whatever
/// the functions it calls define and whatever the natives return.
pub proof fn lemma_call_isolates_scope(
    a: Ast,
    env: Map<u64, Value>,
    depth: nat,
    outs: Seq<Value>,
    x: u64,
)
    requires
        !may_define(a, x),
        !env.contains_key(x),
    ensures
        eval_expr_spec(a, env, depth, outs) is Some ==> !eval_expr_spec(
            a,
            env,
            depth,
            outs,
        )->Some_0.1.contains_key(x),
    decreases depth, a, 0nat,
{
    match a {
        Ast::Define(id, e) => {
            lemma_call_isolates_scope(*e, env, depth, outs, x);
        },
        Ast::Call(f, args) => {
            lemma_call_isolates_scope(*f, env, depth, outs, x);
            if let Some((Ok(fv), env1, outs1, _)) = eval_expr_spec(*f, env, depth, outs) {
                match fv {
                    Value::Function(params, body) => {
                        if depth > 0 {
                            let n = if params@.len() <= args@.len() {
                                params@.len()
                            } else {
                                args@.len()
                            };
                            lemma_any_may_define_prefix(args@, n, args@.len(), x);
                            lemma_args_isolate_scope(args@, n, env1, depth, outs1, x);
                        }
                    },
                    Value::InbuiltFunc(_) => {
                        lemma_args_isolate_scope(args@, args@.len(), env1, depth, outs1, x);
                    },
                    _ => {},
                }
            }
        },
        _ => {},
    }
}

proof fn lemma_args_isolate_scope(
    s: Seq<Ast>,
    k: nat,
    env: Map<u64, Value>,
    depth: nat,
    outs: Seq<Value>,
    x: u64,
)
    requires
        k <= s.len(),
        !any_may_define(s, k, x),
        !env.contains_key(x),
    ensures
        eval_args_spec(s, k, env, depth, outs) is Some ==> !eval_args_spec(
            s,
            k,
            env,
            depth,
            outs,
        )->Some_0.1.contains_key(x),
    decreases depth, s, k,
{
    if k > 0 {
        lemma_args_isolate_scope(s, (k - 1) as nat, env, depth, outs, x);
        if let Some((Ok(_), env1, outs1, _)) = eval_args_spec(s, (k - 1) as nat, env, depth, outs) {
            lemma_call_isolates_scope(s[k - 1], env1, depth, outs1, x);
        }
    }
}

proof fn lemma_literal_args(s: Seq<Ast>, k: nat, env: Map<u64, Value>, depth: nat, outs: Seq<Value>)
    requires
        k <= s.len(),
        forall|i: int| 0 <= i < s.len() ==> (#[trigger] s[i]) is Lit,
    ensures
        eval_args_spec(s, k, env, depth, outs) matches Some((Ok(vals), m, rest, cs)) && m == env
            && rest == outs && cs.len() == 0 && vals.len() == k && forall|i: int|
            0 <= i < k ==> vals[i] == (#[trigger] s[i])->Lit_0,
    decreases k,
{
    if k > 0 {
        lemma_literal_args(s, (k - 1) as nat, env, depth, outs);
        let vals = eval_args_spec(s, (k - 1) as nat, env, depth, outs).unwrap().0->Ok_0;
        let last = s[k - 1];
        assert(last is Lit);
        assert(eval_expr_spec(last, env, depth, outs) == Some(
            (Ok::<Value, EvalError>(last->Lit_0), env, outs, Seq::<HostCall>::empty()),
        ));
        let r = eval_args_spec(s, k, env, depth, outs).unwrap();
        assert(r.0->Ok_0 == vals.push(last->Lit_0));
        assert(r.3 =~= Seq::<HostCall>::empty() + Seq::<HostCall>::empty());
        assert forall|i: int| 0 <= i < k implies r.0->Ok_0[i] == (#[trigger] s[i])->Lit_0 by {
            if i < k - 1 {
                assert(r.0->Ok_0[i] == vals[i]);
            }
        }
    }
}

proof fn lemma_bind_keeps_unbound(
    env: Map<u64, Value>,
    params: Seq<u64>,
    vals: Seq<Value>,
    n: nat,
    y: u64,
)
    requires
        n <= params.len(),
        !params.contains(y),
    ensures
        bind(env, params, vals, n).contains_key(y) == env.contains_key(y),
        bind(env, params, vals, n)[y] == env[y],
    decreases n,
{
    if n > 0 {
        assert(params[n - 1] != y);
        lemma_bind_keeps_unbound(env, params, vals, (n - 1) as nat, y);
    }
}

/// Dynamic scoping: a function that reads a name other than its parameters,
/// called with literal arguments, sees that name's binding in the caller's
/// scope at the time of the call; the caller's scope stays as it was.
pub proof fn lemma_free_name_from_caller(
    a: Ast,
    env: Map<u64, Value>,
    depth: nat,
    outs: Seq<Value>,
    y: u64,
)
    requires
        depth > 0,
        a matches Ast::Call(f, args) && (forall|i: int|
            0 <= i < args@.len() ==> (#[trigger] args@[i]) is Lit) && (*f matches Ast::Lit(
            Value::Function(params, body),
        ) && !params@.contains(y) && body@ == seq![Ast::Variable(y)]),
        env.contains_key(y),
    ensures
        eval_expr_spec(a, env, depth, outs) matches Some((r, m, rest, _)) && r == Ok::<
            Value,
            EvalError,
        >(env[y]) && m == env && rest == outs,
{
    if let Ast::Call(f, args) = a {
        if let Ast::Lit(Value::Function(params, body)) = *f {
            let n = if params@.len() <= args@.len() {
                params@.len()
            } else {
                args@.len()
            };
            assert(eval_expr_spec(*f, env, depth, outs) == Some(
                (
                    Ok::<Value, EvalError>(Value::Function(params, body)),
                    env,
                    outs,
                    Seq::<HostCall>::empty(),
                ),
            ));
            lemma_literal_args(args@, n, env, depth, outs);
            let vals = eval_args_spec(args@, n, env, depth, outs).unwrap().0->Ok_0;
            let scope = bind(env, params@, vals, n);
            lemma_bind_keeps_unbound(env, params@, vals, n, y);
            let d1 = (depth - 1) as nat;
            assert(eval_body_spec(body@, 0, scope, d1, outs) == Some(
                (Ok::<Value, EvalError>(Value::Void), scope, outs, Seq::<HostCall>::empty()),
            ));
            assert(body@[0] == Ast::Variable(y));
            assert(eval_expr_spec(body@[0], scope, d1, outs) == Some(
                (Ok::<Value, EvalError>(env[y]), scope, outs, Seq::<HostCall>::empty()),
            ));
            assert(eval_body_spec(body@, 1, scope, d1, outs) matches Some((r, _, rest, _)) && r
                == Ok::<Value, EvalError>(env[y]) && rest == outs);
        }
    }
}

/// Statements of a body see what the statements before them defined: after
/// `(= x e)`, a later `x` reads the value of `e`, whether `e` called native
/// functions or not.
pub proof fn lemma_body_sees_earlier_define(
    body: Seq<Ast>,
    env: Map<u64, Value>,
    depth: nat,
    outs: Seq<Value>,
    x: u64,
)
    requires
        body.len() == 2,
        body[0] matches Ast::Define(id, e) && id == x && eval_expr_spec(*e, env, depth, outs) matches Some((Ok(_), _, _, _)),
        body[1] == Ast::Variable(x),
    ensures
        ({
            let (ev, env1, outs1, _) = eval_expr_spec(*body[0]->Define_1, env, depth, outs).unwrap();
            eval_body_spec(body, 2, env, depth, outs) matches Some((r, m, rest, _)) && r == ev
                && m == env1.insert(x, ev->Ok_0) && rest == outs1
        }),
{
    let e = body[0]->Define_1;
    let (ev, env1, outs1, c1) = eval_expr_spec(*e, env, depth, outs).unwrap();
    let v = ev->Ok_0;
    assert(eval_body_spec(body, 0, env, depth, outs) == Some(
        (Ok::<Value, EvalError>(Value::Void), env, outs, Seq::<HostCall>::empty()),
    ));
    assert(eval_expr_spec(body[0], env, depth, outs) == Some(
        (Ok::<Value, EvalError>(Value::Void), env1.insert(x, v), outs1, c1),
    ));
    assert(eval_expr_spec(body[1], env1.insert(x, v), depth, outs1) == Some(
        (Ok::<Value, EvalError>(v), env1.insert(x, v), outs1, Seq::<HostCall>::empty()),
    ));
    let b1 = eval_body_spec(body, 1, env, depth, outs);
    assert(b1 == Some(
        (Ok::<Value, EvalError>(Value::Void), env1.insert(x, v), outs1, Seq::<HostCall>::empty() + c1),
    ));
    assert(eval_body_spec(body, 2, env, depth, outs) == Some(
        (Ok::<Value, EvalError>(v), env1.insert(x, v), outs1, (Seq::<HostCall>::empty() + c1) + Seq::<HostCall>::empty()),
    ));
}

} // verus!
