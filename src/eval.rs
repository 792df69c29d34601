use crate::value::{Ast, Value};
use std::collections::HashMap;
use vstd::prelude::*;

verus! {

broadcast use vstd::std_specs::hash::group_hash_axioms;

/// Why an evaluation stopped.
#[derive(PartialEq, Eq, Structural, Debug, Clone, Copy)]
pub enum EvalError {
    /// A variable was read that the active scope does not bind.
    UndefinedVariable(u64),
    /// The callee of a call was neither a function nor a native function.
    NotAFunction,
    /// Function calls nested deeper than the depth the evaluation was given.
    TooDeep,
}

/// The call depth that `eval` allows; the host's stack runs out long before.
pub const MAX_DEPTH: u64 = 0xFFFF_FFFF_FFFF_FFFF;

/// What the host provides: its native functions, and where a call with the
/// wrong number of arguments is reported.
pub trait Host {
    /// Runs the native function known by `key` on the evaluated arguments.
    fn call_native(&mut self, key: u64, args: &Vec<Value>) -> Value;

    /// Told of a call to a function of `expected` parameters with `got`
    /// arguments; the evaluation goes on with the shorter of the two.
    fn arity_mismatch(&mut self, expected: usize, got: usize);
}

/// What the evaluator hands to the host, in the order it does so.
pub enum HostCall {
    /// The native function `key` was run on these argument values.
    Native(u64, Seq<Value>),
    /// A function of this many parameters was called with this many arguments.
    ArityMismatch(nat, nat),
}

/// The result of evaluating something, the scope afterwards, the results of
/// native functions not yet used, and what was handed to the host; `None`
/// where a native function is called and no result is left for it.
pub type Outcome<T> = Option<(Result<T, EvalError>, Map<u64, Value>, Seq<Value>, Seq<HostCall>)>;

/// `env` with `params[i]` bound to `vals[i]` for each `i < n`, in order, so
/// that a later binding of a repeated name wins.
pub open spec fn bind(env: Map<u64, Value>, params: Seq<u64>, vals: Seq<Value>, n: nat) -> Map<
    u64,
    Value,
>
    decreases n,
{
    if n == 0 {
        env
    } else {
        bind(env, params, vals, (n - 1) as nat).insert(params[n - 1], vals[n - 1])
    }
}

/// The diagnostic owed for a call of a function of `p` parameters with `a`
/// arguments.
pub open spec fn arity_calls(p: nat, a: nat) -> Seq<HostCall> {
    if p != a {
        seq![HostCall::ArityMismatch(p, a)]
    } else {
        Seq::empty()
    }
}

/// Evaluation of `a` in the scope `env`, with function calls allowed to nest
/// `depth` deep, where the native functions called return the values of
/// `outs`, one each, in order.
pub open spec fn eval_expr_spec(a: Ast, env: Map<u64, Value>, depth: nat, outs: Seq<Value>) -> Outcome<
    Value,
>
    decreases depth, a, 0nat,
{
    match a {
        Ast::Lit(v) => Some((Ok(v), env, outs, Seq::empty())),
        Ast::Variable(id) => if env.contains_key(id) {
            Some((Ok(env[id]), env, outs, Seq::empty()))
        } else {
            Some((Err(EvalError::UndefinedVariable(id)), env, outs, Seq::empty()))
        },
        Ast::Define(id, e) => match eval_expr_spec(*e, env, depth, outs) {
            Some((Ok(v), env1, outs1, cs1)) => Some(
                (Ok(Value::Void), env1.insert(id, v), outs1, cs1),
            ),
            other => other,
        },
        Ast::Call(f, args) => match eval_expr_spec(*f, env, depth, outs) {
            Some((Ok(fv), env1, outs1, cs1)) => match fv {
                Value::Function(params, body) => if depth == 0 {
                    Some((Err(EvalError::TooDeep), env1, outs1, cs1))
                } else {
                    let n = if params@.len() <= args@.len() {
                        params@.len()
                    } else {
                        args@.len()
                    };
                    let ar = arity_calls(params@.len(), args@.len());
                    match eval_args_spec(args@, n, env1, depth, outs1) {
                        Some((Ok(vals), env2, outs2, cs2)) => match eval_body_spec(
                            body@,
                            body@.len(),
                            bind(env1, params@, vals, n),
                            (depth - 1) as nat,
                            outs2,
                        ) {
                            Some((r, _, outs3, cs3)) => Some((r, env2, outs3, cs1 + ar + cs2 + cs3)),
                            None => None,
                        },
                        Some((Err(e), env2, outs2, cs2)) => Some((Err(e), env2, outs2, cs1 + ar + cs2)),
                        None => None,
                    }
                },
                Value::InbuiltFunc(key) => match eval_args_spec(
                    args@,
                    args@.len(),
                    env1,
                    depth,
                    outs1,
                ) {
                    Some((Ok(vals), env2, outs2, cs2)) => if outs2.len() > 0 {
                        Some(
                            (
                                Ok(outs2[0]),
                                env2,
                                outs2.drop_first(),
                                cs1 + cs2 + seq![HostCall::Native(key, vals)],
                            ),
                        )
                    } else {
                        None
                    },
                    Some((Err(e), env2, outs2, cs2)) => Some((Err(e), env2, outs2, cs1 + cs2)),
                    None => None,
                },
                _ => Some((Err(EvalError::NotAFunction), env1, outs1, cs1)),
            },
            other => other,
        },
    }
}

/// Evaluation of the first `k` of `s` from left to right, each in the scope
/// that the one before left, collecting their values.
pub open spec fn eval_args_spec(
    s: Seq<Ast>,
    k: nat,
    env: Map<u64, Value>,
    depth: nat,
    outs: Seq<Value>,
) -> Outcome<Seq<Value>>
    decreases depth, s, k,
{
    if k == 0 || s.len() < k {
        Some((Ok(Seq::empty()), env, outs, Seq::empty()))
    } else {
        match eval_args_spec(s, (k - 1) as nat, env, depth, outs) {
            Some((Ok(vals), env1, outs1, cs1)) => match eval_expr_spec(s[k - 1], env1, depth, outs1) {
                Some((Ok(v), env2, outs2, cs2)) => Some((Ok(vals.push(v)), env2, outs2, cs1 + cs2)),
                Some((Err(e), env2, outs2, cs2)) => Some((Err(e), env2, outs2, cs1 + cs2)),
                None => None,
            },
            Some((Err(e), env1, outs1, cs1)) => Some((Err(e), env1, outs1, cs1)),
            None => None,
        }
    }
}

/// Evaluation of the first `k` statements of a body in turn, each seeing what
/// the ones before defined; the value is the last one's, `Void` for none.
pub open spec fn eval_body_spec(
    s: Seq<Ast>,
    k: nat,
    env: Map<u64, Value>,
    depth: nat,
    outs: Seq<Value>,
) -> Outcome<Value>
    decreases depth, s, k,
{
    if k == 0 || s.len() < k {
        Some((Ok(Value::Void), env, outs, Seq::empty()))
    } else {
        match eval_body_spec(s, (k - 1) as nat, env, depth, outs) {
            Some((Ok(_), env1, outs1, cs1)) => match eval_expr_spec(s[k - 1], env1, depth, outs1) {
                Some((r, env2, outs2, cs2)) => Some((r, env2, outs2, cs1 + cs2)),
                None => None,
            },
            other => other,
        }
    }
}

/// Whether an evaluation ended with result `r` and scope `m`, having used
/// every native result it was given.
pub open spec fn ends_with<T>(o: Outcome<T>, r: Result<T, EvalError>, m: Map<u64, Value>) -> bool {
    match o {
        Some((res, m2, rest, _)) => res == r && m2 == m && rest.len() == 0,
        None => false,
    }
}

/// The values in a result of argument evaluation.
pub open spec fn vals_view(r: Result<Vec<Value>, EvalError>) -> Result<Seq<Value>, EvalError> {
    match r {
        Ok(v) => Ok(v@),
        Err(e) => Err(e),
    }
}

/// Evaluates `program` in `variables` with function calls allowed to nest
/// `depth` deep. A `Define` changes `variables`; a call works on a copy.
/// The result and the scope afterwards are what the language gives, with
/// each native function's result the value that the host returned.
pub fn eval_with_depth<H: Host>(
    program: &Ast,
    variables: &mut HashMap<u64, Value>,
    host: &mut H,
    depth: u64,
) -> (r: Result<Value, EvalError>)
    ensures
        exists|outs: Seq<Value>|
            ends_with(
                #[trigger] eval_expr_spec(*program, old(variables)@, depth as nat, outs),
                r,
                final(variables)@,
            ),
{
    let (r, Ghost(outs), Ghost(calls)) = eval_in(program, variables, host, depth);
    proof {
        assert(outs + Seq::<Value>::empty() =~= outs);
        assert(ends_with(
            eval_expr_spec(*program, old(variables)@, depth as nat, outs + Seq::<Value>::empty()),
            r,
            variables@,
        ));
    }
    r
}

/// Evaluates `program` in `variables`: the evaluation of the language, with
/// no bound on call depth but the host's stack.
pub fn eval<H: Host>(program: &Ast, variables: &mut HashMap<u64, Value>, host: &mut H) -> (r:
    Result<Value, EvalError>)
    ensures
        exists|outs: Seq<Value>|
            ends_with(
                #[trigger] eval_expr_spec(*program, old(variables)@, MAX_DEPTH as nat, outs),
                r,
                final(variables)@,
            ),
{
    eval_with_depth(program, variables, host, MAX_DEPTH)
}

/// Evaluates `program`, giving also the native results it used and what it
/// handed to the host: with any later results after them, the language
/// gives the same.
fn eval_in<H: Host>(
    program: &Ast,
    variables: &mut HashMap<u64, Value>,
    host: &mut H,
    depth: u64,
) -> (r: (Result<Value, EvalError>, Ghost<Seq<Value>>, Ghost<Seq<HostCall>>))
    ensures
        forall|rest: Seq<Value>|
            #[trigger] eval_expr_spec(*program, old(variables)@, depth as nat, r.1@ + rest) == Some(
                (r.0, final(variables)@, rest, r.2@),
            ),
    decreases depth, *program, 0nat,
{
    let ghost env0 = variables@;
    let ghost none = Seq::<Value>::empty();
    match program {
        Ast::Lit(v) => {
            assert forall|rest: Seq<Value>| none + rest == rest by {
                assert(none + rest =~= rest);
            }
            assert forall|rest: Seq<Value>|
                eval_expr_spec(*program, env0, depth as nat, none + rest) == Some(
                    (Ok::<Value, EvalError>(*v), env0, rest, Seq::<HostCall>::empty()),
                ) by {
                assert(none + rest =~= rest);
                assert(eval_expr_spec(*program, env0, depth as nat, none + rest) == Some(
                    (Ok::<Value, EvalError>(*v), env0, none + rest, Seq::<HostCall>::empty()),
                ));
            }
            (Ok(v.share()), Ghost(none), Ghost(Seq::empty()))
        },
        Ast::Variable(id) => {
            assert forall|rest: Seq<Value>| none + rest == rest by {
                assert(none + rest =~= rest);
            }
            assert forall|rest: Seq<Value>|
                #[trigger] eval_expr_spec(*program, env0, depth as nat, none + rest) == Some(
                    (
                        if env0.contains_key(*id) {
                            Ok::<Value, EvalError>(env0[*id])
                        } else {
                            Err(EvalError::UndefinedVariable(*id))
                        },
                        env0,
                        rest,
                        Seq::<HostCall>::empty(),
                    ),
                ) by {
                assert(none + rest =~= rest);
            }
            match variables.get(id) {
                Some(v) => (Ok(v.share()), Ghost(none), Ghost(Seq::empty())),
                None => (Err(EvalError::UndefinedVariable(*id)), Ghost(none), Ghost(Seq::empty())),
            }
        },
        Ast::Define(id, e) => {
            let (er, Ghost(o1), Ghost(c1)) = eval_in(e, variables, host, depth);
            let ghost env1 = variables@;
            let v = match er {
                Ok(v) => v,
                Err(err) => {
                    assert forall|rest: Seq<Value>|
                        #[trigger] eval_expr_spec(*program, env0, depth as nat, o1 + rest) == Some(
                            (Err::<Value, EvalError>(err), env1, rest, c1),
                        ) by {
                        assert(eval_expr_spec(**e, env0, depth as nat, o1 + rest) == Some(
                            (Err::<Value, EvalError>(err), env1, rest, c1),
                        ));
                    }
                    return (Err(err), Ghost(o1), Ghost(c1));
                },
            };
            let ghost v0 = v;
            variables.insert(*id, v);
            assert forall|rest: Seq<Value>|
                #[trigger] eval_expr_spec(*program, env0, depth as nat, o1 + rest) == Some(
                    (Ok::<Value, EvalError>(Value::Void), variables@, rest, c1),
                ) by {
                assert(eval_expr_spec(**e, env0, depth as nat, o1 + rest) == Some(
                    (Ok::<Value, EvalError>(v0), env1, rest, c1),
                ));
            }
            (Ok(Value::Void), Ghost(o1), Ghost(c1))
        },
        Ast::Call(f, args) => {
            let (fr, Ghost(o1), Ghost(c1)) = eval_in(f, variables, host, depth);
            let ghost env1 = variables@;
            assert forall|rest: Seq<Value>|
                #[trigger] eval_expr_spec(**f, env0, depth as nat, o1 + rest) == Some(
                    (fr, env1, rest, c1),
                ) by {
            }
            let fv = match fr {
                Ok(v) => v,
                Err(err) => {
                    assert forall|rest: Seq<Value>|
                        #[trigger] eval_expr_spec(*program, env0, depth as nat, o1 + rest) == Some(
                            (Err::<Value, EvalError>(err), env1, rest, c1),
                        ) by {
                        assert(eval_expr_spec(**f, env0, depth as nat, o1 + rest) == Some(
                            (fr, env1, rest, c1),
                        ));
                    }
                    return (Err(err), Ghost(o1), Ghost(c1));
                },
            };
            let ghost fv0 = fv;
            assert forall|rest: Seq<Value>|
                #[trigger] eval_expr_spec(**f, env0, depth as nat, o1 + rest) == Some(
                    (Ok::<Value, EvalError>(fv0), env1, rest, c1),
                ) by {
            }
            match fv {
                Value::Function(params, body) => {
                    if depth == 0 {
                        assert forall|rest: Seq<Value>|
                            #[trigger] eval_expr_spec(*program, env0, depth as nat, o1 + rest) == Some(
                                (Err::<Value, EvalError>(EvalError::TooDeep), env1, rest, c1),
                            ) by {
                            assert(eval_expr_spec(**f, env0, depth as nat, o1 + rest) == Some(
                                (Ok::<Value, EvalError>(fv0), env1, rest, c1),
                            ));
                        }
                        return (Err(EvalError::TooDeep), Ghost(o1), Ghost(c1));
                    }
                    let mut scope = variables.clone();
                    let ghost ar = arity_calls(params@.len(), args@.len());
                    if params.len() != args.len() {
                        host.arity_mismatch(params.len(), args.len());
                    }
                    let n: usize = if params.len() <= args.len() {
                        params.len()
                    } else {
                        args.len()
                    };
                    let (vr, Ghost(o2), Ghost(c2)) = eval_args(args, n, variables, host, depth);
                    let ghost env2 = variables@;
                    let vals = match vr {
                        Ok(vals) => vals,
                        Err(err) => {
                            assert forall|rest: Seq<Value>|
                                #[trigger] eval_expr_spec(*program, env0, depth as nat, (o1 + o2) + rest)
                                    == Some((Err::<Value, EvalError>(err), env2, rest, c1 + ar + c2)) by {
                                assert((o1 + o2) + rest =~= o1 + (o2 + rest));
                                assert(eval_expr_spec(**f, env0, depth as nat, o1 + (o2 + rest)) == Some(
                                    (Ok::<Value, EvalError>(Value::Function(params, body)), env1, o2 + rest, c1),
                                ));
                                assert(eval_args_spec(args@, n as nat, env1, depth as nat, o2 + rest) == Some(
                                    (Err::<Seq<Value>, EvalError>(err), env2, rest, c2),
                                ));
                            }
                            return (Err(err), Ghost(o1 + o2), Ghost(c1 + ar + c2));
                        },
                    };
                    let mut i: usize = 0;
                    while i < n
                        invariant
                            i <= n,
                            n <= params@.len(),
                            vals@.len() == n,
                            scope@ == bind(env1, params@, vals@, i as nat),
                        decreases n - i,
                    {
                        scope.insert(params[i], vals[i].share());
                        i = i + 1;
                    }
                    let ghost scope0 = scope@;
                    let (br, Ghost(o3), Ghost(c3)) = eval_body(&body, body.len(), &mut scope, host, depth - 1);
                    assert forall|rest: Seq<Value>|
                        #[trigger] eval_expr_spec(*program, env0, depth as nat, (o1 + o2 + o3) + rest)
                            == Some((br, env2, rest, c1 + ar + c2 + c3)) by {
                        assert((o1 + o2 + o3) + rest =~= o1 + (o2 + (o3 + rest)));
                        assert(eval_expr_spec(**f, env0, depth as nat, o1 + (o2 + (o3 + rest))) == Some(
                            (Ok::<Value, EvalError>(Value::Function(params, body)), env1, o2 + (o3 + rest), c1),
                        ));
                        assert(eval_args_spec(args@, n as nat, env1, depth as nat, o2 + (o3 + rest)) == Some(
                            (Ok::<Seq<Value>, EvalError>(vals@), env2, o3 + rest, c2),
                        ));
                        assert(eval_body_spec(body@, body@.len(), scope0, (depth - 1) as nat, o3 + rest) == Some(
                            (br, scope@, rest, c3),
                        ));
                    }
                    (br, Ghost(o1 + o2 + o3), Ghost(c1 + ar + c2 + c3))
                },
                Value::InbuiltFunc(key) => {
                    let (vr, Ghost(o2), Ghost(c2)) = eval_args(args, args.len(), variables, host, depth);
                    let ghost env2 = variables@;
                    let vals = match vr {
                        Ok(vals) => vals,
                        Err(err) => {
                            assert forall|rest: Seq<Value>|
                                #[trigger] eval_expr_spec(*program, env0, depth as nat, (o1 + o2) + rest)
                                    == Some((Err::<Value, EvalError>(err), env2, rest, c1 + c2)) by {
                                assert((o1 + o2) + rest =~= o1 + (o2 + rest));
                                assert(eval_expr_spec(**f, env0, depth as nat, o1 + (o2 + rest)) == Some(
                                    (Ok::<Value, EvalError>(Value::InbuiltFunc(key)), env1, o2 + rest, c1),
                                ));
                                assert(eval_args_spec(args@, args@.len(), env1, depth as nat, o2 + rest) == Some(
                                    (Err::<Seq<Value>, EvalError>(err), env2, rest, c2),
                                ));
                            }
                            return (Err(err), Ghost(o1 + o2), Ghost(c1 + c2));
                        },
                    };
                    let out = host.call_native(key, &vals);
                    let ghost o3 = seq![out];
                    let ghost c3 = seq![HostCall::Native(key, vals@)];
                    assert forall|rest: Seq<Value>|
                        #[trigger] eval_expr_spec(*program, env0, depth as nat, (o1 + o2 + o3) + rest)
                            == Some((Ok::<Value, EvalError>(out), env2, rest, c1 + c2 + c3)) by {
                        assert((o1 + o2 + o3) + rest =~= o1 + (o2 + (o3 + rest)));
                        assert((o3 + rest).drop_first() =~= rest);
                        assert(eval_expr_spec(**f, env0, depth as nat, o1 + (o2 + (o3 + rest))) == Some(
                            (Ok::<Value, EvalError>(Value::InbuiltFunc(key)), env1, o2 + (o3 + rest), c1),
                        ));
                        assert(eval_args_spec(args@, args@.len(), env1, depth as nat, o2 + (o3 + rest))
                            == Some((Ok::<Seq<Value>, EvalError>(vals@), env2, o3 + rest, c2)));
                    }
                    (Ok(out), Ghost(o1 + o2 + o3), Ghost(c1 + c2 + c3))
                },
                _ => {
                    assert forall|rest: Seq<Value>|
                        #[trigger] eval_expr_spec(*program, env0, depth as nat, o1 + rest) == Some(
                            (Err::<Value, EvalError>(EvalError::NotAFunction), env1, rest, c1),
                        ) by {
                        assert(eval_expr_spec(**f, env0, depth as nat, o1 + rest) == Some(
                            (Ok::<Value, EvalError>(fv0), env1, rest, c1),
                        ));
                    }
                    (Err(EvalError::NotAFunction), Ghost(o1), Ghost(c1))
                },
            }
        },
    }
}

fn eval_args<H: Host>(
    args: &Vec<Ast>,
    k: usize,
    variables: &mut HashMap<u64, Value>,
    host: &mut H,
    depth: u64,
) -> (r: (Result<Vec<Value>, EvalError>, Ghost<Seq<Value>>, Ghost<Seq<HostCall>>))
    requires
        k <= args@.len(),
    ensures
        r.0 is Ok ==> r.0->Ok_0@.len() == k,
        forall|rest: Seq<Value>|
            #[trigger] eval_args_spec(args@, k as nat, old(variables)@, depth as nat, r.1@ + rest)
                == Some((vals_view(r.0), final(variables)@, rest, r.2@)),
    decreases depth, args@, k,
{
    let ghost env0 = variables@;
    if k == 0 {
        let ghost none = Seq::<Value>::empty();
        assert forall|rest: Seq<Value>| none + rest == rest by {
            assert(none + rest =~= rest);
        }
        let vals: Vec<Value> = Vec::new();
        assert(vals@ =~= Seq::<Value>::empty());
        return (Ok(vals), Ghost(none), Ghost(Seq::empty()));
    }
    let (vr, Ghost(o1), Ghost(c1)) = eval_args(args, k - 1, variables, host, depth);
    let ghost env1 = variables@;
    let mut vals = match vr {
        Ok(vals) => vals,
        Err(err) => {
            assert forall|rest: Seq<Value>|
                #[trigger] eval_args_spec(args@, k as nat, env0, depth as nat, o1 + rest) == Some(
                    (Err::<Seq<Value>, EvalError>(err), env1, rest, c1),
                ) by {
                assert(eval_args_spec(args@, (k - 1) as nat, env0, depth as nat, o1 + rest) == Some(
                    (Err::<Seq<Value>, EvalError>(err), env1, rest, c1),
                ));
            }
            return (Err(err), Ghost(o1), Ghost(c1));
        },
    };
    let ghost vals0 = vals@;
    let (er, Ghost(o2), Ghost(c2)) = eval_in(&args[k - 1], variables, host, depth);
    let ghost env2 = variables@;
    assert forall|rest: Seq<Value>|
        #[trigger] eval_expr_spec(args@[k - 1], env1, depth as nat, o2 + rest) == Some(
            (er, env2, rest, c2),
        ) by {
    }
    match er {
        Ok(v) => {
            vals.push(v);
            assert forall|rest: Seq<Value>|
                #[trigger] eval_args_spec(args@, k as nat, env0, depth as nat, (o1 + o2) + rest)
                    == Some((Ok::<Seq<Value>, EvalError>(vals@), env2, rest, c1 + c2)) by {
                assert((o1 + o2) + rest =~= o1 + (o2 + rest));
                assert(eval_args_spec(args@, (k - 1) as nat, env0, depth as nat, o1 + (o2 + rest))
                    == Some((Ok::<Seq<Value>, EvalError>(vals0), env1, o2 + rest, c1)));
                assert(eval_expr_spec(args@[k - 1], env1, depth as nat, o2 + rest) == Some(
                    (er, env2, rest, c2),
                ));
            }
            (Ok(vals), Ghost(o1 + o2), Ghost(c1 + c2))
        },
        Err(err) => {
            assert forall|rest: Seq<Value>|
                #[trigger] eval_args_spec(args@, k as nat, env0, depth as nat, (o1 + o2) + rest)
                    == Some((Err::<Seq<Value>, EvalError>(err), env2, rest, c1 + c2)) by {
                assert((o1 + o2) + rest =~= o1 + (o2 + rest));
                assert(eval_args_spec(args@, (k - 1) as nat, env0, depth as nat, o1 + (o2 + rest))
                    == Some((Ok::<Seq<Value>, EvalError>(vals0), env1, o2 + rest, c1)));
                assert(eval_expr_spec(args@[k - 1], env1, depth as nat, o2 + rest) == Some(
                    (er, env2, rest, c2),
                ));
            }
            (Err(err), Ghost(o1 + o2), Ghost(c1 + c2))
        },
    }
}

fn eval_body<H: Host>(
    body: &Vec<Ast>,
    k: usize,
    scope: &mut HashMap<u64, Value>,
    host: &mut H,
    depth: u64,
) -> (r: (Result<Value, EvalError>, Ghost<Seq<Value>>, Ghost<Seq<HostCall>>))
    requires
        k <= body@.len(),
    ensures
        forall|rest: Seq<Value>|
            #[trigger] eval_body_spec(body@, k as nat, old(scope)@, depth as nat, r.1@ + rest)
                == Some((r.0, final(scope)@, rest, r.2@)),
    decreases depth, body@, k,
{
    let ghost env0 = scope@;
    if k == 0 {
        let ghost none = Seq::<Value>::empty();
        assert forall|rest: Seq<Value>| none + rest == rest by {
            assert(none + rest =~= rest);
        }
        return (Ok(Value::Void), Ghost(none), Ghost(Seq::empty()));
    }
    let (pr, Ghost(o1), Ghost(c1)) = eval_body(body, k - 1, scope, host, depth);
    let ghost env1 = scope@;
    let pv = match pr {
        Ok(v) => v,
        Err(err) => {
            assert forall|rest: Seq<Value>|
                #[trigger] eval_body_spec(body@, k as nat, env0, depth as nat, o1 + rest) == Some(
                    (Err::<Value, EvalError>(err), env1, rest, c1),
                ) by {
                assert(eval_body_spec(body@, (k - 1) as nat, env0, depth as nat, o1 + rest) == Some(
                    (Err::<Value, EvalError>(err), env1, rest, c1),
                ));
            }
            return (Err(err), Ghost(o1), Ghost(c1));
        },
    };
    let (er, Ghost(o2), Ghost(c2)) = eval_in(&body[k - 1], scope, host, depth);
    assert forall|rest: Seq<Value>|
        #[trigger] eval_body_spec(body@, k as nat, env0, depth as nat, (o1 + o2) + rest)
            == Some((er, scope@, rest, c1 + c2)) by {
        assert((o1 + o2) + rest =~= o1 + (o2 + rest));
        assert(eval_body_spec(body@, (k - 1) as nat, env0, depth as nat, o1 + (o2 + rest))
            == Some((Ok::<Value, EvalError>(pv), env1, o2 + rest, c1)));
        assert(eval_expr_spec(body@[k - 1], env1, depth as nat, o2 + rest) == Some(
            (er, scope@, rest, c2),
        ));
    }
    (er, Ghost(o1 + o2), Ghost(c1 + c2))
}

} // verus!
