use crate::value::{Ast, Value};
use vstd::prelude::*;

verus! {

/// The shape of a syntax tree, with sequences in place of vectors.
pub enum Form {
    Void,
    False,
    Int(u64),
    Lambda(Seq<u64>, Seq<Form>),
    Native(u64),
    Var(u64),
    Call(Box<Form>, Seq<Form>),
    Define(u64, Box<Form>),
}

/// The shape of `a`.
pub open spec fn form_of(a: Ast) -> Form
    decreases a, 0nat,
{
    match a {
        Ast::Lit(v) => match v {
            Value::Void => Form::Void,
            Value::False => Form::False,
            Value::Int(n) => Form::Int(n),
            Value::Function(p, b) => Form::Lambda(p@, forms_of(b@, b@.len())),
            Value::InbuiltFunc(k) => Form::Native(k),
        },
        Ast::Variable(id) => Form::Var(id),
        Ast::Call(f, args) => Form::Call(Box::new(form_of(*f)), forms_of(args@, args@.len())),
        Ast::Define(id, e) => Form::Define(id, Box::new(form_of(*e))),
    }
}

/// The shapes of the first `k` trees of `s`.
pub open spec fn forms_of(s: Seq<Ast>, k: nat) -> Seq<Form>
    decreases s, k,
{
    if k == 0 || s.len() < k {
        Seq::empty()
    } else {
        forms_of(s, (k - 1) as nat).push(form_of(s[k - 1]))
    }
}

proof fn lemma_forms_of_prefix(s: Seq<Ast>, x: Ast, k: nat)
    requires
        k <= s.len(),
    ensures
        forms_of(s.push(x), k) == forms_of(s, k),
    decreases k,
{
    if k > 0 {
        lemma_forms_of_prefix(s, x, (k - 1) as nat);
        assert(s.push(x)[k - 1] == s[k - 1]);
    }
}

pub proof fn lemma_forms_of_push(s: Seq<Ast>, x: Ast)
    ensures
        forms_of(s.push(x), s.len() + 1) == forms_of(s, s.len()).push(form_of(x)),
{
    lemma_forms_of_prefix(s, x, s.len());
    assert(s.push(x)[s.len() as int] == x);
}

} // verus!
