use std::rc::Rc;
use vstd::prelude::*;
use vstd::std_specs::cmp::PartialEqSpec;

verus! {

/// A syntax tree. Identifiers are the keys that `hash_string` gives.
#[derive(Debug)]
pub enum Ast {
    Lit(Value),
    Variable(u64),
    Call(Box<Ast>, Vec<Ast>),
    Define(u64, Box<Ast>),
}

/// A run-time value. A native function is known by its key; the host's
/// `Natives` implementation gives it meaning.
#[derive(Debug)]
pub enum Value {
    Void,
    False,
    Int(u64),
    Function(Rc<Vec<u64>>, Rc<Vec<Ast>>),
    InbuiltFunc(u64),
}

/// Relies on `Rc::clone`: the new handle points at the same value.
#[verifier::external_body]
fn share_rc<T>(r: &Rc<T>) -> (s: Rc<T>)
    ensures
        s == *r,
{
    Rc::clone(r)
}

impl Value {
    /// A copy of the value; a function's parameters and body are shared,
    /// not copied.
    pub fn share(&self) -> (r: Value)
        ensures
            r == *self,
    {
        match self {
            Value::Void => Value::Void,
            Value::False => Value::False,
            Value::Int(i) => Value::Int(*i),
            Value::Function(params, body) => Value::Function(share_rc(params), share_rc(body)),
            Value::InbuiltFunc(k) => Value::InbuiltFunc(*k),
        }
    }
}

impl Clone for Value {
    fn clone(&self) -> (r: Value) {
        self.share()
    }
}

impl PartialEq for Value {
    /// Only `Void`, `False` and integers compare; functions equal nothing,
    /// not even themselves.
    fn eq(&self, other: &Value) -> (r: bool) {
        match (self, other) {
            (Value::Void, Value::Void) => true,
            (Value::False, Value::False) => true,
            (Value::Int(a), Value::Int(b)) => *a == *b,
            _ => false,
        }
    }
}

impl vstd::std_specs::cmp::PartialEqSpecImpl for Value {
    open spec fn obeys_eq_spec() -> bool {
        true
    }

    open spec fn eq_spec(&self, other: &Value) -> bool {
        match (*self, *other) {
            (Value::Void, Value::Void) => true,
            (Value::False, Value::False) => true,
            (Value::Int(a), Value::Int(b)) => a == b,
            _ => false,
        }
    }
}

/// Two values that are functions are never equal, whatever they hold.
pub proof fn lemma_functions_never_equal(f: Value, g: Value)
    requires
        f is Function,
    ensures
        !f.eq_spec(&g),
        !g.eq_spec(&f),
        !f.eq_spec(&f),
{
}

/// Integers are equal exactly when they hold the same number.
pub proof fn lemma_ints_equal_by_value(a: u64, b: u64)
    ensures
        Value::Int(a).eq_spec(&Value::Int(b)) == (a == b),
{
}

} // verus!
