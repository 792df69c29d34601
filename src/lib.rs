//! A small untyped expression language: a grammar from text to syntax trees
//! and a tree-walking evaluator with snapshot (dynamic) scoping.

mod ident;
mod value;
mod eval;
mod scoping;
mod chars;
mod form;
mod grammar;
mod parser;

pub use ident::{hash_of, hash_string};
pub use value::{lemma_functions_never_equal, lemma_ints_equal_by_value, Ast, Value};
pub use scoping::{
    any_may_define, lemma_body_sees_earlier_define, lemma_call_isolates_scope,
    lemma_eval_deterministic, lemma_free_name_from_caller, may_define,
};
pub use eval::{
    arity_calls, bind, ends_with, eval, eval_args_spec, eval_body_spec, eval_expr_spec, eval_with_depth,
    vals_view, EvalError, Host, HostCall, Outcome, MAX_DEPTH,
};
pub use chars::{alphabetic, is_digit, is_space};
pub use form::{form_of, forms_of, Form};
pub use grammar::{
    alpha_len, char_at, define_head, digit_len, digits_value, expr_spec, exprs_spec, ident_spec,
    idents_spec, lambda_head, paren_spec, skip_ws, ws_len, ParseError, Parsed,
};
pub use parser::{parse_expr, parse_exprs};
