use crate::chars::{alpha, alphabetic, chars_of, digit, is_digit, space, string_of};
use crate::form::{form_of, forms_of, lemma_forms_of_push, Form};
use crate::grammar::{
    alpha_len, define_head, digit_len, digits_value, expr_spec, exprs_spec, ident_spec, idents_spec,
    lambda_head, paren_spec, skip_ws, ws_len, ParseError, Parsed,
};
use crate::ident::hash_string;
use crate::value::{Ast, Value};
use std::rc::Rc;
use vstd::prelude::*;

verus! {

/// Whether a parse of one expression by the library matches the grammar's.
pub open spec fn agrees(r: Result<Option<(Ast, usize)>, ParseError>, s: Parsed, n: nat) -> bool {
    match (r, s) {
        (Ok(Some((a, j))), Ok(Some((f, k)))) => form_of(a) == f && j as nat == k && k <= n,
        (Ok(None), Ok(None)) => true,
        (Err(e1), Err(e2)) => e1 == e2,
        _ => false,
    }
}

/// Whether a parse of a run of expressions by the library matches the grammar's.
pub open spec fn agrees_many(
    r: Result<(Vec<Ast>, usize), ParseError>,
    s: Result<(Seq<Form>, nat), ParseError>,
    n: nat,
) -> bool {
    match (r, s) {
        (Ok((v, j)), Ok((fs, k))) => forms_of(v@, v@.len()) == fs && j as nat == k && k <= n,
        (Err(e1), Err(e2)) => e1 == e2,
        _ => false,
    }
}

fn skip_ws_at(c: &Vec<char>, i: usize) -> (r: usize)
    requires
        i <= c@.len(),
    ensures
        r as nat == skip_ws(c@, i as nat),
        r <= c@.len(),
{
    let mut j: usize = i;
    while j < c.len() && space(c[j])
        invariant
            i <= j <= c@.len(),
            i + ws_len(c@, i as nat) == j + ws_len(c@, j as nat),
        decreases c@.len() - j,
    {
        j = j + 1;
    }
    j
}

fn digits_end_at(c: &Vec<char>, i: usize) -> (r: usize)
    requires
        i <= c@.len(),
    ensures
        r == i + digit_len(c@, i as nat),
        r <= c@.len(),
        forall|k: int| i <= k < r ==> is_digit(#[trigger] c@[k]),
{
    let mut j: usize = i;
    while j < c.len() && digit(c[j])
        invariant
            i <= j <= c@.len(),
            i + digit_len(c@, i as nat) == j + digit_len(c@, j as nat),
            forall|k: int| i <= k < j ==> is_digit(#[trigger] c@[k]),
        decreases c@.len() - j,
    {
        j = j + 1;
    }
    j
}

fn alpha_end_at(c: &Vec<char>, i: usize) -> (r: usize)
    requires
        i <= c@.len(),
    ensures
        r == i + alpha_len(c@, i as nat),
        r <= c@.len(),
{
    let mut j: usize = i;
    while j < c.len() && alpha(c[j])
        invariant
            i <= j <= c@.len(),
            i + alpha_len(c@, i as nat) == j + alpha_len(c@, j as nat),
        decreases c@.len() - j,
    {
        j = j + 1;
    }
    j
}

proof fn lemma_digits_value_grows(c: Seq<char>, p: nat, k: nat, j: nat)
    requires
        p <= k <= j <= c.len(),
        forall|m: int| p <= m < j ==> is_digit(#[trigger] c[m]),
    ensures
        digits_value(c, p, k) <= digits_value(c, p, j),
    decreases j,
{
    if k < j {
        lemma_digits_value_grows(c, p, k, (j - 1) as nat);
    }
}

/// The number that the digits `c[p..e]` write, or `None` where it does not
/// fit in a `u64`.
fn digits_value_at(c: &Vec<char>, p: usize, e: usize) -> (r: Option<u64>)
    requires
        p <= e <= c@.len(),
        forall|k: int| p <= k < e ==> is_digit(#[trigger] c@[k]),
    ensures
        match r {
            Some(v) => v as nat == digits_value(c@, p as nat, e as nat),
            None => digits_value(c@, p as nat, e as nat) > u64::MAX,
        },
{
    let mut v: u64 = 0;
    let mut k: usize = p;
    while k < e
        invariant
            p <= k <= e,
            e <= c@.len(),
            forall|m: int| p <= m < e ==> is_digit(#[trigger] c@[m]),
            v as nat == digits_value(c@, p as nat, k as nat),
        decreases e - k,
    {
        assert(is_digit(c@[k as int]));
        let d: u32 = (c[k] as u32) - 48;
        assert((v as u128) * 10 <= 0xFFFF_FFFF_FFFF_FFFFu128 * 10) by (nonlinear_arith)
            requires
                v <= 0xFFFF_FFFF_FFFF_FFFFu64,
        ;
        let w: u128 = (v as u128) * 10 + (d as u128);
        if w > 0xFFFF_FFFF_FFFF_FFFFu128 {
            proof {
                lemma_digits_value_grows(c@, p as nat, (k + 1) as nat, e as nat);
            }
            return None;
        }
        v = w as u64;
        k = k + 1;
    }
    Some(v)
}

fn ident_at(c: &Vec<char>, i: usize) -> (r: Option<(u64, usize)>)
    requires
        i <= c@.len(),
    ensures
        match (r, ident_spec(c@, i as nat)) {
            (Some((a, j)), Some((b, k))) => a == b && j as nat == k && k <= c@.len(),
            (None, None) => true,
            _ => false,
        },
{
    let k = skip_ws_at(c, i);
    let e = alpha_end_at(c, k);
    if e == k {
        None
    } else {
        let name = string_of(c, k, e);
        let id = hash_string(name.as_str());
        Some((id, skip_ws_at(c, e)))
    }
}

fn idents_at(c: &Vec<char>, i: usize) -> (r: (Vec<u64>, usize))
    requires
        i <= c@.len(),
    ensures
        r.0@ == idents_spec(c@, i as nat).0,
        r.1 as nat == idents_spec(c@, i as nat).1,
        r.1 <= c@.len(),
{
    let mut ids: Vec<u64> = Vec::new();
    let mut j: usize = i;
    loop
        invariant
            i <= j <= c@.len(),
            idents_spec(c@, i as nat) == (ids@ + idents_spec(c@, j as nat).0, idents_spec(
                c@,
                j as nat,
            ).1),
        decreases c@.len() - j,
    {
        let ghost rest = idents_spec(c@, j as nat);
        match ident_at(c, j) {
            None => {
                assert(ids@ + Seq::<u64>::empty() =~= ids@);
                return (ids, j);
            },
            Some((id, k)) => {
                if j < k {
                    let ghost next = idents_spec(c@, k as nat);
                    assert(ids@ + rest.0 =~= ids@.push(id) + next.0);
                    ids.push(id);
                    j = k;
                } else {
                    assert(ids@ + rest.0 =~= ids@.push(id));
                    ids.push(id);
                    return (ids, k);
                }
            },
        }
    }
}

fn lambda_head_at(c: &Vec<char>, i: usize) -> (r: Option<(Vec<u64>, usize)>)
    requires
        i <= c@.len(),
    ensures
        match (r, lambda_head(c@, i as nat)) {
            (Some((a, j)), Some((b, k))) => a@ == b && j as nat == k && k <= c@.len(),
            (None, None) => true,
            _ => false,
        },
{
    let k = skip_ws_at(c, i);
    if k < c.len() && c[k] == '\\' {
        let k2 = skip_ws_at(c, k + 1);
        if k2 < c.len() && c[k2] == '(' {
            let (ids, k3) = idents_at(c, k2 + 1);
            if k3 < c.len() && c[k3] == ')' {
                return Some((ids, skip_ws_at(c, k3 + 1)));
            }
        }
    }
    None
}

fn define_head_at(c: &Vec<char>, i: usize) -> (r: Option<(u64, usize)>)
    requires
        i <= c@.len(),
    ensures
        match (r, define_head(c@, i as nat)) {
            (Some((a, j)), Some((b, k))) => a == b && j as nat == k && k <= c@.len(),
            (None, None) => true,
            _ => false,
        },
{
    let k = skip_ws_at(c, i);
    if k < c.len() && c[k] == '=' {
        ident_at(c, k + 1)
    } else {
        None
    }
}

fn expr_at(c: &Vec<char>, i: usize) -> (r: Result<Option<(Ast, usize)>, ParseError>)
    requires
        i <= c@.len(),
    ensures
        agrees(r, expr_spec(c@, i as nat), c@.len()),
    decreases c@.len() - i, 0nat,
{
    let p = skip_ws_at(c, i);
    let d = digits_end_at(c, p);
    let a = alpha_end_at(c, p);
    if p < c.len() && c[p] == '#' && p + 1 < c.len() && c[p + 1] == 'f' {
        Ok(Some((Ast::Lit(Value::False), skip_ws_at(c, p + 2))))
    } else if d > p {
        match digits_value_at(c, p, d) {
            None => Err(ParseError::IntegerOverflow(p)),
            Some(v) => Ok(Some((Ast::Lit(Value::Int(v)), skip_ws_at(c, d)))),
        }
    } else if a > p {
        let name = string_of(c, p, a);
        let id = hash_string(name.as_str());
        Ok(Some((Ast::Variable(id), skip_ws_at(c, a))))
    } else if p < c.len() && c[p] == '(' {
        match paren_at(c, p + 1) {
            Ok(Some((f, q))) => {
                if q < c.len() && c[q] == ')' {
                    Ok(Some((f, skip_ws_at(c, q + 1))))
                } else {
                    Ok(None)
                }
            },
            other => other,
        }
    } else {
        Ok(None)
    }
}

fn paren_at(c: &Vec<char>, i: usize) -> (r: Result<Option<(Ast, usize)>, ParseError>)
    requires
        i <= c@.len(),
    ensures
        agrees(r, paren_spec(c@, i as nat), c@.len()),
    decreases c@.len() - i, 2nat,
{
    match lambda_head_at(c, i) {
        Some((params, k)) => {
            if i <= k {
                match exprs_at(c, k) {
                    Ok((body, j)) => {
                        let f = Value::Function(Rc::new(params), Rc::new(body));
                        return Ok(Some((Ast::Lit(f), j)));
                    },
                    Err(e) => return Err(e),
                }
            } else {
                return Ok(None);
            }
        },
        None => {},
    }
    let def = match define_head_at(c, i) {
        Some((id, k)) => {
            if i <= k {
                match expr_at(c, k) {
                    Ok(Some((e, j))) => Ok(Some((Ast::Define(id, Box::new(e)), j))),
                    other => other,
                }
            } else {
                Ok(None)
            }
        },
        None => Ok(None),
    };
    match def {
        Ok(None) => match expr_at(c, i) {
            Ok(Some((f, k))) => {
                if i < k {
                    match exprs_at(c, k) {
                        Ok((args, j)) => Ok(Some((Ast::Call(Box::new(f), args), j))),
                        Err(e) => Err(e),
                    }
                } else {
                    Ok(None)
                }
            },
            other => other,
        },
        other => other,
    }
}

fn exprs_at(c: &Vec<char>, i: usize) -> (r: Result<(Vec<Ast>, usize), ParseError>)
    requires
        i <= c@.len(),
    ensures
        agrees_many(r, exprs_spec(c@, i as nat), c@.len()),
    decreases c@.len() - i, 1nat,
{
    let mut acc: Vec<Ast> = Vec::new();
    let mut j: usize = i;
    loop
        invariant
            i <= j <= c@.len(),
            match exprs_spec(c@, j as nat) {
                Ok((fs, k)) => exprs_spec(c@, i as nat) == Ok::<(Seq<Form>, nat), ParseError>(
                    (forms_of(acc@, acc@.len()) + fs, k),
                ),
                Err(e) => exprs_spec(c@, i as nat) == Err::<(Seq<Form>, nat), ParseError>(e),
            },
        decreases c@.len() - j,
    {
        let ghost before = forms_of(acc@, acc@.len());
        match expr_at(c, j) {
            Err(e) => return Err(e),
            Ok(None) => {
                assert(before + Seq::<Form>::empty() =~= before);
                return Ok((acc, j));
            },
            Ok(Some((a, k))) => {
                proof {
                    lemma_forms_of_push(acc@, a);
                }
                if j < k {
                    proof {
                        if let Ok((fs, _)) = exprs_spec(c@, k as nat) {
                            assert(before + (seq![form_of(a)] + fs) =~= before.push(form_of(a))
                                + fs);
                        }
                    }
                    acc.push(a);
                    j = k;
                } else {
                    assert(before + seq![form_of(a)] =~= before.push(form_of(a)));
                    acc.push(a);
                    return Ok((acc, k));
                }
            },
        }
    }
}

} // verus!
verus! {

/// Parses one expression at the start of `text`. Gives the tree and the
/// character position after it and the whitespace that follows it.
pub fn parse_expr(text: &str) -> (r: Result<(Ast, usize), ParseError>)
    ensures
        match expr_spec(text@, 0) {
            Ok(Some((f, k))) => r matches Ok((a, j)) && form_of(a) == f && j as nat == k,
            Ok(None) => r == Err::<(Ast, usize), ParseError>(
                ParseError::NoExpression(skip_ws(text@, 0) as usize),
            ),
            Err(e) => r == Err::<(Ast, usize), ParseError>(e),
        },
{
    let c = chars_of(text);
    match expr_at(&c, 0) {
        Ok(Some((a, j))) => Ok((a, j)),
        Ok(None) => Err(ParseError::NoExpression(skip_ws_at(&c, 0))),
        Err(e) => Err(e),
    }
}

/// Parses as many expressions as follow one another from the start of
/// `text`, at least one. Gives the trees and the character position after
/// the last of them.
pub fn parse_exprs(text: &str) -> (r: Result<(Vec<Ast>, usize), ParseError>)
    ensures
        match exprs_spec(text@, 0) {
            Ok((fs, k)) => if fs.len() == 0 {
                r == Err::<(Vec<Ast>, usize), ParseError>(
                    ParseError::NoExpression(skip_ws(text@, 0) as usize),
                )
            } else {
                r matches Ok((v, j)) && forms_of(v@, v@.len()) == fs && j as nat == k
            },
            Err(e) => r == Err::<(Vec<Ast>, usize), ParseError>(e),
        },
{
    let c = chars_of(text);
    match exprs_at(&c, 0) {
        Ok((v, j)) => {
            if v.len() == 0 {
                Err(ParseError::NoExpression(skip_ws_at(&c, 0)))
            } else {
                Ok((v, j))
            }
        },
        Err(e) => Err(e),
    }
}

} // verus!
