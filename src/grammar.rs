use crate::chars::{alphabetic, is_digit, is_space};
use crate::form::Form;
use crate::ident::hash_of;
use vstd::prelude::*;

verus! {

/// Why text did not parse.
#[derive(PartialEq, Eq, Structural, Debug, Clone, Copy)]
pub enum ParseError {
    /// No expression starts at this character position.
    NoExpression(usize),
    /// The integer literal that starts here does not fit in a `u64`.
    IntegerOverflow(usize),
}

/// What parsing one expression gives: its shape and the position after it
/// and the whitespace that follows, nothing where no form matches, or an
/// error that stops the whole parse.
pub type Parsed = Result<Option<(Form, nat)>, ParseError>;

/// The number of whitespace characters from `i` on.
pub open spec fn ws_len(c: Seq<char>, i: nat) -> nat
    decreases c.len() - i,
{
    if i < c.len() && is_space(c[i as int]) {
        1 + ws_len(c, i + 1)
    } else {
        0
    }
}

/// The number of digits from `i` on.
pub open spec fn digit_len(c: Seq<char>, i: nat) -> nat
    decreases c.len() - i,
{
    if i < c.len() && is_digit(c[i as int]) {
        1 + digit_len(c, i + 1)
    } else {
        0
    }
}

/// The number of alphabetic characters from `i` on.
pub open spec fn alpha_len(c: Seq<char>, i: nat) -> nat
    decreases c.len() - i,
{
    if i < c.len() && alphabetic(c[i as int]) {
        1 + alpha_len(c, i + 1)
    } else {
        0
    }
}

/// The position after the whitespace at `i`.
pub open spec fn skip_ws(c: Seq<char>, i: nat) -> nat {
    i + ws_len(c, i)
}

/// The number that the decimal digits `c[i..j]` write.
pub open spec fn digits_value(c: Seq<char>, i: nat, j: nat) -> nat
    decreases j,
{
    if j <= i {
        0
    } else {
        digits_value(c, i, (j - 1) as nat) * 10 + ((c[j - 1] as u32) - 48) as nat
    }
}

/// Whether `c[i]` is `ch`.
pub open spec fn char_at(c: Seq<char>, i: nat, ch: char) -> bool {
    i < c.len() && c[i as int] == ch
}

/// An identifier, with the whitespace around it: its key and the position
/// after it.
pub open spec fn ident_spec(c: Seq<char>, i: nat) -> Option<(u64, nat)> {
    let k = skip_ws(c, i);
    let e = k + alpha_len(c, k);
    if e == k {
        None
    } else {
        Some((hash_of(c.subrange(k as int, e as int)), skip_ws(c, e)))
    }
}

/// As many identifiers as follow one another from `i`.
pub open spec fn idents_spec(c: Seq<char>, i: nat) -> (Seq<u64>, nat)
    decreases c.len() - i,
{
    if i > c.len() {
        (Seq::empty(), i)
    } else {
        match ident_spec(c, i) {
            Some((id, j)) => if i < j && j <= c.len() {
                let (ids, k) = idents_spec(c, j);
                (seq![id] + ids, k)
            } else {
                (seq![id], j)
            },
            None => (Seq::empty(), i),
        }
    }
}

/// The head of a function literal inside its parentheses: `\`, then the
/// parameters in parentheses; the parameters and the position after them.
pub open spec fn lambda_head(c: Seq<char>, i: nat) -> Option<(Seq<u64>, nat)> {
    let k = skip_ws(c, i);
    let k2 = skip_ws(c, k + 1);
    if char_at(c, k, '\\') && char_at(c, k2, '(') {
        let (ids, k3) = idents_spec(c, k2 + 1);
        if char_at(c, k3, ')') {
            Some((ids, skip_ws(c, k3 + 1)))
        } else {
            None
        }
    } else {
        None
    }
}

/// The head of a definition inside its parentheses: `=`, then the name; the
/// name and the position after it.
pub open spec fn define_head(c: Seq<char>, i: nat) -> Option<(u64, nat)> {
    let k = skip_ws(c, i);
    if char_at(c, k, '=') {
        ident_spec(c, k + 1)
    } else {
        None
    }
}

/// One expression from `i`, with the whitespace around it. The forms are
/// tried in order: `#f`, an integer, an identifier, a parenthesized form.
pub open spec fn expr_spec(c: Seq<char>, i: nat) -> Parsed
    decreases c.len() - i, 0nat,
{
    if i > c.len() {
        Ok(None)
    } else {
        let p = skip_ws(c, i);
        let d = digit_len(c, p);
        let a = alpha_len(c, p);
        if char_at(c, p, '#') && char_at(c, p + 1, 'f') {
            Ok(Some((Form::False, skip_ws(c, p + 2))))
        } else if d > 0 {
            let v = digits_value(c, p, p + d);
            if v > u64::MAX {
                Err(ParseError::IntegerOverflow(p as usize))
            } else {
                Ok(Some((Form::Int(v as u64), skip_ws(c, p + d))))
            }
        } else if a > 0 {
            Ok(Some((Form::Var(hash_of(c.subrange(p as int, (p + a) as int))), skip_ws(c, p + a))))
        } else if char_at(c, p, '(') {
            match paren_spec(c, p + 1) {
                Ok(Some((f, q))) => if char_at(c, q, ')') {
                    Ok(Some((f, skip_ws(c, q + 1))))
                } else {
                    Ok(None)
                },
                other => other,
            }
        } else {
            Ok(None)
        }
    }
}

/// What stands inside parentheses from `i`: a function literal, else a
/// definition, else a call.
pub open spec fn paren_spec(c: Seq<char>, i: nat) -> Parsed
    decreases c.len() - i, 2nat,
{
    if i > c.len() {
        Ok(None)
    } else {
        match lambda_head(c, i) {
            Some((params, k)) => if i <= k && k <= c.len() {
                match exprs_spec(c, k) {
                    Ok((body, j)) => Ok(Some((Form::Lambda(params, body), j))),
                    Err(e) => Err(e),
                }
            } else {
                Ok(None)
            },
            None => {
                let def = match define_head(c, i) {
                    Some((id, k)) => if i <= k && k <= c.len() {
                        match expr_spec(c, k) {
                            Ok(Some((e, j))) => Ok(Some((Form::Define(id, Box::new(e)), j))),
                            other => other,
                        }
                    } else {
                        Ok(None)
                    },
                    None => Ok(None),
                };
                match def {
                    Ok(None) => match expr_spec(c, i) {
                        Ok(Some((f, k))) => if i < k && k <= c.len() {
                            match exprs_spec(c, k) {
                                Ok((args, j)) => Ok(Some((Form::Call(Box::new(f), args), j))),
                                Err(e) => Err(e),
                            }
                        } else {
                            Ok(None)
                        },
                        other => other,
                    },
                    other => other,
                }
            },
        }
    }
}

/// As many expressions as follow one another from `i`, and the position
/// after them.
pub open spec fn exprs_spec(c: Seq<char>, i: nat) -> Result<(Seq<Form>, nat), ParseError>
    decreases c.len() - i, 1nat,
{
    if i > c.len() {
        Ok((Seq::empty(), i))
    } else {
        match expr_spec(c, i) {
            Err(e) => Err(e),
            Ok(None) => Ok((Seq::empty(), i)),
            Ok(Some((f, j))) => if i < j && j <= c.len() {
                match exprs_spec(c, j) {
                    Ok((fs, k)) => Ok((seq![f] + fs, k)),
                    Err(e) => Err(e),
                }
            } else {
                Ok((seq![f], j))
            },
        }
    }
}

} // verus!
