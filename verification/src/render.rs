//! Textual rendering of an expression: the trace format the machine
//! prints. No parentheses are ever inserted, so the text is a faithful
//! trace of the current step, not an unambiguous syntax.

use vstd::prelude::*;

use crate::token::Token;

verus! {

/// The character for one decimal digit.
pub open spec fn spec_digit(d: int) -> char {
    if d == 0 {
        '0'
    } else if d == 1 {
        '1'
    } else if d == 2 {
        '2'
    } else if d == 3 {
        '3'
    } else if d == 4 {
        '4'
    } else if d == 5 {
        '5'
    } else if d == 6 {
        '6'
    } else if d == 7 {
        '7'
    } else if d == 8 {
        '8'
    } else {
        '9'
    }
}

/// The decimal digits of a non-negative number, most significant first,
/// with no leading zero except for the number zero itself.
pub open spec fn dec_digits(n: nat) -> Seq<char>
    decreases n,
{
    if n < 10 {
        seq![spec_digit(n as int)]
    } else {
        dec_digits(n / 10).push(spec_digit((n % 10) as int))
    }
}

/// The decimal rendering of a signed number: a leading minus sign for a
/// negative one, then its magnitude's digits.
pub open spec fn dec_int(v: int) -> Seq<char> {
    if v < 0 {
        seq!['-'] + dec_digits((-v) as nat)
    } else {
        dec_digits(v as nat)
    }
}

/// The canonical source-like text of an expression: digits for a number,
/// `true`/`false` for a boolean, the name for a variable, and
/// `left <op> right` for a binary node, recursively and without
/// parentheses. A pure function of tree shape and leaf values.
pub open spec fn rendered(t: Token) -> Seq<char>
    decreases t,
{
    match t {
        Token::Number(v) => dec_int(v as int),
        Token::BoolValue(b) => if b {
            "true"@
        } else {
            "false"@
        },
        Token::Var(name) => name@,
        Token::Add(l, r) => rendered(*l) + " + "@ + rendered(*r),
        Token::Multiply(l, r) => rendered(*l) + " * "@ + rendered(*r),
        Token::LessThan(l, r) => rendered(*l) + " < "@ + rendered(*r),
    }
}

/// The one-character text of a decimal digit.
fn digit_str(d: u64) -> (s: &'static str)
    requires
        d < 10,
    ensures
        s@ =~= seq![spec_digit(d as int)],
{
    proof {
        reveal_strlit("0");
        reveal_strlit("1");
        reveal_strlit("2");
        reveal_strlit("3");
        reveal_strlit("4");
        reveal_strlit("5");
        reveal_strlit("6");
        reveal_strlit("7");
        reveal_strlit("8");
        reveal_strlit("9");
    }
    if d == 0 {
        "0"
    } else if d == 1 {
        "1"
    } else if d == 2 {
        "2"
    } else if d == 3 {
        "3"
    } else if d == 4 {
        "4"
    } else if d == 5 {
        "5"
    } else if d == 6 {
        "6"
    } else if d == 7 {
        "7"
    } else if d == 8 {
        "8"
    } else {
        "9"
    }
}

/// Appends the decimal digits of `n` to `out`.
fn push_digits(n: u64, out: &mut String)
    ensures
        final(out)@ == old(out)@ + dec_digits(n as nat),
    decreases n,
{
    if n < 10 {
        out.append(digit_str(n));
    } else {
        push_digits(n / 10, out);
        let ghost mid = out@;
        out.append(digit_str(n % 10));
        proof {
            assert(final(out)@ =~= old(out)@ + dec_digits(n as nat));
        }
    }
}

/// The decimal text of a signed number.
fn number_str(v: i32) -> (s: String)
    ensures
        s@ == dec_int(v as int),
{
    let mut out = String::new();
    if v < 0 {
        proof {
            reveal_strlit("-");
        }
        out.append("-");
        let m: u64 = (-(v as i64)) as u64;
        push_digits(m, &mut out);
        proof {
            assert(out@ =~= dec_int(v as int));
        }
    } else {
        push_digits(v as u64, &mut out);
        proof {
            assert(out@ =~= dec_int(v as int));
        }
    }
    out
}

impl Token {
    /// Renders this expression as its canonical source-like text.
    /// Equal trees render identically: the text depends on nothing but
    /// the tree.
    pub fn to_string(&self) -> (s: String)
        ensures
            s@ == rendered(*self),
        decreases *self,
    {
        match self {
            Token::Number(v) => number_str(*v),
            Token::BoolValue(b) => if *b {
                String::from_str("true")
            } else {
                String::from_str("false")
            },
            Token::Var(name) => name.clone(),
            Token::Add(l, r) => {
                let mut s = l.to_string();
                s.append(" + ");
                let rs = r.to_string();
                s.append(rs.as_str());
                s
            },
            Token::Multiply(l, r) => {
                let mut s = l.to_string();
                s.append(" * ");
                let rs = r.to_string();
                s.append(rs.as_str());
                s
            },
            Token::LessThan(l, r) => {
                let mut s = l.to_string();
                s.append(" < ");
                let rs = r.to_string();
                s.append(rs.as_str());
                s
            },
        }
    }
}

} // verus!
