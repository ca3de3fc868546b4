//! One step of the small-step semantics: `Token::reduce` and its
//! mathematical description `spec_reduce`.

use vstd::prelude::*;

use crate::environment::Environment;
use crate::token::{spec_reducible, Token};

verus! {

/// The three fatal conditions a reduction step can hit. Each one marks a
/// violated precondition of a well-formed program, never a recoverable
/// state.
#[derive(Clone, Copy, Debug, PartialEq, Eq, Structural)]
pub enum ReduceError {
    /// `reduce` was invoked on a value (`Number` or `BoolValue`).
    ReduceOnIrreducible,
    /// A `Var` names a binding the environment does not hold.
    UnboundVariable,
    /// A binary operator's operand settled into a normal form that is not
    /// a `Number`.
    IllTypedOperand,
}

/// What one reduction step yields: exactly one unit of progress by the
/// leftmost-innermost rule, or the fatal condition it runs into.
///
/// For a binary node the first of three cases fires: reduce the left
/// operand if it is reducible, else reduce the right operand if it is
/// reducible, else apply the operator to the two `Number` operands. The
/// untouched operand is carried over unchanged. A `Var` is replaced by its
/// bound expression in one substitution step.
pub open spec fn spec_reduce(t: Token, env: Map<Seq<char>, Token>) -> Result<Token, ReduceError>
    decreases t,
{
    match t {
        Token::Number(_) => Err(ReduceError::ReduceOnIrreducible),
        Token::BoolValue(_) => Err(ReduceError::ReduceOnIrreducible),
        Token::Var(name) => if env.contains_key(name@) {
            Ok(env[name@])
        } else {
            Err(ReduceError::UnboundVariable)
        },
        Token::Add(l, r) => if spec_reducible(*l) {
            match spec_reduce(*l, env) {
                Ok(l2) => Ok(Token::Add(Box::new(l2), r)),
                Err(e) => Err(e),
            }
        } else if spec_reducible(*r) {
            match spec_reduce(*r, env) {
                Ok(r2) => Ok(Token::Add(l, Box::new(r2))),
                Err(e) => Err(e),
            }
        } else {
            match (*l, *r) {
                (Token::Number(a), Token::Number(b)) => Ok(Token::Number((a + b) as i32)),
                _ => Err(ReduceError::IllTypedOperand),
            }
        },
        Token::Multiply(l, r) => if spec_reducible(*l) {
            match spec_reduce(*l, env) {
                Ok(l2) => Ok(Token::Multiply(Box::new(l2), r)),
                Err(e) => Err(e),
            }
        } else if spec_reducible(*r) {
            match spec_reduce(*r, env) {
                Ok(r2) => Ok(Token::Multiply(l, Box::new(r2))),
                Err(e) => Err(e),
            }
        } else {
            match (*l, *r) {
                (Token::Number(a), Token::Number(b)) => Ok(Token::Number((a * b) as i32)),
                _ => Err(ReduceError::IllTypedOperand),
            }
        },
        Token::LessThan(l, r) => if spec_reducible(*l) {
            match spec_reduce(*l, env) {
                Ok(l2) => Ok(Token::LessThan(Box::new(l2), r)),
                Err(e) => Err(e),
            }
        } else if spec_reducible(*r) {
            match spec_reduce(*r, env) {
                Ok(r2) => Ok(Token::LessThan(l, Box::new(r2))),
                Err(e) => Err(e),
            }
        } else {
            match (*l, *r) {
                (Token::Number(a), Token::Number(b)) => Ok(Token::BoolValue(a < b)),
                _ => Err(ReduceError::IllTypedOperand),
            }
        },
    }
}

/// The one arithmetic operation a single step may apply stays within
/// `i32`. Only the redex the leftmost-innermost rule selects is
/// constrained; everything else reduces structurally.
pub open spec fn step_fits(t: Token) -> bool
    decreases t,
{
    match t {
        Token::Number(_) => true,
        Token::BoolValue(_) => true,
        Token::Var(_) => true,
        Token::Add(l, r) => if spec_reducible(*l) {
            step_fits(*l)
        } else if spec_reducible(*r) {
            step_fits(*r)
        } else {
            match (*l, *r) {
                (Token::Number(a), Token::Number(b)) => i32::MIN <= a + b <= i32::MAX,
                _ => true,
            }
        },
        Token::Multiply(l, r) => if spec_reducible(*l) {
            step_fits(*l)
        } else if spec_reducible(*r) {
            step_fits(*r)
        } else {
            match (*l, *r) {
                (Token::Number(a), Token::Number(b)) => i32::MIN <= a * b <= i32::MAX,
                _ => true,
            }
        },
        Token::LessThan(l, r) => if spec_reducible(*l) {
            step_fits(*l)
        } else if spec_reducible(*r) {
            step_fits(*r)
        } else {
            true
        },
    }
}

/// The mathematical value of an expression that settles to a number
/// (meaningful under `numeric_ok`).
pub open spec fn num_value(t: Token, env: Map<Seq<char>, Token>) -> int
    decreases t,
{
    match t {
        Token::Number(v) => v as int,
        Token::Var(name) => match env[name@] {
            Token::Number(v) => v as int,
            _ => 0,
        },
        Token::Add(l, r) => num_value(*l, env) + num_value(*r, env),
        Token::Multiply(l, r) => num_value(*l, env) * num_value(*r, env),
        _ => 0,
    }
}

/// The expression settles to a `Number` under `env`: every leaf in it is a
/// number or a name bound to one, and every intermediate result stays
/// within `i32`.
pub open spec fn numeric_ok(t: Token, env: Map<Seq<char>, Token>) -> bool
    decreases t,
{
    match t {
        Token::Number(_) => true,
        Token::BoolValue(_) => false,
        Token::Var(name) => env.contains_key(name@) && env[name@] is Number,
        Token::Add(l, r) => numeric_ok(*l, env) && numeric_ok(*r, env) && i32::MIN
            <= num_value(*l, env) + num_value(*r, env) <= i32::MAX,
        Token::Multiply(l, r) => numeric_ok(*l, env) && numeric_ok(*r, env) && i32::MIN
            <= num_value(*l, env) * num_value(*r, env) <= i32::MAX,
        Token::LessThan(_, _) => false,
    }
}

/// A well-formed program state: closed under `env`, type-correct, and
/// within machine arithmetic. Reduction from such a state never hits a
/// fatal condition.
pub open spec fn well_formed(t: Token, env: Map<Seq<char>, Token>) -> bool {
    match t {
        Token::Number(_) => true,
        Token::BoolValue(_) => true,
        Token::Var(name) => env.contains_key(name@),
        Token::Add(_, _) => numeric_ok(t, env),
        Token::Multiply(_, _) => numeric_ok(t, env),
        Token::LessThan(l, r) => numeric_ok(*l, env) && numeric_ok(*r, env),
    }
}

/// The number of reduction steps a well-formed expression needs to reach
/// normal form: one per reducible node resolved along the
/// leftmost-innermost path.
pub open spec fn red_steps(t: Token) -> nat
    decreases t,
{
    match t {
        Token::Number(_) => 0,
        Token::BoolValue(_) => 0,
        Token::Var(_) => 1,
        Token::Add(l, r) => red_steps(*l) + red_steps(*r) + 1,
        Token::Multiply(l, r) => red_steps(*l) + red_steps(*r) + 1,
        Token::LessThan(l, r) => red_steps(*l) + red_steps(*r) + 1,
    }
}

/// The expression one successful step yields (meaningful when
/// `spec_reduce` succeeds).
pub open spec fn step_of(t: Token, env: Map<Seq<char>, Token>) -> Token {
    match spec_reduce(t, env) {
        Ok(t2) => t2,
        Err(_) => t,
    }
}

/// The program state after `n` successful reduction steps from `t`.
pub open spec fn state_at(t: Token, env: Map<Seq<char>, Token>, n: nat) -> Token
    decreases n,
{
    if n == 0 {
        t
    } else {
        step_of(state_at(t, env, (n - 1) as nat), env)
    }
}

impl Token {
    /// Decides `numeric_ok`: whether this expression settles to a number
    /// under `env` with every intermediate result within `i32`, and if so
    /// which number.
    pub fn settles_to_number(&self, env: &Environment) -> (r: Option<i32>)
        requires
            env.wf(),
        ensures
            match r {
                Some(v) => numeric_ok(*self, env@) && v as int == num_value(*self, env@),
                None => !numeric_ok(*self, env@),
            },
        decreases *self,
    {
        match self {
            Token::Number(v) => Some(*v),
            Token::BoolValue(_) => None,
            Token::Var(name) => match env.get(name) {
                Some(t) => match t {
                    Token::Number(v) => Some(*v),
                    _ => None,
                },
                None => None,
            },
            Token::Add(l, r) => match (l.settles_to_number(env), r.settles_to_number(env)) {
                (Some(a), Some(b)) => a.checked_add(b),
                _ => None,
            },
            Token::Multiply(l, r) => match (l.settles_to_number(env), r.settles_to_number(env)) {
                (Some(a), Some(b)) => a.checked_mul(b),
                _ => None,
            },
            Token::LessThan(_, _) => None,
        }
    }

    /// Decides `well_formed`: whether repeated reduction of this
    /// expression against `env` can run into no fatal condition.
    pub fn is_well_formed(&self, env: &Environment) -> (r: bool)
        requires
            env.wf(),
        ensures
            r == well_formed(*self, env@),
    {
        match self {
            Token::Number(_) => true,
            Token::BoolValue(_) => true,
            Token::Var(name) => env.get(name).is_some(),
            Token::Add(_, _) => self.settles_to_number(env).is_some(),
            Token::Multiply(_, _) => self.settles_to_number(env).is_some(),
            Token::LessThan(l, r) => l.settles_to_number(env).is_some() && r.settles_to_number(
                env,
            ).is_some(),
        }
    }

    /// Performs exactly one reduction step against `env` and returns the
    /// new expression, sharing every untouched operand with `self`.
    /// Returns the fatal condition instead when `self` is already a value,
    /// when a variable is unbound, or when an operand settles into a
    /// non-`Number` normal form.
    pub fn reduce(&self, env: &Environment) -> (r: Result<Token, ReduceError>)
        requires
            env.wf(),
            step_fits(*self),
        ensures
            r == spec_reduce(*self, env@),
        decreases *self,
    {
        match self {
            Token::Number(_) => Err(ReduceError::ReduceOnIrreducible),
            Token::BoolValue(_) => Err(ReduceError::ReduceOnIrreducible),
            Token::Var(name) => match env.get(name) {
                Some(t) => Ok(t.deep_clone()),
                None => Err(ReduceError::UnboundVariable),
            },
            Token::Add(l, r) => {
                if l.is_reducible() {
                    match l.reduce(env) {
                        Ok(l2) => Ok(Token::Add(Box::new(l2), Box::new(r.deep_clone()))),
                        Err(e) => Err(e),
                    }
                } else if r.is_reducible() {
                    match r.reduce(env) {
                        Ok(r2) => Ok(Token::Add(Box::new(l.deep_clone()), Box::new(r2))),
                        Err(e) => Err(e),
                    }
                } else {
                    match (&**l, &**r) {
                        (Token::Number(a), Token::Number(b)) => Ok(Token::Number(*a + *b)),
                        _ => Err(ReduceError::IllTypedOperand),
                    }
                }
            },
            Token::Multiply(l, r) => {
                if l.is_reducible() {
                    match l.reduce(env) {
                        Ok(l2) => Ok(Token::Multiply(Box::new(l2), Box::new(r.deep_clone()))),
                        Err(e) => Err(e),
                    }
                } else if r.is_reducible() {
                    match r.reduce(env) {
                        Ok(r2) => Ok(Token::Multiply(Box::new(l.deep_clone()), Box::new(r2))),
                        Err(e) => Err(e),
                    }
                } else {
                    match (&**l, &**r) {
                        (Token::Number(a), Token::Number(b)) => Ok(Token::Number(*a * *b)),
                        _ => Err(ReduceError::IllTypedOperand),
                    }
                }
            },
            Token::LessThan(l, r) => {
                if l.is_reducible() {
                    match l.reduce(env) {
                        Ok(l2) => Ok(Token::LessThan(Box::new(l2), Box::new(r.deep_clone()))),
                        Err(e) => Err(e),
                    }
                } else if r.is_reducible() {
                    match r.reduce(env) {
                        Ok(r2) => Ok(Token::LessThan(Box::new(l.deep_clone()), Box::new(r2))),
                        Err(e) => Err(e),
                    }
                } else {
                    match (&**l, &**r) {
                        (Token::Number(a), Token::Number(b)) => Ok(Token::BoolValue(*a < *b)),
                        _ => Err(ReduceError::IllTypedOperand),
                    }
                }
            },
        }
    }
}

} // verus!
