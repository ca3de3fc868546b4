//! The general laws of the semantics, stated and proved once for all
//! expressions: values are exactly the irreducible forms, exactly one
//! reduction case fires per step, rendering is pure, and a well-formed
//! closed expression reaches normal form in exactly `red_steps` steps.

use vstd::prelude::*;

use crate::render::rendered;
use crate::semantics::{
    num_value, numeric_ok, red_steps, spec_reduce, state_at, step_fits, step_of, well_formed,
    ReduceError,
};
use crate::token::{env_of_values, spec_reducible, Token};

verus! {

/// Values (`Number`, `BoolValue`) are exactly the irreducible expressions,
/// and a reduction step on a value reports `ReduceOnIrreducible`, whatever
/// the environment holds.
pub proof fn lemma_values_irreducible(t: Token, env: Map<Seq<char>, Token>)
    ensures
        spec_reducible(t) <==> !(t is Number || t is BoolValue),
        !spec_reducible(t) ==> spec_reduce(t, env) == Err::<Token, ReduceError>(
            ReduceError::ReduceOnIrreducible,
        ),
{
}

/// Rendering is a pure function of tree shape and leaf values: equal trees
/// render identically.
pub proof fn lemma_render_pure(t1: Token, t2: Token)
    requires
        t1 == t2,
    ensures
        rendered(t1) == rendered(t2),
{
}

/// The node is a binary operation.
pub open spec fn is_binary(t: Token) -> bool {
    t is Add || t is Multiply || t is LessThan
}

/// The left operand of a binary node.
pub open spec fn left_of(t: Token) -> Token {
    match t {
        Token::Add(l, _) => *l,
        Token::Multiply(l, _) => *l,
        Token::LessThan(l, _) => *l,
        _ => t,
    }
}

/// The right operand of a binary node.
pub open spec fn right_of(t: Token) -> Token {
    match t {
        Token::Add(_, r) => *r,
        Token::Multiply(_, r) => *r,
        Token::LessThan(_, r) => *r,
        _ => t,
    }
}

/// The same binary operation rebuilt around new operands.
pub open spec fn with_operands(t: Token, l: Token, r: Token) -> Token {
    match t {
        Token::Add(_, _) => Token::Add(Box::new(l), Box::new(r)),
        Token::Multiply(_, _) => Token::Multiply(Box::new(l), Box::new(r)),
        Token::LessThan(_, _) => Token::LessThan(Box::new(l), Box::new(r)),
        _ => t,
    }
}

/// The step reduces the left operand: it is reducible, so it has priority.
pub open spec fn reduces_left(t: Token) -> bool {
    is_binary(t) && spec_reducible(left_of(t))
}

/// The step reduces the right operand: only once the left is in normal
/// form.
pub open spec fn reduces_right(t: Token) -> bool {
    is_binary(t) && !spec_reducible(left_of(t)) && spec_reducible(right_of(t))
}

/// The step applies the operator: both operands are in normal form.
pub open spec fn applies_operator(t: Token) -> bool {
    is_binary(t) && !spec_reducible(left_of(t)) && !spec_reducible(right_of(t))
}

/// The step substitutes a variable's bound expression.
pub open spec fn substitutes(t: Token) -> bool {
    t is Var
}

/// On every reducible expression exactly one reduction case fires, chosen
/// by the leftmost-innermost rule, and the step's result follows that
/// case: a left reduction keeps the right operand untouched, a right
/// reduction keeps the left operand untouched, an operator application
/// succeeds exactly on two `Number` operands, and an error below
/// propagates unchanged.
pub proof fn lemma_exactly_one_case(t: Token, env: Map<Seq<char>, Token>)
    requires
        spec_reducible(t),
    ensures
        substitutes(t) || reduces_left(t) || reduces_right(t) || applies_operator(t),
        substitutes(t) ==> !reduces_left(t) && !reduces_right(t) && !applies_operator(t),
        reduces_left(t) ==> !substitutes(t) && !reduces_right(t) && !applies_operator(t),
        reduces_right(t) ==> !substitutes(t) && !reduces_left(t) && !applies_operator(t),
        applies_operator(t) ==> !substitutes(t) && !reduces_left(t) && !reduces_right(t),
        reduces_left(t) && spec_reduce(left_of(t), env) is Ok ==> spec_reduce(t, env)
            == Ok::<Token, ReduceError>(with_operands(t, step_of(left_of(t), env), right_of(t))),
        reduces_left(t) && spec_reduce(left_of(t), env) is Err ==> spec_reduce(t, env)
            == spec_reduce(left_of(t), env),
        reduces_right(t) && spec_reduce(right_of(t), env) is Ok ==> spec_reduce(t, env)
            == Ok::<Token, ReduceError>(with_operands(t, left_of(t), step_of(right_of(t), env))),
        reduces_right(t) && spec_reduce(right_of(t), env) is Err ==> spec_reduce(t, env)
            == spec_reduce(right_of(t), env),
        applies_operator(t) ==> (spec_reduce(t, env) is Ok <==> left_of(t) is Number
            && right_of(t) is Number),
        applies_operator(t) && !(left_of(t) is Number && right_of(t) is Number) ==> spec_reduce(
            t,
            env,
        ) == Err::<Token, ReduceError>(ReduceError::IllTypedOperand),
{
    match t {
        Token::Add(l, r) => {
            if !spec_reducible(*l) && !spec_reducible(*r) {
                assert(spec_reduce(t, env) is Ok <==> *l is Number && *r is Number);
            }
        },
        Token::Multiply(l, r) => {
            if !spec_reducible(*l) && !spec_reducible(*r) {
                assert(spec_reduce(t, env) is Ok <==> *l is Number && *r is Number);
            }
        },
        Token::LessThan(l, r) => {
            if !spec_reducible(*l) && !spec_reducible(*r) {
                assert(spec_reduce(t, env) is Ok <==> *l is Number && *r is Number);
            }
        },
        _ => {},
    }
}

/// Progress and preservation for numeric expressions: against a table of
/// values, a reducible expression that settles to a number steps
/// successfully to one that still does, with the same value, one step
/// closer to normal form, and the step's arithmetic fits `i32`.
pub proof fn lemma_step_numeric(t: Token, env: Map<Seq<char>, Token>)
    requires
        env_of_values(env),
        numeric_ok(t, env),
        spec_reducible(t),
    ensures
        spec_reduce(t, env) is Ok,
        numeric_ok(step_of(t, env), env),
        num_value(step_of(t, env), env) == num_value(t, env),
        red_steps(step_of(t, env)) == red_steps(t) - 1,
        step_fits(t),
    decreases t,
{
    reveal_with_fuel(red_steps, 2);
    match t {
        Token::Var(name) => {
            assert(env.contains_key(name@));
            assert(step_of(t, env) == env[name@]);
        },
        Token::Add(l, r) => {
            if spec_reducible(*l) {
                lemma_step_numeric(*l, env);
            } else if spec_reducible(*r) {
                lemma_step_numeric(*r, env);
            } else {
                reveal_with_fuel(numeric_ok, 2);
                assert(*l is Number && *r is Number);
            }
        },
        Token::Multiply(l, r) => {
            if spec_reducible(*l) {
                lemma_step_numeric(*l, env);
            } else if spec_reducible(*r) {
                lemma_step_numeric(*r, env);
            } else {
                reveal_with_fuel(numeric_ok, 2);
                assert(*l is Number && *r is Number);
            }
        },
        _ => {},
    }
}

/// Progress and preservation for whole program states: against a table of
/// values, a well-formed reducible expression steps successfully to a
/// well-formed expression exactly one step closer to normal form, and the
/// step's arithmetic fits `i32`.
pub proof fn lemma_step_well_formed(t: Token, env: Map<Seq<char>, Token>)
    requires
        env_of_values(env),
        well_formed(t, env),
        spec_reducible(t),
    ensures
        spec_reduce(t, env) is Ok,
        well_formed(step_of(t, env), env),
        red_steps(step_of(t, env)) == red_steps(t) - 1,
        step_fits(t),
{
    match t {
        Token::Var(name) => {
            assert(env.contains_key(name@));
        },
        Token::Add(l, r) => {
            lemma_step_numeric(t, env);
        },
        Token::Multiply(l, r) => {
            lemma_step_numeric(t, env);
        },
        Token::LessThan(l, r) => {
            if spec_reducible(*l) {
                lemma_step_numeric(*l, env);
            } else if spec_reducible(*r) {
                lemma_step_numeric(*r, env);
            }
        },
        _ => {},
    }
}

/// Stepping first and iterating is iterating one step longer.
proof fn lemma_state_at_shift(t: Token, env: Map<Seq<char>, Token>, n: nat)
    ensures
        state_at(step_of(t, env), env, n) == state_at(t, env, n + 1),
    decreases n,
{
    if n == 0 {
        assert(state_at(t, env, 1) == step_of(state_at(t, env, 0), env));
    } else {
        lemma_state_at_shift(t, env, (n - 1) as nat);
        assert(state_at(t, env, n + 1) == step_of(state_at(t, env, n), env));
    }
}

/// A normal form makes no step at all.
pub proof fn lemma_normal_form_stops(t: Token)
    requires
        !spec_reducible(t),
    ensures
        red_steps(t) == 0,
{
}

/// Termination: repeated reduction of a well-formed expression against a
/// table of values reaches normal form after exactly `red_steps(t)` steps,
/// every state before that being reducible and well-formed.
pub proof fn lemma_evaluation_terminates(t: Token, env: Map<Seq<char>, Token>)
    requires
        env_of_values(env),
        well_formed(t, env),
    ensures
        !spec_reducible(state_at(t, env, red_steps(t))),
        forall|k: nat| k < red_steps(t) ==> spec_reducible(#[trigger] state_at(t, env, k))
            && well_formed(state_at(t, env, k), env) && spec_reduce(state_at(t, env, k), env)
            is Ok,
    decreases red_steps(t),
{
    if red_steps(t) == 0 {
        assert(!spec_reducible(t));
    } else {
        assert(spec_reducible(t));
        lemma_step_well_formed(t, env);
        let t1 = step_of(t, env);
        lemma_evaluation_terminates(t1, env);
        lemma_state_at_shift(t, env, (red_steps(t) - 1) as nat);
        assert(state_at(t, env, red_steps(t)) == state_at(t1, env, red_steps(t1)));
        assert forall|k: nat| k < red_steps(t) implies spec_reducible(
            #[trigger] state_at(t, env, k),
        ) && well_formed(state_at(t, env, k), env) && spec_reduce(state_at(t, env, k), env)
            is Ok by {
            if k > 0 {
                lemma_state_at_shift(t, env, (k - 1) as nat);
                assert(state_at(t, env, k) == state_at(t1, env, (k - 1) as nat));
            }
        }
    }
}

} // verus!
