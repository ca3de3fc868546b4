//! The driver: a machine holds one current expression and an environment,
//! and repeatedly reduces until the expression is irreducible, recording
//! every state's rendered text.
//!
//! The environment the machine stores is the one evaluation consults:
//! `run` reads it for every variable lookup and never writes to it. A
//! machine built by `new` starts with an empty table; bindings are
//! supplied up front through `with_environment`.

use vstd::prelude::*;

use crate::environment::Environment;
use crate::laws::{lemma_normal_form_stops, lemma_step_well_formed};
use crate::render::rendered;
use crate::semantics::{
    red_steps, spec_reduce, state_at, step_fits, step_of, well_formed, ReduceError,
};
use crate::token::{env_of_values, spec_reducible, Token};

verus! {

/// A machine: the single mutable slot holding the current expression, and
/// the binding table used for variable lookups.
pub struct Machine {
    expression: Token,
    environment: Environment,
}

impl Machine {
    /// The current expression.
    pub closed spec fn expr(self) -> Token {
        self.expression
    }

    /// The bindings the machine resolves variables against.
    pub closed spec fn env(self) -> Map<Seq<char>, Token> {
        self.environment@
    }

    /// The machine's binding table is well-formed.
    pub closed spec fn wf(self) -> bool {
        self.environment.wf()
    }

    /// A machine around `expression` with no bindings.
    pub fn new(expression: Token) -> (m: Machine)
        ensures
            m.expr() == expression,
            m.env() == Map::<Seq<char>, Token>::empty(),
            m.wf(),
    {
        Machine { expression, environment: Environment::new() }
    }

    /// A machine around `expression` that resolves variables against
    /// `environment`. Bindings must be established before evaluation; the
    /// machine never writes to the table.
    pub fn with_environment(expression: Token, environment: Environment) -> (m: Machine)
        requires
            environment.wf(),
        ensures
            m.expr() == expression,
            m.env() == environment@,
            m.wf(),
    {
        Machine { expression, environment }
    }

    /// The current expression, for inspection between steps.
    pub fn current(&self) -> (t: &Token)
        ensures
            *t == self.expr(),
    {
        &self.expression
    }

    /// Replaces the current expression with the result of one reduction
    /// step, or reports the fatal condition the step hit, leaving the
    /// expression as it was. The environment is only read.
    pub fn step(&mut self) -> (r: Result<(), ReduceError>)
        requires
            old(self).wf(),
            step_fits(old(self).expr()),
        ensures
            final(self).wf(),
            final(self).env() == old(self).env(),
            match r {
                Ok(_) => spec_reduce(old(self).expr(), old(self).env()) == Ok::<
                    Token,
                    ReduceError,
                >(final(self).expr()),
                Err(e) => spec_reduce(old(self).expr(), old(self).env()) == Err::<
                    Token,
                    ReduceError,
                >(e) && final(self).expr() == old(self).expr(),
            },
    {
        match self.expression.reduce(&self.environment) {
            Ok(t) => {
                self.expression = t;
                Ok(())
            },
            Err(e) => Err(e),
        }
    }

    /// Decides `run`'s precondition: every binding is a value and the
    /// current expression is well-formed, so evaluation can hit no fatal
    /// condition.
    pub fn can_run(&self) -> (r: bool)
        requires
            self.wf(),
        ensures
            r == (env_of_values(self.env()) && well_formed(self.expr(), self.env())),
    {
        self.environment.all_values() && self.expression.is_well_formed(&self.environment)
    }

    /// Evaluates the current expression to normal form, one reduction step
    /// at a time, and returns the rendered text of every state: the
    /// initial expression, each intermediate state, and the final
    /// irreducible value — exactly `red_steps` reductions.
    pub fn run(&mut self) -> (trace: Vec<String>)
        requires
            old(self).wf(),
            env_of_values(old(self).env()),
            well_formed(old(self).expr(), old(self).env()),
        ensures
            final(self).wf(),
            final(self).env() == old(self).env(),
            trace@.len() == red_steps(old(self).expr()) + 1,
            forall|i: int| 0 <= i < trace@.len() ==> trace@[i]@ == rendered(
                state_at(old(self).expr(), old(self).env(), i as nat),
            ),
            final(self).expr() == state_at(
                old(self).expr(),
                old(self).env(),
                red_steps(old(self).expr()),
            ),
            !spec_reducible(final(self).expr()),
    {
        let ghost t0 = self.expression;
        let ghost env0 = self.environment@;
        let mut trace: Vec<String> = Vec::new();
        let first = self.expression.to_string();
        trace.push(first);
        while self.expression.is_reducible()
            invariant
                self.environment.wf(),
                self.environment@ == env0,
                env_of_values(env0),
                well_formed(self.expression, env0),
                trace@.len() >= 1,
                trace@.len() - 1 + red_steps(self.expression) == red_steps(t0),
                self.expression == state_at(t0, env0, (trace@.len() - 1) as nat),
                forall|i: int| 0 <= i < trace@.len() ==> trace@[i]@ == rendered(
                    state_at(t0, env0, i as nat),
                ),
            decreases red_steps(self.expression),
        {
            proof {
                lemma_step_well_formed(self.expression, env0);
            }
            let ghost k: nat = (trace@.len() - 1) as nat;
            match self.expression.reduce(&self.environment) {
                Ok(t) => {
                    self.expression = t;
                },
                Err(_) => {
                    proof {
                        assert(false);
                    }
                },
            }
            proof {
                assert(state_at(t0, env0, k + 1) == step_of(state_at(t0, env0, k), env0));
            }
            let next = self.expression.to_string();
            trace.push(next);
        }
        proof {
            lemma_normal_form_stops(self.expression);
        }
        trace
    }
}

} // verus!
