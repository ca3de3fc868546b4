//! The expression tree of the language and its reducibility predicate.

use vstd::prelude::*;

verus! {

/// One node of an expression tree. `Number` and `BoolValue` are values
/// (normal forms); `Var`, `Add`, `Multiply` and `LessThan` are reducible.
/// Nodes are immutable once built: reduction always produces a new tree.
#[derive(Debug, PartialEq)]
pub enum Token {
    Number(i32),
    BoolValue(bool),
    Var(String),
    Add(Box<Token>, Box<Token>),
    Multiply(Box<Token>, Box<Token>),
    LessThan(Box<Token>, Box<Token>),
}

/// A node is reducible exactly when it is not a value. Reducibility is a
/// property of the node kind alone, never of the operands' state.
pub open spec fn spec_reducible(t: Token) -> bool {
    match t {
        Token::Number(_) => false,
        Token::BoolValue(_) => false,
        Token::Var(_) => true,
        Token::Add(_, _) => true,
        Token::Multiply(_, _) => true,
        Token::LessThan(_, _) => true,
    }
}

/// True when every expression bound in the table is a value (irreducible).
/// Reduction against such a table substitutes values for names in one step.
pub open spec fn env_of_values(env: Map<Seq<char>, Token>) -> bool {
    forall|k: Seq<char>| #[trigger] env.contains_key(k) ==> !spec_reducible(env[k])
}

impl Token {
    /// True for every node kind on which `reduce` can make progress,
    /// false exactly for `Number` and `BoolValue`.
    pub fn is_reducible(&self) -> (r: bool)
        ensures
            r == spec_reducible(*self),
            r == !(*self is Number || *self is BoolValue),
    {
        match self {
            Token::Number(_) => false,
            Token::BoolValue(_) => false,
            Token::Var(_) => true,
            Token::Add(_, _) => true,
            Token::Multiply(_, _) => true,
            Token::LessThan(_, _) => true,
        }
    }

    /// Rebuilds this tree node by node; the copy equals the original.
    pub fn deep_clone(&self) -> (r: Token)
        ensures
            r == *self,
        decreases *self,
    {
        match self {
            Token::Number(v) => Token::Number(*v),
            Token::BoolValue(b) => Token::BoolValue(*b),
            Token::Var(name) => Token::Var(name.clone()),
            Token::Add(l, r) => Token::Add(Box::new(l.deep_clone()), Box::new(r.deep_clone())),
            Token::Multiply(l, r) => Token::Multiply(
                Box::new(l.deep_clone()),
                Box::new(r.deep_clone()),
            ),
            Token::LessThan(l, r) => Token::LessThan(
                Box::new(l.deep_clone()),
                Box::new(r.deep_clone()),
            ),
        }
    }
}

} // verus!
