//! The expression tree of the Calq language and its evaluation.

use vstd::prelude::*;
use crate::essence::{Essence, EssenceVector};

verus! {

/// A Calq expression: sums and differences of quantities of essence.
#[derive(Debug, PartialEq, Hash)]
pub enum CalqAst {
    /// The sum of two expressions.
    Sum(Box<CalqAst>, Box<CalqAst>),
    /// The first expression less the second.
    Subtract(Box<CalqAst>, Box<CalqAst>),
    /// A number of units of one kind of essence.
    Atom(usize, Essence),
}

impl Clone for CalqAst {
    fn clone(&self) -> (res: Self)
        ensures
            res == *self,
        decreases self,
    {
        match self {
            CalqAst::Sum(a, b) => CalqAst::Sum(
                Box::new((&**a).clone()),
                Box::new((&**b).clone()),
            ),
            CalqAst::Subtract(a, b) => CalqAst::Subtract(
                Box::new((&**a).clone()),
                Box::new((&**b).clone()),
            ),
            CalqAst::Atom(i, e) => CalqAst::Atom(*i, *e),
        }
    }
}

/// What a Calq expression says, apart from the machine: coefficients are
/// natural numbers and essence is a vector of integers. This is the
/// mathematical model of [`CalqAst`].
pub enum Expression {
    /// The sum of two expressions.
    Sum(Box<Expression>, Box<Expression>),
    /// The first expression less the second.
    Subtract(Box<Expression>, Box<Expression>),
    /// A number of units of one kind of essence.
    Atom(nat, EssenceVector),
}

impl Expression {
    /// The vector that the expression denotes: a sum combines the values
    /// of its parts, a difference removes the second from the first, and
    /// an atom is its essence multiplied by its coefficient.
    pub open spec fn value(self) -> EssenceVector
        decreases self,
    {
        match self {
            Expression::Sum(a, b) => a.value().combine(b.value()),
            Expression::Subtract(a, b) => a.value().remove(b.value()),
            Expression::Atom(i, e) => e.scale(i as int),
        }
    }

    /// The value of the expression and of each of its parts fits the
    /// machine's signed word on every axis.
    pub open spec fn in_range(self) -> bool
        decreases self,
    {
        match self {
            Expression::Sum(a, b) => a.in_range() && b.in_range() && self.value().fits(),
            Expression::Subtract(a, b) => a.in_range() && b.in_range() && self.value().fits(),
            Expression::Atom(i, e) => self.value().fits(),
        }
    }
}

impl View for CalqAst {
    type V = Expression;

    open spec fn view(&self) -> Expression {
        self.model()
    }
}

impl CalqAst {
    /// The expression that the tree stands for.
    pub open spec fn model(self) -> Expression
        decreases self,
    {
        match self {
            CalqAst::Sum(a, b) => Expression::Sum(Box::new(a.model()), Box::new(b.model())),
            CalqAst::Subtract(a, b) => Expression::Subtract(
                Box::new(a.model()),
                Box::new(b.model()),
            ),
            CalqAst::Atom(i, e) => Expression::Atom(i as nat, e@),
        }
    }

    /// Evaluates the expression: a sum combines the values of its parts,
    /// a difference removes the second from the first, and an atom is its
    /// essence multiplied by its coefficient.
    pub fn eval(&self) -> (e: Essence)
        requires
            self@.in_range(),
        ensures
            e@ == self@.value(),
        decreases self,
    {
        match self {
            CalqAst::Sum(a, b) => {
                let a = a.eval();
                let b = b.eval();
                a.combine(&b)
            },
            CalqAst::Subtract(a, b) => {
                let a = a.eval();
                let b = b.eval();
                a.remove(&b)
            },
            CalqAst::Atom(i, e) => e.product(*i),
        }
    }

    /// Evaluates the expression where every part of it stays in the
    /// machine range, and returns `None` where one does not.
    pub fn checked_eval(&self) -> (r: Option<Essence>)
        ensures
            r is Some <==> self@.in_range(),
            r is Some ==> r->0@ == self@.value(),
        decreases self,
    {
        match self {
            CalqAst::Sum(a, b) => {
                match (a.checked_eval(), b.checked_eval()) {
                    (Some(a), Some(b)) => a.checked_combine(&b),
                    _ => None,
                }
            },
            CalqAst::Subtract(a, b) => {
                match (a.checked_eval(), b.checked_eval()) {
                    (Some(a), Some(b)) => a.checked_remove(&b),
                    _ => None,
                }
            },
            CalqAst::Atom(i, e) => e.checked_product(*i),
        }
    }
}

} // verus!
