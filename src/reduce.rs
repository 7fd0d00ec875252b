//! Substitution and one step of reduction towards weak head normal form.

use vstd::prelude::*;
use crate::syntax::{Name, Expression, Term};

verus! {

/// `t` with every variable named `that` replaced by `arg`, in the parts
/// that substitution visits: case expressions are left as they are.
/// Binders are not checked against `that`; renaming has made them unique.
pub open spec fn substituted(that: Name, t: Term, arg: Term) -> Term
    decreases t,
{
    match t {
        Term::Var(n) => if n == that {
            arg
        } else {
            t
        },
        Term::Lam(p, b) => Term::Lam(p, Box::new(substituted(that, *b, arg))),
        Term::App(f, a) => Term::App(
            Box::new(substituted(that, *f, arg)),
            Box::new(substituted(that, *a, arg)),
        ),
        _ => t,
    }
}

/// One step of leftmost, call-by-name reduction. A redex at the head
/// fires; an application of a constructor is a value; any other
/// application reduces its function part; everything else is left as
/// it is.
pub open spec fn whnf_step(t: Term) -> Term
    decreases t,
{
    match t {
        Term::App(f, a) => match *f {
            Term::Lam(p, b) => substituted(p, *b, *a),
            Term::Con(_) => t,
            g => Term::App(Box::new(whnf_step(g)), a),
        },
        _ => t,
    }
}

/// Replaces every variable named `that` in `e` by a copy of `arg`.
pub fn substitute(that: Name, e: Expression, arg: Expression) -> (r: Expression)
    ensures
        r@ == substituted(that, e@, arg@),
    decreases e,
{
    match e {
        Expression::Variable { name } => if name.0 == that.0 {
            arg
        } else {
            Expression::Variable { name }
        },
        Expression::Lambda { parameter, body } => Expression::Lambda {
            parameter,
            body: Box::new(substitute(that, *body, arg)),
        },
        Expression::Application { function, argument } => {
            let copy = arg.duplicate();
            Expression::Application {
                function: Box::new(substitute(that, *function, copy)),
                argument: Box::new(substitute(that, *argument, arg)),
            }
        },
        Expression::Literal { literal } => Expression::Literal { literal },
        Expression::Constructor { name } => Expression::Constructor { name },
        Expression::Case { scrutinee, alternatives } => Expression::Case {
            scrutinee,
            alternatives,
        },
    }
}

/// Performs one step of reduction towards weak head normal form.
pub fn expand_whnf(e: Expression) -> (r: Expression)
    ensures
        r@ == whnf_step(e@),
    decreases e,
{
    match e {
        Expression::Application { function, argument } => {
            proof {
                assert(e@ == Term::App(Box::new(function@), Box::new(argument@)));
            }
            match *function {
                Expression::Lambda { parameter, body } => substitute(parameter, *body, *argument),
                Expression::Constructor { name } => Expression::Application {
                    function: Box::new(Expression::Constructor { name }),
                    argument,
                },
                func => {
                    let inner = expand_whnf(func);
                    Expression::Application { function: Box::new(inner), argument }
                },
            }
        },
        Expression::Variable { name } => Expression::Variable { name },
        Expression::Constructor { name } => Expression::Constructor { name },
        Expression::Literal { literal } => Expression::Literal { literal },
        Expression::Lambda { parameter, body } => Expression::Lambda { parameter, body },
        Expression::Case { scrutinee, alternatives } => Expression::Case {
            scrutinee,
            alternatives,
        },
    }
}

} // verus!
