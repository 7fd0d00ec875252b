//! Alpha-renaming: every binder gets a fresh name and every variable is
//! resolved against a scope.

use vstd::prelude::*;
use std::collections::HashMap;
use crate::syntax::{Name, Expression, RenameError, Term};

verus! {

broadcast use vstd::std_specs::hash::group_hash_axioms;

/// The number of binders that renaming visits: the lambdas of the tree,
/// leaving out those inside case alternatives.
pub open spec fn binder_count(t: Term) -> nat
    decreases t,
{
    match t {
        Term::App(f, a) => binder_count(*f) + binder_count(*a),
        Term::Lam(_, b) => 1 + binder_count(*b),
        Term::Case(s, _) => binder_count(*s),
        _ => 0,
    }
}

/// Renaming of `t` under `scope`, where the last name handed out so far
/// is `last`. Each binder takes the next number; its body is renamed
/// under the scope extended by that binder alone.
pub open spec fn renamed(scope: Map<u64, u64>, t: Term, last: nat) -> Result<Term, RenameError>
    decreases t,
{
    match t {
        Term::Var(n) => if scope.contains_key(n.0) {
            Ok(Term::Var(Name(scope[n.0])))
        } else {
            Err(RenameError::MissingName(n))
        },
        Term::App(f, a) => match renamed(scope, *f, last) {
            Err(err) => Err(err),
            Ok(f2) => match renamed(scope, *a, last + binder_count(*f)) {
                Err(err) => Err(err),
                Ok(a2) => Ok(Term::App(Box::new(f2), Box::new(a2))),
            },
        },
        Term::Lam(p, b) => {
            let fresh = (last + 1) as u64;
            match renamed(scope.insert(p.0, fresh), *b, last + 1) {
                Err(err) => Err(err),
                Ok(b2) => Ok(Term::Lam(Name(fresh), Box::new(b2))),
            }
        },
        Term::Case(s, alts) => match renamed(scope, *s, last) {
            Err(err) => Err(err),
            Ok(s2) => Ok(Term::Case(Box::new(s2), alts)),
        },
        _ => Ok(t),
    }
}

/// Renames `e` under `scope`. `names` holds the last fresh name handed
/// out; each binder takes the next one. On success every binder that
/// was visited has taken one name.
pub fn rename(scope: &HashMap<u64, u64>, e: Expression, names: &mut u64) -> (r: Result<
    Expression,
    RenameError,
>)
    requires
        *old(names) + binder_count(e@) <= u64::MAX,
    ensures
        match r {
            Ok(x) => renamed(scope@, e@, *old(names) as nat) == Ok::<Term, RenameError>(x@),
            Err(err) => renamed(scope@, e@, *old(names) as nat) == Err::<Term, RenameError>(err),
        },
        r is Ok ==> *final(names) == *old(names) + binder_count(e@),
        *old(names) <= *final(names) <= *old(names) + binder_count(e@),
    decreases e,
{
    match e {
        Expression::Variable { name } => match scope.get(&name.0) {
            None => Err(RenameError::MissingName(name)),
            Some(replacement) => Ok(Expression::Variable { name: Name(*replacement) }),
        },
        Expression::Application { function, argument } => {
            let f = match rename(scope, *function, names) {
                Err(err) => return Err(err),
                Ok(f) => f,
            };
            let a = match rename(scope, *argument, names) {
                Err(err) => return Err(err),
                Ok(a) => a,
            };
            Ok(Expression::Application { function: Box::new(f), argument: Box::new(a) })
        },
        Expression::Lambda { parameter, body } => {
            *names = *names + 1;
            let fresh: u64 = *names;
            let mut inner: HashMap<u64, u64> = scope.clone();
            inner.insert(parameter.0, fresh);
            match rename(&inner, *body, names) {
                Err(err) => Err(err),
                Ok(b) => Ok(Expression::Lambda { parameter: Name(fresh), body: Box::new(b) }),
            }
        },
        Expression::Case { scrutinee, alternatives } => match rename(scope, *scrutinee, names) {
            Err(err) => Err(err),
            Ok(s) => Ok(Expression::Case { scrutinee: Box::new(s), alternatives }),
        },
        Expression::Literal { literal } => Ok(Expression::Literal { literal }),
        Expression::Constructor { name } => Ok(Expression::Constructor { name }),
    }
}

} // verus!
