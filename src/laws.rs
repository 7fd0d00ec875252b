//! Properties of renaming, substitution, reduction and the driver.

use vstd::prelude::*;
use crate::syntax::{Name, Literal, RenameError, Term};
use crate::rename::{binder_count, renamed};
use crate::reduce::{substituted, whnf_step};
use crate::stepper::{FIRST_FRESH_NAME, names_suffice, trace_of, outcome_of, Outcome};

verus! {

/// The binder names of the parts of `t` that renaming visits, from left
/// to right.
pub open spec fn binders(t: Term) -> Seq<u64>
    decreases t,
{
    match t {
        Term::App(f, a) => binders(*f) + binders(*a),
        Term::Lam(p, b) => seq![p.0] + binders(*b),
        Term::Case(s, _) => binders(*s),
        _ => Seq::empty(),
    }
}

/// The `n` names that follow `last`, in increasing order.
pub open spec fn names_after(last: nat, n: nat) -> Seq<u64> {
    Seq::new(n, |i: int| (last + 1 + i) as u64)
}

/// Whether a variable named `that` stands in a part of `t` that
/// substitution visits.
pub open spec fn mentions(that: Name, t: Term) -> bool
    decreases t,
{
    match t {
        Term::Var(n) => n == that,
        Term::Lam(_, b) => mentions(that, *b),
        Term::App(f, a) => mentions(that, *f) || mentions(that, *a),
        _ => false,
    }
}

/// Every visited binder is counted once.
pub proof fn lemma_binders_len(t: Term)
    ensures
        binders(t).len() == binder_count(t),
    decreases t,
{
    match t {
        Term::App(f, a) => {
            lemma_binders_len(*f);
            lemma_binders_len(*a);
        },
        Term::Lam(_, b) => lemma_binders_len(*b),
        Term::Case(s, _) => lemma_binders_len(*s),
        _ => {},
    }
}

/// Renaming gives the binders, in order, the names that follow `last`.
pub proof fn lemma_renamed_binders(scope: Map<u64, u64>, t: Term, last: nat)
    requires
        last + binder_count(t) <= u64::MAX,
        renamed(scope, t, last) is Ok,
    ensures
        binders(renamed(scope, t, last)->Ok_0) == names_after(last, binder_count(t)),
    decreases t,
{
    match t {
        Term::App(f, a) => {
            lemma_renamed_binders(scope, *f, last);
            lemma_renamed_binders(scope, *a, last + binder_count(*f));
            assert(names_after(last, binder_count(*f)) + names_after(
                last + binder_count(*f),
                binder_count(*a),
            ) =~= names_after(last, binder_count(t)));
        },
        Term::Lam(p, b) => {
            lemma_renamed_binders(scope.insert(p.0, (last + 1) as u64), *b, last + 1);
            assert(seq![(last + 1) as u64] + names_after(last + 1, binder_count(*b)) =~= names_after(
                last,
                binder_count(t),
            ));
        },
        Term::Case(s, _) => lemma_renamed_binders(scope, *s, last),
        _ => {
            assert(names_after(last, 0) =~= Seq::<u64>::empty());
        },
    }
}

/// After a successful renaming of a term with N visited binders, there are
/// N binder names, pairwise distinct, all after `last`: none of them is a
/// name of the scope that is not after `last`.
pub proof fn lemma_renaming_freshness(scope: Map<u64, u64>, t: Term, last: nat)
    requires
        last + binder_count(t) <= u64::MAX,
        renamed(scope, t, last) is Ok,
    ensures
        ({
            let b = binders(renamed(scope, t, last)->Ok_0);
            &&& b.len() == binders(t).len()
            &&& forall|i: int, j: int| 0 <= i < j < b.len() ==> b[i] != b[j]
            &&& forall|i: int| 0 <= i < b.len() ==> last < #[trigger] b[i] <= last + b.len()
            &&& forall|i: int, k: u64|
                0 <= i < b.len() && scope.contains_key(k) && scope[k] <= last ==> #[trigger] b[i]
                    != #[trigger] scope[k]
            &&& forall|i: int, k: u64|
                0 <= i < b.len() && #[trigger] scope.contains_key(k) && k <= last ==> #[trigger] b[i] != k
        }),
{
    lemma_binders_len(t);
    lemma_renamed_binders(scope, t, last);
}

/// A variable under an empty scope fails to rename, naming itself.
pub proof fn lemma_unbound_variable_fails(x: Name, last: nat)
    ensures
        renamed(Map::empty(), Term::Var(x), last) == Err::<Term, RenameError>(
            RenameError::MissingName(x),
        ),
{
}

/// Substituting for a name that no visited variable carries leaves the
/// term as it is.
pub proof fn lemma_substitution_identity(that: Name, t: Term, arg: Term)
    requires
        !mentions(that, t),
    ensures
        substituted(that, t, arg) == t,
    decreases t,
{
    match t {
        Term::App(f, a) => {
            lemma_substitution_identity(that, *f, arg);
            lemma_substitution_identity(that, *a, arg);
        },
        Term::Lam(_, b) => lemma_substitution_identity(that, *b, arg),
        _ => {},
    }
}

/// The identity function applied to a term reduces to that term in one
/// step.
pub proof fn lemma_identity_redex(p: Name, v: Term)
    ensures
        whnf_step(Term::App(Box::new(Term::Lam(p, Box::new(Term::Var(p)))), Box::new(v))) == v,
{
}

/// In `((λp. p) a) b` the leftmost redex fires first, giving `a b`.
pub proof fn lemma_leftmost_redex_first(p: Name, a: Term, b: Term)
    ensures
        whnf_step(
            Term::App(
                Box::new(Term::App(Box::new(Term::Lam(p, Box::new(Term::Var(p)))), Box::new(a))),
                Box::new(b),
            ),
        ) == Term::App(Box::new(a), Box::new(b)),
{
    let redex = Term::App(Box::new(Term::Lam(p, Box::new(Term::Var(p)))), Box::new(a));
    assert(whnf_step(redex) == a);
}

/// An application of a constructor is already in weak head normal form.
pub proof fn lemma_constructor_application_is_value(c: Seq<char>, x: Term)
    ensures
        whnf_step(Term::App(Box::new(Term::Con(c)), Box::new(x))) == Term::App(
            Box::new(Term::Con(c)),
            Box::new(x),
        ),
{
}

/// A literal is done after one iteration.
pub proof fn lemma_literal_done(l: Literal, fuel: nat)
    requires
        fuel >= 1,
    ensures
        trace_of(Term::Lit(l), fuel) == seq![Term::Lit(l)],
        outcome_of(Term::Lit(l), fuel) == Outcome::Done,
{
}

/// A lambda that renames without error is done after one iteration, and
/// that iteration shows its renamed form.
pub proof fn lemma_lambda_done(p: Name, body: Term, fuel: nat)
    requires
        fuel >= 1,
        names_suffice(Term::Lam(p, Box::new(body))),
        renamed(Map::empty(), Term::Lam(p, Box::new(body)), FIRST_FRESH_NAME as nat) is Ok,
    ensures
        trace_of(Term::Lam(p, Box::new(body)), fuel) == seq![
            renamed(Map::empty(), Term::Lam(p, Box::new(body)), FIRST_FRESH_NAME as nat)->Ok_0,
        ],
        outcome_of(Term::Lam(p, Box::new(body)), fuel) == Outcome::Done,
{
}

} // verus!
