//! The driver: rename, reduce one step, and stop at a fixpoint.

use vstd::prelude::*;
use std::collections::HashMap;
use crate::syntax::{Expression, RenameError, Term};
use crate::rename::{binder_count, renamed, rename};
use crate::reduce::{whnf_step, expand_whnf};

verus! {

/// The counter that each renaming pass starts from; the first fresh
/// name handed out is the one after it.
pub const FIRST_FRESH_NAME: u64 = 1000;

/// The model of a [`Step`].
pub enum StepTerm {
    Failed(RenameError),
    Done(Term),
    Reduced(Term, Term),
}

/// What one iteration of the driver found.
#[derive(Debug)]
pub enum Step {
    /// Renaming failed.
    Failed(RenameError),
    /// The renamed expression does not reduce: it is the final form.
    Done(Expression),
    /// The renamed expression, and what one step made of it.
    Reduced { renamed: Expression, next: Expression },
}

impl View for Step {
    type V = StepTerm;

    open spec fn view(&self) -> StepTerm {
        match self {
            Step::Failed(err) => StepTerm::Failed(*err),
            Step::Done(e) => StepTerm::Done(e@),
            Step::Reduced { renamed, next } => StepTerm::Reduced(renamed@, next@),
        }
    }
}

/// One iteration: rename under an empty scope with a fresh counter, then
/// compare the renamed term with its reduct.
pub open spec fn step_model(t: Term) -> StepTerm {
    match renamed(Map::empty(), t, FIRST_FRESH_NAME as nat) {
        Err(err) => StepTerm::Failed(err),
        Ok(r) => if whnf_step(r) == r {
            StepTerm::Done(r)
        } else {
            StepTerm::Reduced(r, whnf_step(r))
        },
    }
}

/// Whether a renaming pass over `t` stays within the counter's range.
pub open spec fn names_suffice(t: Term) -> bool {
    FIRST_FRESH_NAME + binder_count(t) <= u64::MAX
}

/// Performs one iteration of the driver on `e`.
pub fn step_once(e: Expression) -> (r: Step)
    requires
        names_suffice(e@),
    ensures
        r@ == step_model(e@),
{
    let scope: HashMap<u64, u64> = HashMap::new();
    let mut names: u64 = FIRST_FRESH_NAME;
    match rename(&scope, e, &mut names) {
        Err(err) => Step::Failed(err),
        Ok(renamed) => {
            let before = renamed.duplicate();
            let after = expand_whnf(renamed);
            if before.equals(&after) {
                Step::Done(before)
            } else {
                Step::Reduced { renamed: before, next: after }
            }
        },
    }
}

/// The number of binders that renaming visits in `e`, or `cap` if there
/// are more.
pub fn count_binders(e: &Expression, cap: u64) -> (r: u64)
    ensures
        r as nat == if binder_count(e@) < cap {
            binder_count(e@)
        } else {
            cap as nat
        },
    decreases e,
{
    match e {
        Expression::Application { function, argument } => {
            let f = count_binders(function, cap);
            if f == cap {
                cap
            } else {
                f + count_binders(argument, cap - f)
            }
        },
        Expression::Lambda { body, .. } => if cap == 0 {
            0
        } else {
            1 + count_binders(body, cap - 1)
        },
        Expression::Case { scrutinee, .. } => count_binders(scrutinee, cap),
        _ => 0,
    }
}

/// Whether a renaming pass over `e` stays within the counter's range.
pub fn fits_fresh_names(e: &Expression) -> (r: bool)
    ensures
        r == names_suffice(e@),
{
    let cap: u64 = u64::MAX - FIRST_FRESH_NAME + 1;
    count_binders(e, cap) < cap
}

/// How a bounded run of the driver ended.
#[derive(Debug, Clone, Copy, PartialEq, Eq, Structural)]
pub enum Outcome {
    /// A fixpoint was reached.
    Done,
    /// Renaming failed.
    Failed(RenameError),
    /// The iteration bound ran out first.
    Unfinished,
    /// The fresh-name counter would have overflowed.
    NamesExhausted,
}

/// The renamed expressions that a run of at most `fuel` iterations
/// passes through, in order.
pub open spec fn trace_of(t: Term, fuel: nat) -> Seq<Term>
    decreases fuel,
{
    if fuel == 0 || !names_suffice(t) {
        Seq::empty()
    } else {
        match step_model(t) {
            StepTerm::Failed(_) => Seq::empty(),
            StepTerm::Done(r) => seq![r],
            StepTerm::Reduced(r, n) => seq![r] + trace_of(n, (fuel - 1) as nat),
        }
    }
}

/// How a run of at most `fuel` iterations ends.
pub open spec fn outcome_of(t: Term, fuel: nat) -> Outcome
    decreases fuel,
{
    if fuel == 0 {
        Outcome::Unfinished
    } else if !names_suffice(t) {
        Outcome::NamesExhausted
    } else {
        match step_model(t) {
            StepTerm::Failed(err) => Outcome::Failed(err),
            StepTerm::Done(_) => Outcome::Done,
            StepTerm::Reduced(_, n) => outcome_of(n, (fuel - 1) as nat),
        }
    }
}

/// The models of a sequence of expressions.
pub open spec fn terms_of(v: Seq<Expression>) -> Seq<Term> {
    v.map_values(|x: Expression| x@)
}

/// A bounded run of the driver.
#[derive(Debug)]
pub struct Run {
    /// The renamed expression of each iteration.
    pub trace: Vec<Expression>,
    pub outcome: Outcome,
}

/// Runs the driver on `e` for at most `max_iterations` iterations.
pub fn run(e: Expression, max_iterations: usize) -> (r: Run)
    ensures
        terms_of(r.trace@) == trace_of(e@, max_iterations as nat),
        r.outcome == outcome_of(e@, max_iterations as nat),
{
    let ghost start = e@;
    let mut trace: Vec<Expression> = Vec::new();
    let mut cur = e;
    let mut fuel: usize = max_iterations;
    loop
        invariant
            fuel <= max_iterations,
            start == e@,
            trace_of(start, max_iterations as nat) == terms_of(trace@) + trace_of(cur@, fuel as nat),
            outcome_of(start, max_iterations as nat) == outcome_of(cur@, fuel as nat),
        decreases fuel,
    {
        if fuel == 0 {
            assert(trace_of(cur@, 0) == Seq::<Term>::empty());
            assert(terms_of(trace@) + Seq::<Term>::empty() =~= terms_of(trace@));
            return Run { trace, outcome: Outcome::Unfinished };
        }
        if !fits_fresh_names(&cur) {
            assert(trace_of(cur@, fuel as nat) == Seq::<Term>::empty());
            assert(terms_of(trace@) + Seq::<Term>::empty() =~= terms_of(trace@));
            return Run { trace, outcome: Outcome::NamesExhausted };
        }
        let ghost before = trace@;
        match step_once(cur) {
            Step::Failed(err) => {
                assert(terms_of(trace@) + Seq::<Term>::empty() =~= terms_of(trace@));
                return Run { trace, outcome: Outcome::Failed(err) };
            },
            Step::Done(renamed) => {
                trace.push(renamed);
                assert(terms_of(trace@) =~= terms_of(before) + seq![renamed@]);
                assert(trace_of(start, max_iterations as nat) == terms_of(before) + seq![renamed@]);
                return Run { trace, outcome: Outcome::Done };
            },
            Step::Reduced { renamed, next } => {
                let ghost r = renamed@;
                trace.push(renamed);
                assert(terms_of(trace@) =~= terms_of(before).push(r));
                assert(terms_of(before) + (seq![r] + trace_of(next@, (fuel - 1) as nat))
                    =~= terms_of(trace@) + trace_of(next@, (fuel - 1) as nat));
                cur = next;
                fuel = fuel - 1;
            },
        }
    }
}

} // verus!
