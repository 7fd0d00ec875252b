use std::collections::HashMap;

use redex::syntax::{Alternative, Expression, Literal, Name, Pattern, RenameError};
use redex::rename::rename;
use redex::reduce::{expand_whnf, substitute};
use redex::stepper::{count_binders, fits_fresh_names, run, step_once, Outcome, Step, FIRST_FRESH_NAME};

fn var(n: u64) -> Expression {
    Expression::Variable { name: Name(n) }
}

fn lit(v: i64) -> Expression {
    Expression::Literal { literal: Literal::I64Literal { value: v } }
}

fn con(s: &str) -> Expression {
    Expression::Constructor { name: Box::new(s.to_string()) }
}

fn app(f: Expression, a: Expression) -> Expression {
    Expression::Application { function: Box::new(f), argument: Box::new(a) }
}

fn lam(p: u64, b: Expression) -> Expression {
    Expression::Lambda { parameter: Name(p), body: Box::new(b) }
}

fn same(a: &Expression, b: &Expression) -> bool {
    a.equals(b)
}

fn case_just() -> Expression {
    Expression::Case {
        scrutinee: Box::new(app(con("Just"), lit(123))),
        alternatives: vec![Box::new(Alternative {
            pattern: Box::new(Pattern::Constructor {
                name: Box::new("Just".to_string()),
                arguments: vec![Box::new(Pattern::Variable { name: Name(0) })],
            }),
            rhs: Box::new(var(0)),
        })],
    }
}

fn y_combinator() -> Expression {
    let half = lam(1, app(var(0), app(var(1), var(1))));
    lam(0, app(half.duplicate(), half))
}

#[test]
fn rename_unbound_variable_fails() {
    let scope: HashMap<u64, u64> = HashMap::new();
    let mut names: u64 = 1000;
    let r = rename(&scope, var(7), &mut names);
    assert_eq!(r.unwrap_err(), RenameError::MissingName(Name(7)));
}

#[test]
fn rename_gives_each_binder_a_fresh_name() {
    let scope: HashMap<u64, u64> = HashMap::new();
    let mut names: u64 = 1000;
    let e = app(lam(0, lam(1, app(var(0), var(1)))), lam(0, var(0)));
    let r = rename(&scope, e, &mut names).unwrap();
    let expected = app(lam(1001, lam(1002, app(var(1001), var(1002)))), lam(1003, var(1003)));
    assert!(same(&r, &expected));
    assert_eq!(names, 1003);
}

#[test]
fn rename_resolves_free_variables_through_scope() {
    let mut scope: HashMap<u64, u64> = HashMap::new();
    scope.insert(5, 9);
    let mut names: u64 = 10;
    let r = rename(&scope, app(var(5), lam(5, var(5))), &mut names).unwrap();
    assert!(same(&r, &app(var(9), lam(11, var(11)))));
}

#[test]
fn rename_scope_does_not_leak_to_siblings() {
    let scope: HashMap<u64, u64> = HashMap::new();
    let mut names: u64 = 1000;
    let r = rename(&scope, app(lam(0, var(0)), var(0)), &mut names);
    assert_eq!(r.unwrap_err(), RenameError::MissingName(Name(0)));
}

#[test]
fn rename_leaves_alternatives_alone() {
    let scope: HashMap<u64, u64> = HashMap::new();
    let mut names: u64 = 1000;
    let r = rename(&scope, case_just(), &mut names).unwrap();
    assert!(same(&r, &case_just()));
    assert_eq!(names, 1000);
}

#[test]
fn substitute_absent_name_is_identity() {
    let body = lam(1, app(var(1), lit(4)));
    let r = substitute(Name(0), body.duplicate(), lit(99));
    assert!(same(&r, &body));
}

#[test]
fn substitute_copies_replacement_into_every_site() {
    let body = app(var(0), lam(1, app(var(0), var(1))));
    let r = substitute(Name(0), body, con("K"));
    assert!(same(&r, &app(con("K"), lam(1, app(con("K"), var(1))))));
}

#[test]
fn substitute_does_not_enter_case() {
    let body = Expression::Case { scrutinee: Box::new(var(0)), alternatives: vec![] };
    let r = substitute(Name(0), body.duplicate(), lit(1));
    assert!(same(&r, &body));
}

#[test]
fn identity_redex_reduces_to_argument() {
    let v = app(con("Pair"), lit(3));
    let r = expand_whnf(app(lam(0, var(0)), v.duplicate()));
    assert!(same(&r, &v));
}

#[test]
fn leftmost_redex_reduces_first() {
    let a = lam(5, var(5));
    let b = app(lam(6, var(6)), lit(2));
    let r = expand_whnf(app(app(lam(0, var(0)), a.duplicate()), b.duplicate()));
    assert!(same(&r, &app(a, b)));
}

#[test]
fn constructor_application_is_whnf() {
    let e = app(con("Just"), lit(123));
    let r = expand_whnf(e.duplicate());
    assert!(same(&r, &e));
}

#[test]
fn whnf_leaves_values_and_case_alone() {
    for e in [var(3), lit(8), con("Nothing"), lam(0, app(lam(1, var(1)), var(0))), case_just()] {
        let r = expand_whnf(e.duplicate());
        assert!(same(&r, &e));
    }
}

#[test]
fn step_literal_is_done_at_once() {
    let out = run(lit(123), 10);
    assert_eq!(out.outcome, Outcome::Done);
    assert_eq!(out.trace.len(), 1);
    assert!(same(&out.trace[0], &lit(123)));
}

#[test]
fn step_lambda_is_done_at_once() {
    let out = run(lam(0, var(0)), 10);
    assert_eq!(out.outcome, Outcome::Done);
    assert_eq!(out.trace.len(), 1);
    assert!(same(&out.trace[0], &lam(1001, var(1001))));
}

#[test]
fn step_unbound_variable_fails() {
    match step_once(var(0)) {
        Step::Failed(err) => assert_eq!(err, RenameError::MissingName(Name(0))),
        _ => panic!("expected a rename error"),
    }
    let out = run(app(lam(0, var(0)), var(4)), 10);
    assert_eq!(out.outcome, Outcome::Failed(RenameError::MissingName(Name(4))));
    assert_eq!(out.trace.len(), 0);
}

#[test]
fn step_once_reports_reduction() {
    match step_once(app(lam(0, var(0)), lit(5))) {
        Step::Reduced { renamed, next } => {
            assert!(same(&renamed, &app(lam(1001, var(1001)), lit(5))));
            assert!(same(&next, &lit(5)));
        }
        _ => panic!("expected a reduction"),
    }
}

#[test]
fn run_reduces_curried_application_to_literal() {
    let e = app(app(lam(0, lam(1, app(var(0), var(1)))), lam(2, var(2))), lit(123));
    let out = run(e, 100);
    assert_eq!(out.outcome, Outcome::Done);
    assert_eq!(out.trace.len(), 4);
    assert!(same(&out.trace[0], &app(app(lam(1001, lam(1002, app(var(1001), var(1002)))), lam(1003, var(1003))), lit(123))));
    assert!(same(&out.trace[1], &app(lam(1001, app(lam(1002, var(1002)), var(1001))), lit(123))));
    assert!(same(&out.trace[2], &app(lam(1001, var(1001)), lit(123))));
    assert!(same(&out.trace[3], &lit(123)));
}

#[test]
fn run_case_is_done_unchanged() {
    let out = run(case_just(), 10);
    assert_eq!(out.outcome, Outcome::Done);
    assert_eq!(out.trace.len(), 1);
    assert!(same(&out.trace[0], &case_just()));
}

#[test]
fn y_combinator_applied_to_identity_diverges() {
    let out = run(app(y_combinator(), lam(0, var(0))), 200);
    assert_eq!(out.outcome, Outcome::Unfinished);
    assert_eq!(out.trace.len(), 200);
}

#[test]
fn run_with_no_iterations_is_unfinished() {
    let out = run(lit(1), 0);
    assert_eq!(out.outcome, Outcome::Unfinished);
    assert_eq!(out.trace.len(), 0);
}

#[test]
fn binder_counting() {
    let e = app(lam(0, lam(1, var(1))), Expression::Case {
        scrutinee: Box::new(lam(2, var(2))),
        alternatives: vec![Box::new(Alternative { pattern: Box::new(Pattern::Wildcard), rhs: Box::new(lam(3, var(3))) })],
    });
    assert_eq!(count_binders(&e, 100), 3);
    assert_eq!(count_binders(&e, 2), 2);
    assert!(fits_fresh_names(&e));
    assert_eq!(FIRST_FRESH_NAME, 1000);
}

#[test]
fn equality_and_duplication() {
    let e = case_just();
    assert!(e.equals(&e.duplicate()));
    assert!(!e.equals(&lit(123)));
    assert!(!con("Just").equals(&con("Nothing")));
    let p = Pattern::Constructor { name: Box::new("Just".to_string()), arguments: vec![Box::new(Pattern::Wildcard)] };
    let q = Pattern::Constructor { name: Box::new("Just".to_string()), arguments: vec![] };
    assert!(p.equals(&p.duplicate()));
    assert!(!p.equals(&q));
}
