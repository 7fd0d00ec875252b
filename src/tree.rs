//! Structural copies and comparisons of expression trees, stated over
//! their models.

use vstd::prelude::*;
use crate::syntax::{
    Literal, Expression, Alternative, Pattern, alts_of, alt_of, pats_of, pat_of,
};

verus! {

broadcast use vstd::std_specs::vec::axiom_vec_index_decreases;

/// The model of a vector of alternatives lists the models of its items.
pub proof fn lemma_alts_of(v: Vec<Box<Alternative>>, n: nat)
    requires
        n <= v.len(),
    ensures
        alts_of(v, n).len() == n,
        forall|j: int| 0 <= j < n ==> #[trigger] alts_of(v, n)[j] == alt_of(*v[j]),
    decreases n,
{
    if n > 0 {
        lemma_alts_of(v, (n - 1) as nat);
    }
}

/// The model of a vector of patterns lists the models of its items.
pub proof fn lemma_pats_of(v: Vec<Box<Pattern>>, n: nat)
    requires
        n <= v.len(),
    ensures
        pats_of(v, n).len() == n,
        forall|j: int| 0 <= j < n ==> #[trigger] pats_of(v, n)[j] == pat_of(*v[j]),
    decreases n,
{
    if n > 0 {
        lemma_pats_of(v, (n - 1) as nat);
    }
}

fn copy_name(s: &Box<String>) -> (r: Box<String>)
    ensures
        r@ == s@,
{
    let t: String = (**s).clone();
    Box::new(t)
}

fn copy_alternatives(v: &Vec<Box<Alternative>>) -> (r: Vec<Box<Alternative>>)
    ensures
        alts_of(r, r.len() as nat) == alts_of(*v, v.len() as nat),
    decreases v, 1nat,
{
    let mut out: Vec<Box<Alternative>> = Vec::new();
    let mut i: usize = 0;
    while i < v.len()
        invariant
            i <= v.len(),
            out.len() == i,
            forall|j: int| 0 <= j < i ==> alt_of(*#[trigger] out[j]) == alt_of(*v[j]),
        decreases v.len() - i,
    {
        let a = v[i].duplicate();
        out.push(Box::new(a));
        i = i + 1;
    }
    proof {
        lemma_alts_of(out, out.len() as nat);
        lemma_alts_of(*v, v.len() as nat);
        assert(alts_of(out, out.len() as nat) =~= alts_of(*v, v.len() as nat));
    }
    out
}

fn copy_patterns(v: &Vec<Box<Pattern>>) -> (r: Vec<Box<Pattern>>)
    ensures
        pats_of(r, r.len() as nat) == pats_of(*v, v.len() as nat),
    decreases v, 1nat,
{
    let mut out: Vec<Box<Pattern>> = Vec::new();
    let mut i: usize = 0;
    while i < v.len()
        invariant
            i <= v.len(),
            out.len() == i,
            forall|j: int| 0 <= j < i ==> pat_of(*#[trigger] out[j]) == pat_of(*v[j]),
        decreases v.len() - i,
    {
        let p = v[i].duplicate();
        out.push(Box::new(p));
        i = i + 1;
    }
    proof {
        lemma_pats_of(out, out.len() as nat);
        lemma_pats_of(*v, v.len() as nat);
        assert(pats_of(out, out.len() as nat) =~= pats_of(*v, v.len() as nat));
    }
    out
}


fn same_string(a: &Box<String>, b: &Box<String>) -> (r: bool)
    ensures
        r == (a@ == b@),
{
    let x: &String = a;
    let y: &String = b;
    *x == *y
}

fn same_alternatives(a: &Vec<Box<Alternative>>, b: &Vec<Box<Alternative>>) -> (r: bool)
    ensures
        r == (alts_of(*a, a.len() as nat) == alts_of(*b, b.len() as nat)),
    decreases a, 1nat,
{
    proof {
        lemma_alts_of(*a, a.len() as nat);
        lemma_alts_of(*b, b.len() as nat);
    }
    if a.len() != b.len() {
        return false;
    }
    let mut i: usize = 0;
    while i < a.len()
        invariant
            i <= a.len(),
            a.len() == b.len(),
            alts_of(*a, a.len() as nat).len() == a.len(),
            alts_of(*b, b.len() as nat).len() == b.len(),
            forall|j: int| 0 <= j < a.len() ==> #[trigger] alts_of(*a, a.len() as nat)[j] == alt_of(*a[j]),
            forall|j: int| 0 <= j < b.len() ==> #[trigger] alts_of(*b, b.len() as nat)[j] == alt_of(*b[j]),
            forall|j: int| 0 <= j < i ==> alt_of(*#[trigger] a[j]) == alt_of(*b[j]),
        decreases a.len() - i,
    {
        if !a[i].equals(&b[i]) {
            assert(alts_of(*a, a.len() as nat)[i as int] != alts_of(*b, b.len() as nat)[i as int]);
            return false;
        }
        i = i + 1;
    }
    assert(alts_of(*a, a.len() as nat) =~= alts_of(*b, b.len() as nat));
    true
}

fn same_patterns(a: &Vec<Box<Pattern>>, b: &Vec<Box<Pattern>>) -> (r: bool)
    ensures
        r == (pats_of(*a, a.len() as nat) == pats_of(*b, b.len() as nat)),
    decreases a, 1nat,
{
    proof {
        lemma_pats_of(*a, a.len() as nat);
        lemma_pats_of(*b, b.len() as nat);
    }
    if a.len() != b.len() {
        return false;
    }
    let mut i: usize = 0;
    while i < a.len()
        invariant
            i <= a.len(),
            a.len() == b.len(),
            pats_of(*a, a.len() as nat).len() == a.len(),
            pats_of(*b, b.len() as nat).len() == b.len(),
            forall|j: int| 0 <= j < a.len() ==> #[trigger] pats_of(*a, a.len() as nat)[j] == pat_of(*a[j]),
            forall|j: int| 0 <= j < b.len() ==> #[trigger] pats_of(*b, b.len() as nat)[j] == pat_of(*b[j]),
            forall|j: int| 0 <= j < i ==> pat_of(*#[trigger] a[j]) == pat_of(*b[j]),
        decreases a.len() - i,
    {
        if !a[i].equals(&b[i]) {
            assert(pats_of(*a, a.len() as nat)[i as int] != pats_of(*b, b.len() as nat)[i as int]);
            return false;
        }
        i = i + 1;
    }
    assert(pats_of(*a, a.len() as nat) =~= pats_of(*b, b.len() as nat));
    true
}

impl Expression {
    /// A fresh tree with the same model.
    pub fn duplicate(&self) -> (r: Expression)
        ensures
            r@ == self@,
        decreases self, 0nat,
    {
        match self {
            Expression::Variable { name } => Expression::Variable { name: *name },
            Expression::Constructor { name } => Expression::Constructor { name: copy_name(name) },
            Expression::Literal { literal } => Expression::Literal { literal: *literal },
            Expression::Application { function, argument } => Expression::Application {
                function: Box::new(function.duplicate()),
                argument: Box::new(argument.duplicate()),
            },
            Expression::Lambda { parameter, body } => Expression::Lambda {
                parameter: *parameter,
                body: Box::new(body.duplicate()),
            },
            Expression::Case { scrutinee, alternatives } => Expression::Case {
                scrutinee: Box::new(scrutinee.duplicate()),
                alternatives: copy_alternatives(alternatives),
            },
        }
    }

    /// Whether the two trees have the same model.
    pub fn equals(&self, other: &Expression) -> (r: bool)
        ensures
            r == (self@ == other@),
        decreases self, 0nat,
    {
        match (self, other) {
            (Expression::Variable { name: x }, Expression::Variable { name: y }) => x.0 == y.0,
            (Expression::Constructor { name: x }, Expression::Constructor { name: y }) => same_string(x, y),
            (Expression::Literal { literal: x }, Expression::Literal { literal: y }) => {
                match (x, y) {
                    (Literal::I64Literal { value: m }, Literal::I64Literal { value: n }) => *m == *n,
                }
            },
            (
                Expression::Application { function: f, argument: a },
                Expression::Application { function: g, argument: b },
            ) => f.equals(g) && a.equals(b),
            (Expression::Lambda { parameter: p, body: s }, Expression::Lambda { parameter: q, body: t }) => {
                p.0 == q.0 && s.equals(t)
            },
            (
                Expression::Case { scrutinee: s, alternatives: a },
                Expression::Case { scrutinee: t, alternatives: b },
            ) => s.equals(t) && same_alternatives(a, b),
            _ => false,
        }
    }
}

impl Alternative {
    /// A fresh alternative with the same model.
    pub fn duplicate(&self) -> (r: Alternative)
        ensures
            r@ == self@,
        decreases self, 0nat,
    {
        Alternative {
            pattern: Box::new(self.pattern.duplicate()),
            rhs: Box::new(self.rhs.duplicate()),
        }
    }

    /// Whether the two alternatives have the same model.
    pub fn equals(&self, other: &Alternative) -> (r: bool)
        ensures
            r == (self@ == other@),
        decreases self, 0nat,
    {
        self.pattern.equals(&other.pattern) && self.rhs.equals(&other.rhs)
    }
}

impl Pattern {
    /// A fresh pattern with the same model.
    pub fn duplicate(&self) -> (r: Pattern)
        ensures
            r@ == self@,
        decreases self, 0nat,
    {
        match self {
            Pattern::Constructor { name, arguments } => Pattern::Constructor {
                name: copy_name(name),
                arguments: copy_patterns(arguments),
            },
            Pattern::Variable { name } => Pattern::Variable { name: *name },
            Pattern::Wildcard => Pattern::Wildcard,
        }
    }

    /// Whether the two patterns have the same model.
    pub fn equals(&self, other: &Pattern) -> (r: bool)
        ensures
            r == (self@ == other@),
        decreases self, 0nat,
    {
        match (self, other) {
            (
                Pattern::Constructor { name: x, arguments: a },
                Pattern::Constructor { name: y, arguments: b },
            ) => same_string(x, y) && same_patterns(a, b),
            (Pattern::Variable { name: x }, Pattern::Variable { name: y }) => x.0 == y.0,
            (Pattern::Wildcard, Pattern::Wildcard) => true,
            _ => false,
        }
    }
}

} // verus!
