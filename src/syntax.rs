use vstd::prelude::*;

verus! {

broadcast use vstd::std_specs::vec::axiom_vec_index_decreases;

/// An identifier. Binders and variable references carry one.
#[derive(Debug, Clone, Copy, PartialEq, Eq, Hash, Structural)]
pub struct Name(pub u64);

/// A closed scalar value.
#[derive(Debug, Clone, Copy, PartialEq, Eq, Hash, Structural)]
pub enum Literal {
    I64Literal { value: i64 },
}

/// An expression tree. Each node owns its children.
#[allow(inconsistent_fields)]
#[derive(Debug)]
pub enum Expression {
    Variable { name: Name },
    Constructor { name: Box<String> },
    Literal { literal: Literal },
    Application { function: Box<Expression>, argument: Box<Expression> },
    Lambda { parameter: Name, body: Box<Expression> },
    Case { scrutinee: Box<Expression>, alternatives: Vec<Box<Alternative>> },
}

/// One branch of a case expression.
#[derive(Debug)]
pub struct Alternative {
    pub pattern: Box<Pattern>,
    pub rhs: Box<Expression>,
}

/// What an alternative matches against.
#[allow(inconsistent_fields)]
#[derive(Debug)]
pub enum Pattern {
    Constructor { name: Box<String>, arguments: Vec<Box<Pattern>> },
    Variable { name: Name },
    Wildcard,
}

/// The one way renaming can fail: a variable that no enclosing binder
/// or scope entry introduces.
#[derive(Debug, Clone, Copy, PartialEq, Eq, Hash, Structural)]
pub enum RenameError {
    MissingName(Name),
}

/// The mathematical model of an [`Expression`]: constructor names are
/// character sequences and alternatives are sequences of models.
pub enum Term {
    Var(Name),
    Con(Seq<char>),
    Lit(Literal),
    App(Box<Term>, Box<Term>),
    Lam(Name, Box<Term>),
    Case(Box<Term>, Seq<AltTerm>),
}

/// The model of an [`Alternative`].
pub struct AltTerm {
    pub pattern: PatTerm,
    pub rhs: Term,
}

/// The model of a [`Pattern`].
pub enum PatTerm {
    Con(Seq<char>, Seq<PatTerm>),
    Var(Name),
    Wild,
}

pub open spec fn term_of(e: Expression) -> Term
    decreases e, 0nat,
{
    match e {
        Expression::Variable { name } => Term::Var(name),
        Expression::Constructor { name } => Term::Con(name@),
        Expression::Literal { literal } => Term::Lit(literal),
        Expression::Application { function, argument } => Term::App(
            Box::new(term_of(*function)),
            Box::new(term_of(*argument)),
        ),
        Expression::Lambda { parameter, body } => Term::Lam(parameter, Box::new(term_of(*body))),
        Expression::Case { scrutinee, alternatives } => Term::Case(
            Box::new(term_of(*scrutinee)),
            alts_of(alternatives, alternatives.len() as nat),
        ),
    }
}

/// The models of the first `n` alternatives of `alts`.
pub open spec fn alts_of(alts: Vec<Box<Alternative>>, n: nat) -> Seq<AltTerm>
    decreases alts, n,
{
    if n == 0 || n > alts.len() {
        Seq::empty()
    } else {
        alts_of(alts, (n - 1) as nat).push(alt_of(*alts[n - 1]))
    }
}

pub open spec fn alt_of(a: Alternative) -> AltTerm
    decreases a, 0nat,
{
    AltTerm { pattern: pat_of(*a.pattern), rhs: term_of(*a.rhs) }
}

pub open spec fn pat_of(p: Pattern) -> PatTerm
    decreases p, 0nat,
{
    match p {
        Pattern::Constructor { name, arguments } => PatTerm::Con(
            name@,
            pats_of(arguments, arguments.len() as nat),
        ),
        Pattern::Variable { name } => PatTerm::Var(name),
        Pattern::Wildcard => PatTerm::Wild,
    }
}

/// The models of the first `n` patterns of `pats`.
pub open spec fn pats_of(pats: Vec<Box<Pattern>>, n: nat) -> Seq<PatTerm>
    decreases pats, n,
{
    if n == 0 || n > pats.len() {
        Seq::empty()
    } else {
        pats_of(pats, (n - 1) as nat).push(pat_of(*pats[n - 1]))
    }
}

impl View for Expression {
    type V = Term;

    open spec fn view(&self) -> Term {
        term_of(*self)
    }
}

impl View for Alternative {
    type V = AltTerm;

    open spec fn view(&self) -> AltTerm {
        alt_of(*self)
    }
}

impl View for Pattern {
    type V = PatTerm;

    open spec fn view(&self) -> PatTerm {
        pat_of(*self)
    }
}

} // verus!
