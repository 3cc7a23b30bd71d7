//! Boolean conditions over named facts, with three truth values.
//!
//! A condition is written with `!` (not), `&` (and), `|` (or) and
//! parentheses over fact names such as `hidden` or `exec`. A name that the
//! fact source does not know is neither true nor false: its truth is
//! [`Tri::Unknown`], and the connectives carry that through unless the known
//! operands already decide the outcome.

use vstd::prelude::*;
use vstd::hash_map::StringHashMap;

verus! {

/// A truth value: true, false, or not known.
#[derive(Clone, Copy, Debug, PartialEq, Eq, Structural)]
pub enum Tri {
    True,
    False,
    Unknown,
}

impl Tri {
    /// The truth value of a fact: unknown where the source has no answer.
    pub open spec fn of(fact: Option<bool>) -> Tri {
        match fact {
            Some(true) => Tri::True,
            Some(false) => Tri::False,
            None => Tri::Unknown,
        }
    }

    /// Negation: unknown stays unknown.
    pub open spec fn negated(self) -> Tri {
        match self {
            Tri::True => Tri::False,
            Tri::False => Tri::True,
            Tri::Unknown => Tri::Unknown,
        }
    }

    /// Conjunction: false as soon as one side is false, true only if both
    /// sides are true, unknown otherwise.
    pub open spec fn both(self, other: Tri) -> Tri {
        if self == Tri::False || other == Tri::False {
            Tri::False
        } else if self == Tri::True && other == Tri::True {
            Tri::True
        } else {
            Tri::Unknown
        }
    }

    /// Disjunction: true as soon as one side is true, false only if both
    /// sides are false, unknown otherwise.
    pub open spec fn either(self, other: Tri) -> Tri {
        if self == Tri::True || other == Tri::True {
            Tri::True
        } else if self == Tri::False && other == Tri::False {
            Tri::False
        } else {
            Tri::Unknown
        }
    }

    /// The truth value of an optional fact.
    pub fn from_fact(fact: Option<bool>) -> (r: Tri)
        ensures
            r == Tri::of(fact),
    {
        match fact {
            Some(true) => Tri::True,
            Some(false) => Tri::False,
            None => Tri::Unknown,
        }
    }

    /// Whether the value is exactly true.
    pub fn is_true(self) -> (r: bool)
        ensures
            r == (self == Tri::True),
    {
        match self {
            Tri::True => true,
            _ => false,
        }
    }

    /// Negation.
    pub fn not(self) -> (r: Tri)
        ensures
            r == self.negated(),
    {
        match self {
            Tri::True => Tri::False,
            Tri::False => Tri::True,
            Tri::Unknown => Tri::Unknown,
        }
    }

    /// Conjunction.
    pub fn and(self, other: Tri) -> (r: Tri)
        ensures
            r == self.both(other),
    {
        match (self, other) {
            (Tri::False, _) => Tri::False,
            (_, Tri::False) => Tri::False,
            (Tri::True, Tri::True) => Tri::True,
            _ => Tri::Unknown,
        }
    }

    /// Disjunction.
    pub fn or(self, other: Tri) -> (r: Tri)
        ensures
            r == self.either(other),
    {
        match (self, other) {
            (Tri::True, _) => Tri::True,
            (_, Tri::True) => Tri::True,
            (Tri::False, Tri::False) => Tri::False,
            _ => Tri::Unknown,
        }
    }
}

/// A source of named facts. `fact` answers `Some(b)` for a name it knows and
/// `None` for any other name.
pub trait Facts {
    /// What the source says of `name`.
    spec fn fact_of(&self, name: Seq<char>) -> Option<bool>;

    /// Looks `name` up.
    fn fact(&self, name: &str) -> (r: Option<bool>)
        ensures
            r == self.fact_of(name@),
    ;
}

/// Facts held in a table: a name that was set has the value that it was
/// last set to, and no other name is known.
pub struct FactTable {
    map: StringHashMap<bool>,
}

impl View for FactTable {
    type V = Map<Seq<char>, bool>;

    closed spec fn view(&self) -> Map<Seq<char>, bool> {
        self.map@
    }
}

impl FactTable {
    /// A table that knows no name.
    pub fn new() -> (table: FactTable)
        ensures
            table@ == Map::<Seq<char>, bool>::empty(),
    {
        FactTable { map: StringHashMap::new() }
    }

    /// Sets the fact `name` to `value`.
    pub fn set(&mut self, name: &str, value: bool)
        ensures
            final(self)@ == old(self)@.insert(name@, value),
    {
        self.map.insert(name.to_owned(), value);
    }
}

impl Facts for FactTable {
    open spec fn fact_of(&self, name: Seq<char>) -> Option<bool> {
        if self@.contains_key(name) {
            Some(self@[name])
        } else {
            None
        }
    }

    fn fact(&self, name: &str) -> (r: Option<bool>) {
        match self.map.get(name) {
            Some(value) => Some(*value),
            None => None,
        }
    }
}

/// The mathematical model of a condition: a boolean term over fact names.
pub enum Expr {
    Term(Seq<char>),
    Not(Box<Expr>),
    And(Box<Expr>, Box<Expr>),
    Or(Box<Expr>, Box<Expr>),
}

impl Expr {
    /// The value of the term under `facts`.
    pub open spec fn eval<F: Facts>(self, facts: &F) -> Tri
        decreases self,
    {
        match self {
            Expr::Term(name) => Tri::of(facts.fact_of(name)),
            Expr::Not(a) => a.eval(facts).negated(),
            Expr::And(a, b) => a.eval(facts).both(b.eval(facts)),
            Expr::Or(a, b) => a.eval(facts).either(b.eval(facts)),
        }
    }
}

/// A false side decides a conjunction, whatever the other side is, and so
/// also where the other side is unknown.
pub proof fn lemma_false_decides_and<F: Facts>(a: Expr, b: Expr, facts: &F)
    requires
        a.eval(facts) == Tri::False,
    ensures
        Expr::And(Box::new(a), Box::new(b)).eval(facts) == Tri::False,
        Expr::And(Box::new(b), Box::new(a)).eval(facts) == Tri::False,
{
}

/// A true side decides a disjunction, whatever the other side is, and so
/// also where the other side is unknown.
pub proof fn lemma_true_decides_or<F: Facts>(a: Expr, b: Expr, facts: &F)
    requires
        a.eval(facts) == Tri::True,
    ensures
        Expr::Or(Box::new(a), Box::new(b)).eval(facts) == Tri::True,
        Expr::Or(Box::new(b), Box::new(a)).eval(facts) == Tri::True,
{
}

/// A name that the facts do not know is unknown, and stays unknown under
/// negation, beside a true side of a conjunction and beside a false side of
/// a disjunction: nothing in reach decides it.
pub proof fn lemma_unknown_name<F: Facts>(name: Seq<char>, b: Expr, facts: &F)
    requires
        facts.fact_of(name) is None,
    ensures
        Expr::Term(name).eval(facts) == Tri::Unknown,
        Expr::Not(Box::new(Expr::Term(name))).eval(facts) == Tri::Unknown,
        b.eval(facts) == Tri::True ==> Expr::And(Box::new(Expr::Term(name)), Box::new(b)).eval(
            facts,
        ) == Tri::Unknown,
        b.eval(facts) == Tri::False ==> Expr::Or(Box::new(Expr::Term(name)), Box::new(b)).eval(
            facts,
        ) == Tri::Unknown,
        b.eval(facts) == Tri::False ==> Expr::And(Box::new(Expr::Term(name)), Box::new(b)).eval(
            facts,
        ) == Tri::False,
        b.eval(facts) == Tri::True ==> Expr::Or(Box::new(Expr::Term(name)), Box::new(b)).eval(
            facts,
        ) == Tri::True,
{
}

/// Whether `more` knows every fact that `less` knows, with the same value.
pub open spec fn extends<F: Facts, G: Facts>(more: &G, less: &F) -> bool {
    forall|name: Seq<char>| #[trigger]
        less.fact_of(name) is Some ==> more.fact_of(name) == less.fact_of(name)
}

/// What the known facts decide stays decided: a term that is true or false
/// under some facts has the same value under all facts that extend them,
/// whatever these say of the names that were unknown.
pub proof fn lemma_decided_stays<F: Facts, G: Facts>(e: Expr, less: &F, more: &G)
    requires
        extends(more, less),
        e.eval(less) != Tri::Unknown,
    ensures
        e.eval(more) == e.eval(less),
    decreases e,
{
    match e {
        Expr::Term(name) => {},
        Expr::Not(a) => {
            lemma_decided_stays(*a, less, more);
        },
        Expr::And(a, b) => {
            if a.eval(less) != Tri::Unknown {
                lemma_decided_stays(*a, less, more);
            }
            if b.eval(less) != Tri::Unknown {
                lemma_decided_stays(*b, less, more);
            }
        },
        Expr::Or(a, b) => {
            if a.eval(less) != Tri::Unknown {
                lemma_decided_stays(*a, less, more);
            }
            if b.eval(less) != Tri::Unknown {
                lemma_decided_stays(*b, less, more);
            }
        },
    }
}

/// Whether `facts` knows every name of the term.
pub open spec fn all_known<F: Facts>(e: Expr, facts: &F) -> bool
    decreases e,
{
    match e {
        Expr::Term(name) => facts.fact_of(name) is Some,
        Expr::Not(a) => all_known(*a, facts),
        Expr::And(a, b) => all_known(*a, facts) && all_known(*b, facts),
        Expr::Or(a, b) => all_known(*a, facts) && all_known(*b, facts),
    }
}

/// A term is unknown only through a name that is unknown.
pub proof fn lemma_known_is_decided<F: Facts>(e: Expr, facts: &F)
    requires
        all_known(e, facts),
    ensures
        e.eval(facts) != Tri::Unknown,
    decreases e,
{
    match e {
        Expr::Term(name) => {},
        Expr::Not(a) => {
            lemma_known_is_decided(*a, facts);
        },
        Expr::And(a, b) => {
            lemma_known_is_decided(*a, facts);
            lemma_known_is_decided(*b, facts);
        },
        Expr::Or(a, b) => {
            lemma_known_is_decided(*a, facts);
            lemma_known_is_decided(*b, facts);
        },
    }
}

/// A parsed condition.
#[derive(Debug, PartialEq, Eq)]
pub enum Condition {
    Term(String),
    Not(Box<Condition>),
    And(Box<Condition>, Box<Condition>),
    Or(Box<Condition>, Box<Condition>),
}

impl View for Condition {
    type V = Expr;

    open spec fn view(&self) -> Expr {
        self.model()
    }
}

impl Condition {
    /// The term that the condition stands for.
    pub open spec fn model(&self) -> Expr
        decreases self,
    {
        match self {
            Condition::Term(name) => Expr::Term(name@),
            Condition::Not(a) => Expr::Not(Box::new(a.model())),
            Condition::And(a, b) => Expr::And(Box::new(a.model()), Box::new(b.model())),
            Condition::Or(a, b) => Expr::Or(Box::new(a.model()), Box::new(b.model())),
        }
    }

    /// Evaluates the condition against `facts`. A side that already decides
    /// the outcome spares the other side's evaluation.
    pub fn eval<F: Facts>(&self, facts: &F) -> (r: Tri)
        ensures
            r == self@.eval(facts),
        decreases self,
    {
        match self {
            Condition::Term(name) => Tri::from_fact(facts.fact(name.as_str())),
            Condition::Not(a) => a.eval(facts).not(),
            Condition::And(a, b) => {
                let left = a.eval(facts);
                match left {
                    Tri::False => Tri::False,
                    _ => left.and(b.eval(facts)),
                }
            },
            Condition::Or(a, b) => {
                let left = a.eval(facts);
                match left {
                    Tri::True => Tri::True,
                    _ => left.or(b.eval(facts)),
                }
            },
        }
    }
}

} // verus!
