//! Prerequisite evaluation: three-valued logic over prerequisite trees.

use vstd::prelude::*;
use crate::codes::code_set;
use crate::codes::contains_code;
use crate::models::module::PrereqTree;

verus! {

/// Three-valued outcome of a prerequisite check: a prerequisite
/// expression may be known to hold, known not to hold, or undecidable
/// from the data at hand.
#[derive(Clone, Copy, Debug, PartialEq, Eq, Structural)]
pub enum TriState {
    Satisfied,
    Unsatisfied,
    Unknown,
}

/// Conjunction of two tri-state values: unsatisfied dominates, then
/// unknown; satisfied only when both sides are.
pub open spec fn combine_and(a: TriState, b: TriState) -> TriState {
    if a == TriState::Unsatisfied || b == TriState::Unsatisfied {
        TriState::Unsatisfied
    } else if a == TriState::Satisfied && b == TriState::Satisfied {
        TriState::Satisfied
    } else {
        TriState::Unknown
    }
}

/// Disjunction of two tri-state values: satisfied dominates, then
/// unknown; unsatisfied only when both sides are.
pub open spec fn combine_or(a: TriState, b: TriState) -> TriState {
    if a == TriState::Satisfied || b == TriState::Satisfied {
        TriState::Satisfied
    } else if a == TriState::Unsatisfied && b == TriState::Unsatisfied {
        TriState::Unsatisfied
    } else {
        TriState::Unknown
    }
}

/// The value of a prerequisite expression against a set of satisfied
/// module codes. A module code holds exactly when it is in the set; a
/// conjunction over no children holds vacuously; a disjunction over no
/// children fails vacuously; free text is always unknown.
pub open spec fn eval_tree(t: PrereqTree, satisfied: Set<Seq<char>>) -> TriState
    decreases t, 0int,
{
    match t {
        PrereqTree::ModuleCode(code) => if satisfied.contains(code@) {
            TriState::Satisfied
        } else {
            TriState::Unsatisfied
        },
        PrereqTree::And { and } => eval_children_and(and, satisfied, 0),
        PrereqTree::Or { or } => eval_children_or(or, satisfied, 0),
        PrereqTree::String(_) => TriState::Unknown,
    }
}

/// Conjunction of the children's values from position `i` on.
pub open spec fn eval_children_and(
    children: Vec<PrereqTree>,
    satisfied: Set<Seq<char>>,
    i: int,
) -> TriState
    decreases children, children@.len() - i,
{
    if i < 0 || i >= children@.len() {
        TriState::Satisfied
    } else {
        combine_and(eval_tree(children@[i], satisfied), eval_children_and(children, satisfied, i + 1))
    }
}

/// Disjunction of the children's values from position `i` on.
pub open spec fn eval_children_or(
    children: Vec<PrereqTree>,
    satisfied: Set<Seq<char>>,
    i: int,
) -> TriState
    decreases children, children@.len() - i,
{
    if i < 0 || i >= children@.len() {
        TriState::Unsatisfied
    } else {
        combine_or(eval_tree(children@[i], satisfied), eval_children_or(children, satisfied, i + 1))
    }
}

/// Evaluates a prerequisite expression against the listed satisfied
/// module codes.
pub fn is_satisfied(expression: &PrereqTree, satisfied: &Vec<String>) -> (r: TriState)
    ensures
        r == eval_tree(*expression, code_set(satisfied@)),
    decreases *expression, 0int,
{
    match expression {
        PrereqTree::ModuleCode(code) => {
            if contains_code(satisfied, code.as_str()) {
                TriState::Satisfied
            } else {
                TriState::Unsatisfied
            }
        },
        PrereqTree::And { and } => eval_and_from(and, satisfied, 0),
        PrereqTree::Or { or } => eval_or_from(or, satisfied, 0),
        PrereqTree::String(_) => TriState::Unknown,
    }
}

/// Conjunction of the children from position `i` on, stopping at the
/// first unsatisfied child.
fn eval_and_from(children: &Vec<PrereqTree>, satisfied: &Vec<String>, i: usize) -> (r: TriState)
    requires
        i <= children@.len(),
    ensures
        r == eval_children_and(*children, code_set(satisfied@), i as int),
    decreases *children, children@.len() - i,
{
    if i == children.len() {
        return TriState::Satisfied;
    }
    let head = is_satisfied(&children[i], satisfied);
    if head == TriState::Unsatisfied {
        return TriState::Unsatisfied;
    }
    let rest = eval_and_from(children, satisfied, i + 1);
    if rest == TriState::Unsatisfied {
        TriState::Unsatisfied
    } else if head == TriState::Satisfied && rest == TriState::Satisfied {
        TriState::Satisfied
    } else {
        TriState::Unknown
    }
}

/// Disjunction of the children from position `i` on, stopping at the
/// first satisfied child.
fn eval_or_from(children: &Vec<PrereqTree>, satisfied: &Vec<String>, i: usize) -> (r: TriState)
    requires
        i <= children@.len(),
    ensures
        r == eval_children_or(*children, code_set(satisfied@), i as int),
    decreases *children, children@.len() - i,
{
    if i == children.len() {
        return TriState::Unsatisfied;
    }
    let head = is_satisfied(&children[i], satisfied);
    if head == TriState::Satisfied {
        return TriState::Satisfied;
    }
    let rest = eval_or_from(children, satisfied, i + 1);
    if rest == TriState::Satisfied {
        TriState::Satisfied
    } else if head == TriState::Unsatisfied && rest == TriState::Unsatisfied {
        TriState::Unsatisfied
    } else {
        TriState::Unknown
    }
}

/// A conjunction from position `i` on is satisfied exactly when every
/// child from there on is, and unsatisfied exactly when some child is.
pub proof fn lemma_and_semantics(children: Vec<PrereqTree>, satisfied: Set<Seq<char>>, i: int)
    requires
        0 <= i <= children@.len(),
    ensures
        (eval_children_and(children, satisfied, i) == TriState::Satisfied) <==> (forall|j: int|
            i <= j < children@.len() ==> eval_tree(#[trigger] children@[j], satisfied)
                == TriState::Satisfied),
        (eval_children_and(children, satisfied, i) == TriState::Unsatisfied) <==> (exists|j: int|
            i <= j < children@.len() && eval_tree(#[trigger] children@[j], satisfied)
                == TriState::Unsatisfied),
    decreases children@.len() - i,
{
    if i < children@.len() {
        lemma_and_semantics(children, satisfied, i + 1);
        if eval_tree(children@[i], satisfied) == TriState::Unsatisfied {
            assert(exists|j: int|
                i <= j < children@.len() && eval_tree(#[trigger] children@[j], satisfied)
                    == TriState::Unsatisfied) by {
                assert(eval_tree(children@[i], satisfied) == TriState::Unsatisfied);
            }
        }
    }
}

/// A disjunction from position `i` on is satisfied exactly when some
/// child from there on is, and unsatisfied exactly when every child is.
pub proof fn lemma_or_semantics(children: Vec<PrereqTree>, satisfied: Set<Seq<char>>, i: int)
    requires
        0 <= i <= children@.len(),
    ensures
        (eval_children_or(children, satisfied, i) == TriState::Satisfied) <==> (exists|j: int|
            i <= j < children@.len() && eval_tree(#[trigger] children@[j], satisfied)
                == TriState::Satisfied),
        (eval_children_or(children, satisfied, i) == TriState::Unsatisfied) <==> (forall|j: int|
            i <= j < children@.len() ==> eval_tree(#[trigger] children@[j], satisfied)
                == TriState::Unsatisfied),
    decreases children@.len() - i,
{
    if i < children@.len() {
        lemma_or_semantics(children, satisfied, i + 1);
        if eval_tree(children@[i], satisfied) == TriState::Satisfied {
            assert(exists|j: int|
                i <= j < children@.len() && eval_tree(#[trigger] children@[j], satisfied)
                    == TriState::Satisfied) by {
                assert(eval_tree(children@[i], satisfied) == TriState::Satisfied);
            }
        }
    }
}

} // verus!
