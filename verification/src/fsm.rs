//! The deterministic automaton driving the lexical scanner: its states,
//! the character classes, and the fixed transition table.

use vstd::prelude::*;

verus! {

use crate::fsm::FsmTransitions::{_Comment, _Identifier, _Integer, _Keyword, _Operator, _Real,
    _Reject, _Separator, _Space, _String, _Unknown};

/// States of the scanning automaton.  The same enumeration also serves as
/// the set of character classes (the table's columns) and as the category
/// recorded on a finished token: `_Keyword` and `_Identifier` appear only
/// as final categories, never as automaton states, and `_Reject` is the
/// universal token-boundary sentinel, not a token category.
#[derive(Copy, Clone, Debug, PartialEq, Eq, Structural)]
pub enum FsmTransitions {
    _Reject,
    _Integer,
    _Real,
    _Operator,
    _String,
    _Unknown,
    _Space,
    _Comment,
    _Separator,
    _Keyword,
    _Identifier,
}

/// The fixed transition table, as a total function: every (state, class)
/// pair has exactly one successor.  The first row (state `_Reject`) starts
/// a fresh run in the state named by the class; every other row says how a
/// run already in progress extends or ends (`_Reject` marks a token
/// boundary).  Pairs that the scanner can never produce (a class of
/// `_Reject`, `_Keyword` or `_Identifier`, or one of those as the state)
/// reject.
pub open spec fn spec_transition(state: FsmTransitions, class: FsmTransitions) -> FsmTransitions {
    match state {
        _Reject => match class {
            _Keyword | _Identifier => _Reject,
            _ => class,
        },
        _Integer => match class {
            _Integer => _Integer,
            _Real => _Real,
            _ => _Reject,
        },
        _Real => match class {
            _Integer => _Real,
            _Real => _Unknown,
            _ => _Reject,
        },
        _Operator => match class {
            _String => _String,
            _ => _Reject,
        },
        _String => match class {
            _Integer => _String,
            _Operator => _String,
            _String => _String,
            _ => _Reject,
        },
        _Unknown => match class {
            _Integer | _Real | _Operator | _String | _Unknown => _Unknown,
            _ => _Reject,
        },
        _Space => _Reject,
        _Comment => match class {
            _Comment => _Reject,
            _Reject | _Keyword | _Identifier => _Reject,
            _ => _Comment,
        },
        _Separator => _Reject,
        _Keyword => _Reject,
        _Identifier => _Reject,
    }
}

/// Look one (state, class) pair up in the transition table.
pub fn transition(state: FsmTransitions, class: FsmTransitions) -> (next: FsmTransitions)
    ensures
        next == spec_transition(state, class),
{
    match state {
        _Reject => match class {
            _Keyword | _Identifier => _Reject,
            _ => class,
        },
        _Integer => match class {
            _Integer => _Integer,
            _Real => _Real,
            _ => _Reject,
        },
        _Real => match class {
            _Integer => _Real,
            _Real => _Unknown,
            _ => _Reject,
        },
        _Operator => match class {
            _String => _String,
            _ => _Reject,
        },
        _String => match class {
            _Integer => _String,
            _Operator => _String,
            _String => _String,
            _ => _Reject,
        },
        _Unknown => match class {
            _Integer | _Real | _Operator | _String | _Unknown => _Unknown,
            _ => _Reject,
        },
        _Space => _Reject,
        _Comment => match class {
            _Comment => _Reject,
            _Reject | _Keyword | _Identifier => _Reject,
            _ => _Comment,
        },
        _Separator => _Reject,
        _Keyword => _Reject,
        _Identifier => _Reject,
    }
}

/// Determinism of the transition table: for every state and class the
/// table defines exactly one successor, so two lookups of the same pair
/// can never disagree.
pub proof fn lemma_transition_deterministic(
    state: FsmTransitions,
    class: FsmTransitions,
    r1: FsmTransitions,
    r2: FsmTransitions,
)
    requires
        r1 == spec_transition(state, class),
        r2 == spec_transition(state, class),
    ensures
        r1 == r2,
{
}

} // verus!
