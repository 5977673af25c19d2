use vstd::prelude::*;

use crate::permissions::PrincipalKind;

verus! {

/// The two kinds of item that live inside a Topic.
#[derive(Debug, Clone, Copy, PartialEq, Eq, Structural)]
pub enum TopicItemKind {
    Issue,
    Proposal,
}

/// Why a requested state transition was refused.
#[derive(Debug, Clone, Copy, PartialEq, Eq, Structural)]
pub enum StateTransitionError {
    AlreadyInState,
    TerminalState,
    MustBeOpen,
}

pub open spec fn transition_message(e: StateTransitionError) -> Seq<char> {
    match e {
        StateTransitionError::AlreadyInState => "resource is already in the requested state"@,
        StateTransitionError::TerminalState => "resource is in a terminal state"@,
        StateTransitionError::MustBeOpen => "proposal must be open"@,
    }
}

impl StateTransitionError {
    /// The human-readable description of the error.
    pub fn message(&self) -> (m: &'static str)
        ensures
            m@ == transition_message(*self),
    {
        match self {
            StateTransitionError::AlreadyInState => "resource is already in the requested state",
            StateTransitionError::TerminalState => "resource is in a terminal state",
            StateTransitionError::MustBeOpen => "proposal must be open",
        }
    }
}

/// Lifecycle of an Issue.
#[derive(Debug, Clone, Copy, PartialEq, Eq, Structural)]
pub enum IssueState {
    Open,
    Closed,
}

/// The state an Issue is in after asking it to move to `target`, and the answer.
pub open spec fn issue_transition(
    current: IssueState,
    target: IssueState,
) -> (IssueState, Result<(), StateTransitionError>) {
    if current == target {
        (current, Err(StateTransitionError::AlreadyInState))
    } else {
        (target, Ok(()))
    }
}

impl IssueState {
    /// Closes an open Issue; closing a closed Issue is refused.
    pub fn close(&mut self) -> (result: Result<(), StateTransitionError>)
        ensures
            (*final(self), result) == issue_transition(*old(self), IssueState::Closed),
    {
        self.transition(IssueState::Closed)
    }

    /// Reopens a closed Issue; reopening an open Issue is refused.
    pub fn reopen(&mut self) -> (result: Result<(), StateTransitionError>)
        ensures
            (*final(self), result) == issue_transition(*old(self), IssueState::Open),
    {
        self.transition(IssueState::Open)
    }

    fn transition(&mut self, target: IssueState) -> (result: Result<(), StateTransitionError>)
        ensures
            (*final(self), result) == issue_transition(*old(self), target),
    {
        if *self == target {
            return Err(StateTransitionError::AlreadyInState);
        }
        *self = target;
        Ok(())
    }

    /// The word under which the state is stored.
    pub fn as_str(self) -> (text: &'static str)
        ensures
            text@ == issue_state_text(self),
    {
        proof {
            reveal_strlit("open");
            reveal_strlit("closed");
        }
        match self {
            IssueState::Open => "open",
            IssueState::Closed => "closed",
        }
    }

    /// Reads a stored state word back; any other word is not a state.
    pub fn from_stored(value: &str) -> (state: Option<IssueState>)
        ensures
            state == issue_state_from_text(value@),
    {
        let v = crate::text::chars_of(value);
        if crate::text::chars_eq_str(&v, "open") {
            Some(IssueState::Open)
        } else if crate::text::chars_eq_str(&v, "closed") {
            Some(IssueState::Closed)
        } else {
            None
        }
    }
}

pub open spec fn issue_state_text(state: IssueState) -> Seq<char> {
    match state {
        IssueState::Open => "open"@,
        IssueState::Closed => "closed"@,
    }
}

pub open spec fn issue_state_from_text(text: Seq<char>) -> Option<IssueState> {
    if text == "open"@ {
        Some(IssueState::Open)
    } else if text == "closed"@ {
        Some(IssueState::Closed)
    } else {
        None
    }
}

/// Lifecycle of a Proposal. `Merged` is terminal.
#[derive(Debug, Clone, Copy, PartialEq, Eq, Structural)]
pub enum ProposalState {
    Draft,
    Open,
    Merged,
    Closed,
}

pub open spec fn proposal_open(current: ProposalState) -> (ProposalState, Result<(), StateTransitionError>) {
    match current {
        ProposalState::Draft | ProposalState::Closed => (ProposalState::Open, Ok(())),
        ProposalState::Open => (current, Err(StateTransitionError::AlreadyInState)),
        ProposalState::Merged => (current, Err(StateTransitionError::TerminalState)),
    }
}

pub open spec fn proposal_close(current: ProposalState) -> (ProposalState, Result<(), StateTransitionError>) {
    match current {
        ProposalState::Draft | ProposalState::Open => (ProposalState::Closed, Ok(())),
        ProposalState::Closed => (current, Err(StateTransitionError::AlreadyInState)),
        ProposalState::Merged => (current, Err(StateTransitionError::TerminalState)),
    }
}

pub open spec fn proposal_merge(current: ProposalState) -> (ProposalState, Result<(), StateTransitionError>) {
    match current {
        ProposalState::Open => (ProposalState::Merged, Ok(())),
        ProposalState::Merged => (current, Err(StateTransitionError::AlreadyInState)),
        ProposalState::Draft | ProposalState::Closed => (current, Err(StateTransitionError::MustBeOpen)),
    }
}

impl ProposalState {
    /// Opens a draft or closed Proposal.
    pub fn open(&mut self) -> (result: Result<(), StateTransitionError>)
        ensures
            (*final(self), result) == proposal_open(*old(self)),
    {
        match self {
            ProposalState::Draft | ProposalState::Closed => {
                *self = ProposalState::Open;
                Ok(())
            },
            ProposalState::Open => Err(StateTransitionError::AlreadyInState),
            ProposalState::Merged => Err(StateTransitionError::TerminalState),
        }
    }

    /// Closes a draft or open Proposal.
    pub fn close(&mut self) -> (result: Result<(), StateTransitionError>)
        ensures
            (*final(self), result) == proposal_close(*old(self)),
    {
        match self {
            ProposalState::Draft | ProposalState::Open => {
                *self = ProposalState::Closed;
                Ok(())
            },
            ProposalState::Closed => Err(StateTransitionError::AlreadyInState),
            ProposalState::Merged => Err(StateTransitionError::TerminalState),
        }
    }

    /// Merges an open Proposal.
    pub fn merge(&mut self) -> (result: Result<(), StateTransitionError>)
        ensures
            (*final(self), result) == proposal_merge(*old(self)),
    {
        match self {
            ProposalState::Open => {
                *self = ProposalState::Merged;
                Ok(())
            },
            ProposalState::Merged => Err(StateTransitionError::AlreadyInState),
            ProposalState::Draft | ProposalState::Closed => Err(StateTransitionError::MustBeOpen),
        }
    }
}

/// The verdict a Proposal receives from someone who examined it.
#[derive(Debug, Clone, Copy, PartialEq, Eq, Structural)]
pub enum ReviewVerdict {
    Comment,
    Approve,
    RequestChanges,
}

impl ReviewVerdict {
    /// Only a Human's request for changes blocks a merge.
    pub fn blocks_merge(self, reviewer: PrincipalKind) -> (blocks: bool)
        ensures
            blocks == (reviewer == PrincipalKind::Human && self == ReviewVerdict::RequestChanges),
    {
        matches!(reviewer, PrincipalKind::Human) && matches!(self, ReviewVerdict::RequestChanges)
    }
}

/// Progress of a Run.
#[derive(Debug, Clone, Copy, PartialEq, Eq, Structural)]
pub enum RunStatus {
    Queued,
    InProgress,
    Completed,
}

/// How a completed Run ended.
#[derive(Debug, Clone, Copy, PartialEq, Eq, Structural)]
pub enum RunConclusion {
    Success,
    Failure,
    Cancelled,
    TimedOut,
    Skipped,
    Neutral,
}

} // verus!
