//! Principals, their roles in Topics, and who may do what.
use vstd::prelude::*;

use crate::text::{chars_eq_str, chars_of};
use crate::store::StoreError;

verus! {

/// The kinds of principal that act in Synod.
#[derive(Debug, Clone, Copy, PartialEq, Eq, Structural)]
pub enum PrincipalKind {
    Human,
    Ai,
    Caller,
    System,
}

/// A principal's role in a Topic, from least to most privileged.
#[derive(Debug, Clone, Copy, PartialEq, Eq, Structural)]
pub enum MembershipRole {
    Read,
    Contribute,
    Write,
}

/// Only a Human with write access may merge a Proposal.
pub fn can_merge_proposal(kind: PrincipalKind, role: MembershipRole) -> (allowed: bool)
    ensures
        allowed == (kind == PrincipalKind::Human && role == MembershipRole::Write),
{
    matches!(kind, PrincipalKind::Human) && matches!(role, MembershipRole::Write)
}

pub open spec fn role_text(role: MembershipRole) -> Seq<char> {
    match role {
        MembershipRole::Read => "read"@,
        MembershipRole::Contribute => "contribute"@,
        MembershipRole::Write => "write"@,
    }
}

pub open spec fn role_from_text(t: Seq<char>) -> Option<MembershipRole> {
    if t == "read"@ {
        Some(MembershipRole::Read)
    } else if t == "contribute"@ {
        Some(MembershipRole::Contribute)
    } else if t == "write"@ {
        Some(MembershipRole::Write)
    } else {
        None
    }
}

/// Roles ordered from least (0) to most (2) privileged.
pub open spec fn role_rank(role: MembershipRole) -> int {
    match role {
        MembershipRole::Read => 0,
        MembershipRole::Contribute => 1,
        MembershipRole::Write => 2,
    }
}

impl MembershipRole {
    /// The word under which the role is stored.
    pub fn as_str(self) -> (text: &'static str)
        ensures
            text@ == role_text(self),
    {
        match self {
            MembershipRole::Read => "read",
            MembershipRole::Contribute => "contribute",
            MembershipRole::Write => "write",
        }
    }

    /// Reads a stored role word back.
    pub fn from_stored(value: &str) -> (role: Option<MembershipRole>)
        ensures
            role == role_from_text(value@),
    {
        let v = chars_of(value);
        if chars_eq_str(&v, "read") {
            Some(MembershipRole::Read)
        } else if chars_eq_str(&v, "contribute") {
            Some(MembershipRole::Contribute)
        } else if chars_eq_str(&v, "write") {
            Some(MembershipRole::Write)
        } else {
            None
        }
    }

    /// Whether the role may add Issues and Comments: contribute or above.
    pub fn can_contribute(self) -> (allowed: bool)
        ensures
            allowed == (role_rank(self) >= role_rank(MembershipRole::Contribute)),
    {
        !matches!(self, MembershipRole::Read)
    }
}

pub open spec fn kind_text(kind: PrincipalKind) -> Seq<char> {
    match kind {
        PrincipalKind::Human => "human"@,
        PrincipalKind::Ai => "ai"@,
        PrincipalKind::Caller => "caller"@,
        PrincipalKind::System => "system"@,
    }
}

pub open spec fn kind_from_text(t: Seq<char>) -> Option<PrincipalKind> {
    if t == "human"@ {
        Some(PrincipalKind::Human)
    } else if t == "ai"@ {
        Some(PrincipalKind::Ai)
    } else if t == "caller"@ {
        Some(PrincipalKind::Caller)
    } else if t == "system"@ {
        Some(PrincipalKind::System)
    } else {
        None
    }
}

/// The word under which a principal kind is stored.
pub fn principal_kind_as_str(value: PrincipalKind) -> (text: &'static str)
    ensures
        text@ == kind_text(value),
{
    match value {
        PrincipalKind::Human => "human",
        PrincipalKind::Ai => "ai",
        PrincipalKind::Caller => "caller",
        PrincipalKind::System => "system",
    }
}

/// Reads a stored principal kind back; any other word is corrupt data.
pub fn principal_kind_from_stored(value: &str) -> (r: Result<PrincipalKind, StoreError>)
    ensures
        match kind_from_text(value@) {
            Some(k) => r == Ok::<PrincipalKind, StoreError>(k),
            None => r == Err::<PrincipalKind, StoreError>(StoreError::CorruptData("principal kind")),
        },
{
    let v = chars_of(value);
    if chars_eq_str(&v, "human") {
        Ok(PrincipalKind::Human)
    } else if chars_eq_str(&v, "ai") {
        Ok(PrincipalKind::Ai)
    } else if chars_eq_str(&v, "caller") {
        Ok(PrincipalKind::Caller)
    } else if chars_eq_str(&v, "system") {
        Ok(PrincipalKind::System)
    } else {
        Err(StoreError::CorruptData("principal kind"))
    }
}

} // verus!
