use vstd::prelude::*;

use crate::ids::{CommentId, PrincipalId, TopicId, TopicItemId};
use crate::states::IssueState;
use crate::text::{blank, chars_eq_str, chars_of, digit, is_blank, is_digit, is_lower, lower, trim, trimmed};
use crate::topic::ValidationError;

verus! {

/// A kind of Issue that a Topic can hold.
#[derive(Debug, Clone, PartialEq, Eq)]
pub struct IssueType {
    pub key: String,
    pub display_name: String,
    pub description: String,
}

/// An Issue of a Topic.
#[derive(Debug, Clone, PartialEq, Eq)]
pub struct Issue {
    pub id: TopicItemId,
    pub topic_id: TopicId,
    pub number: i64,
    pub issue_type: String,
    pub state: IssueState,
    pub title: String,
    pub body: String,
    pub parent_issue_id: Option<TopicItemId>,
    pub author_id: PrincipalId,
    pub revision: i64,
}

/// A validated request to create an Issue.
#[derive(Debug, Clone, PartialEq, Eq)]
pub struct CreateIssue {
    pub issue_type: String,
    pub title: String,
    pub body: String,
    pub parent_issue_id: Option<TopicItemId>,
}

pub open spec fn is_slug_char(c: char) -> bool {
    is_lower(c) || is_digit(c) || c == '_'
}

/// A slug of 2 to `max_len` lowercase letters, digits or `_`, starting with a
/// lowercase letter.
pub open spec fn valid_slug_spec(s: Seq<char>, max_len: nat) -> bool {
    &&& 2 <= s.len() <= max_len
    &&& forall|i: int| 0 <= i < s.len() ==> is_slug_char(#[trigger] s[i])
    &&& is_lower(s[0])
}

fn valid_slug(value: &Vec<char>, max_len: usize) -> (b: bool)
    ensures
        b == valid_slug_spec(value@, max_len as nat),
{
    let n = value.len();
    if n < 2 || n > max_len {
        return false;
    }
    let mut i: usize = 0;
    while i < n
        invariant
            n == value.len(),
            i <= n,
            forall|j: int| 0 <= j < i ==> is_slug_char(#[trigger] value@[j]),
        decreases n - i,
    {
        let c = value[i];
        if !(lower(c) || digit(c) || c == '_') {
            assert(!is_slug_char(value@[i as int]));
            return false;
        }
        i += 1;
    }
    lower(value[0])
}

pub open spec fn create_issue_spec(issue_type: Seq<char>, title: Seq<char>, body: Seq<char>) -> Result<
    (Seq<char>, Seq<char>, Seq<char>),
    ValidationError,
> {
    if !valid_slug_spec(issue_type, 32) {
        Err(ValidationError::InvalidIssueType)
    } else if trim(title).len() == 0 || trim(title).len() > 200 {
        Err(ValidationError::InvalidTitle)
    } else if body.len() > 100_000 {
        Err(ValidationError::BodyTooLong)
    } else {
        Ok((issue_type, trim(title), body))
    }
}

impl CreateIssue {
    pub open spec fn parts(self) -> (Seq<char>, Seq<char>, Seq<char>) {
        (self.issue_type@, self.title@, self.body@)
    }

    /// Validates an Issue creation request; the title is trimmed.
    pub fn new(
        issue_type: String,
        title: String,
        body: String,
        parent_issue_id: Option<TopicItemId>,
    ) -> (r: Result<CreateIssue, ValidationError>)
        ensures
            match r {
                Ok(i) => create_issue_spec(issue_type@, title@, body@) == Ok::<_, ValidationError>(i.parts())
                    && i.parent_issue_id == parent_issue_id,
                Err(e) => create_issue_spec(issue_type@, title@, body@) == Err::<(Seq<char>, Seq<char>, Seq<char>), _>(e),
            },
    {
        let kv = chars_of(issue_type.as_str());
        let tv = trimmed(&chars_of(title.as_str()));
        let bv = chars_of(body.as_str());
        if !valid_slug(&kv, 32) {
            return Err(ValidationError::InvalidIssueType);
        }
        if tv.len() == 0 || tv.len() > 200 {
            return Err(ValidationError::InvalidTitle);
        }
        if bv.len() > 100_000 {
            return Err(ValidationError::BodyTooLong);
        }
        Ok(CreateIssue { issue_type, title: crate::text::string_of(&tv), body, parent_issue_id })
    }
}

/// The kinds of Comment.
#[derive(Debug, Clone, Copy, PartialEq, Eq, Structural)]
pub enum CommentKind {
    Discussion,
    Direction,
    Evidence,
    Progress,
    Result,
}

pub open spec fn comment_kind_text(kind: CommentKind) -> Seq<char> {
    match kind {
        CommentKind::Discussion => "discussion"@,
        CommentKind::Direction => "direction"@,
        CommentKind::Evidence => "evidence"@,
        CommentKind::Progress => "progress"@,
        CommentKind::Result => "result"@,
    }
}

pub open spec fn comment_kind_from_text(text: Seq<char>) -> Option<CommentKind> {
    if text == "discussion"@ {
        Some(CommentKind::Discussion)
    } else if text == "direction"@ {
        Some(CommentKind::Direction)
    } else if text == "evidence"@ {
        Some(CommentKind::Evidence)
    } else if text == "progress"@ {
        Some(CommentKind::Progress)
    } else if text == "result"@ {
        Some(CommentKind::Result)
    } else {
        None
    }
}

impl CommentKind {
    /// The word under which the kind is stored and shown.
    pub fn as_str(self) -> (text: &'static str)
        ensures
            text@ == comment_kind_text(self),
    {
        match self {
            CommentKind::Discussion => "discussion",
            CommentKind::Direction => "direction",
            CommentKind::Evidence => "evidence",
            CommentKind::Progress => "progress",
            CommentKind::Result => "result",
        }
    }

    /// Reads a stored kind word back.
    pub fn from_stored(value: &str) -> (kind: Option<CommentKind>)
        ensures
            kind == comment_kind_from_text(value@),
    {
        let v = chars_of(value);
        if chars_eq_str(&v, "discussion") {
            Some(CommentKind::Discussion)
        } else if chars_eq_str(&v, "direction") {
            Some(CommentKind::Direction)
        } else if chars_eq_str(&v, "evidence") {
            Some(CommentKind::Evidence)
        } else if chars_eq_str(&v, "progress") {
            Some(CommentKind::Progress)
        } else if chars_eq_str(&v, "result") {
            Some(CommentKind::Result)
        } else {
            None
        }
    }
}

/// A Comment on an Issue.
#[derive(Debug, Clone, PartialEq, Eq)]
pub struct Comment {
    pub id: CommentId,
    pub item_id: TopicItemId,
    pub author_id: PrincipalId,
    pub kind: CommentKind,
    pub body: String,
    pub revision: i64,
    pub reply_to_comment_id: Option<CommentId>,
}

/// A validated request to create a Comment.
#[derive(Debug, Clone, PartialEq, Eq)]
pub struct CreateComment {
    pub kind: CommentKind,
    pub body: String,
    pub reply_to_comment_id: Option<CommentId>,
}

pub open spec fn create_comment_spec(body: Seq<char>) -> Result<(), ValidationError> {
    if is_blank(body) {
        Err(ValidationError::EmptyBody)
    } else if body.len() > 100_000 {
        Err(ValidationError::BodyTooLong)
    } else {
        Ok(())
    }
}

impl CreateComment {
    /// Validates a Comment: the body must hold something besides white space
    /// and at most 100000 characters. The body is kept as given.
    pub fn new(kind: CommentKind, body: String, reply_to_comment_id: Option<CommentId>) -> (r: Result<
        CreateComment,
        ValidationError,
    >)
        ensures
            match r {
                Ok(c) => create_comment_spec(body@) == Ok::<(), ValidationError>(()) && c.kind == kind
                    && c.body@ == body@ && c.reply_to_comment_id == reply_to_comment_id,
                Err(e) => create_comment_spec(body@) == Err::<(), _>(e),
            },
    {
        let bv = chars_of(body.as_str());
        if blank(&bv) {
            return Err(ValidationError::EmptyBody);
        }
        if bv.len() > 100_000 {
            return Err(ValidationError::BodyTooLong);
        }
        Ok(CreateComment { kind, body, reply_to_comment_id })
    }
}

} // verus!
