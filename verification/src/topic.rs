use vstd::prelude::*;

use crate::ids::{PrincipalId, TopicId};
use crate::permissions::PrincipalKind;
use crate::text::{alnum, chars_of, digit, is_alnum, is_digit, is_lower, lower, trim, trimmed};

verus! {

/// Someone or something that acts in Synod.
#[derive(Debug, Clone, PartialEq, Eq)]
pub struct Principal {
    pub id: PrincipalId,
    pub kind: PrincipalKind,
    pub handle: String,
    pub display_name: String,
}

/// A shared room of work.
#[derive(Debug, Clone, PartialEq, Eq)]
pub struct Topic {
    pub id: TopicId,
    pub key: String,
    pub title: String,
    pub description: String,
    pub revision: i64,
}

/// A validated request to create a Topic.
#[derive(Debug, Clone, PartialEq, Eq)]
pub struct CreateTopic {
    pub key: String,
    pub title: String,
    pub description: String,
}

/// Why user input was rejected.
#[derive(Debug, Clone, Copy, PartialEq, Eq, Structural)]
pub enum ValidationError {
    InvalidHandle,
    InvalidTopicKey,
    InvalidTitle,
    DescriptionTooLong,
    InvalidIssueType,
    BodyTooLong,
    EmptyBody,
}

pub open spec fn validation_message(e: ValidationError) -> Seq<char> {
    match e {
        ValidationError::InvalidHandle => "handle must be 2-39 lowercase letters, digits, hyphens, or underscores"@,
        ValidationError::InvalidTopicKey => "topic key must be 2-32 lowercase letters, digits, or hyphens"@,
        ValidationError::InvalidTitle => "topic title must contain 1-200 characters"@,
        ValidationError::DescriptionTooLong => "topic description must not exceed 20000 characters"@,
        ValidationError::InvalidIssueType => "issue type is invalid"@,
        ValidationError::BodyTooLong => "body must not exceed 100000 characters"@,
        ValidationError::EmptyBody => "body must not be empty"@,
    }
}

impl ValidationError {
    /// The human-readable description of the error.
    pub fn message(&self) -> (m: &'static str)
        ensures
            m@ == validation_message(*self),
    {
        match self {
            ValidationError::InvalidHandle => "handle must be 2-39 lowercase letters, digits, hyphens, or underscores",
            ValidationError::InvalidTopicKey => "topic key must be 2-32 lowercase letters, digits, or hyphens",
            ValidationError::InvalidTitle => "topic title must contain 1-200 characters",
            ValidationError::DescriptionTooLong => "topic description must not exceed 20000 characters",
            ValidationError::InvalidIssueType => "issue type is invalid",
            ValidationError::BodyTooLong => "body must not exceed 100000 characters",
            ValidationError::EmptyBody => "body must not be empty",
        }
    }
}

pub open spec fn is_handle_char(c: char) -> bool {
    is_lower(c) || is_digit(c) || c == '-' || c == '_'
}

/// A handle: 2-39 lowercase letters, digits, `-` or `_`, starting and ending
/// with a letter or digit. (Every allowed character is ASCII, so the count of
/// characters is the count of bytes.)
pub open spec fn valid_handle(s: Seq<char>) -> bool {
    &&& 2 <= s.len() <= 39
    &&& forall|i: int| 0 <= i < s.len() ==> is_handle_char(#[trigger] s[i])
    &&& is_alnum(s[0])
    &&& is_alnum(s.last())
}

pub open spec fn is_key_char(c: char) -> bool {
    is_lower(c) || is_digit(c) || c == '-'
}

/// A Topic key: 2-32 lowercase letters, digits or `-`, starting and ending with
/// a letter or digit.
pub open spec fn valid_topic_key(s: Seq<char>) -> bool {
    &&& 2 <= s.len() <= 32
    &&& forall|i: int| 0 <= i < s.len() ==> is_key_char(#[trigger] s[i])
    &&& is_alnum(s[0])
    &&& is_alnum(s.last())
}

/// Checks a principal or team handle.
pub fn validate_handle(handle: &str) -> (r: Result<(), ValidationError>)
    ensures
        r is Ok <==> valid_handle(handle@),
        r is Err ==> r == Err::<(), ValidationError>(ValidationError::InvalidHandle),
{
    let v = chars_of(handle);
    let n = v.len();
    if n < 2 || n > 39 {
        return Err(ValidationError::InvalidHandle);
    }
    let mut i: usize = 0;
    while i < n
        invariant
            n == v.len(),
            v@ == handle@,
            i <= n,
            forall|j: int| 0 <= j < i ==> is_handle_char(#[trigger] v@[j]),
        decreases n - i,
    {
        let c = v[i];
        if !(lower(c) || digit(c) || c == '-' || c == '_') {
            assert(!is_handle_char(v@[i as int]));
            return Err(ValidationError::InvalidHandle);
        }
        i += 1;
    }
    if alnum(v[0]) && alnum(v[n - 1]) {
        Ok(())
    } else {
        Err(ValidationError::InvalidHandle)
    }
}

/// A handle is accepted exactly when it has 2 to 39 characters, each a
/// lowercase ASCII letter, an ASCII digit, `-` or `_`, and its first and last
/// characters are a lowercase letter or a digit.
pub proof fn law_handles_are_lowercase_words(s: Seq<char>)
    ensures
        valid_handle(s) <==> {
            &&& 2 <= s.len() <= 39
            &&& forall|i: int| #![trigger s[i]] 0 <= i < s.len() ==> {
                ||| ('a' <= s[i] && s[i] <= 'z')
                ||| ('0' <= s[i] && s[i] <= '9')
                ||| s[i] == '-'
                ||| s[i] == '_'
            }
            &&& (('a' <= s[0] && s[0] <= 'z') || ('0' <= s[0] && s[0] <= '9'))
            &&& (('a' <= s.last() && s.last() <= 'z') || ('0' <= s.last() && s.last() <= '9'))
        },
{
    if 2 <= s.len() {
        assert(s.last() == s[s.len() - 1]);
    }
}

/// A Topic key is accepted exactly when it has 2 to 32 characters, each a
/// lowercase ASCII letter, an ASCII digit or `-`, and its first and last
/// characters are a lowercase letter or a digit; a Topic request is accepted
/// exactly when, besides, its trimmed title has 1 to 200 characters and its
/// description at most 20000.
pub proof fn law_topic_keys_are_lowercase_words(key: Seq<char>, title: Seq<char>, description: Seq<char>)
    ensures
        valid_topic_key(key) <==> {
            &&& 2 <= key.len() <= 32
            &&& forall|i: int| #![trigger key[i]] 0 <= i < key.len() ==> {
                ||| ('a' <= key[i] && key[i] <= 'z')
                ||| ('0' <= key[i] && key[i] <= '9')
                ||| key[i] == '-'
            }
            &&& (('a' <= key[0] && key[0] <= 'z') || ('0' <= key[0] && key[0] <= '9'))
            &&& (('a' <= key.last() && key.last() <= 'z') || ('0' <= key.last() && key.last() <= '9'))
        },
        create_topic_spec(key, title, description) is Ok <==> (valid_topic_key(key) && 1 <= trim(title).len()
            && trim(title).len() <= 200 && description.len() <= 20000),
{
    if 2 <= key.len() {
        assert(key.last() == key[key.len() - 1]);
    }
}

fn validate_topic_key(key: &Vec<char>) -> (r: Result<(), ValidationError>)
    ensures
        r is Ok <==> valid_topic_key(key@),
        r is Err ==> r == Err::<(), ValidationError>(ValidationError::InvalidTopicKey),
{
    let n = key.len();
    if n < 2 || n > 32 {
        return Err(ValidationError::InvalidTopicKey);
    }
    let mut i: usize = 0;
    while i < n
        invariant
            n == key.len(),
            i <= n,
            forall|j: int| 0 <= j < i ==> is_key_char(#[trigger] key@[j]),
        decreases n - i,
    {
        let c = key[i];
        if !(lower(c) || digit(c) || c == '-') {
            assert(!is_key_char(key@[i as int]));
            return Err(ValidationError::InvalidTopicKey);
        }
        i += 1;
    }
    if alnum(key[0]) && alnum(key[n - 1]) {
        Ok(())
    } else {
        Err(ValidationError::InvalidTopicKey)
    }
}

/// The outcome of validating a Topic creation request.
pub open spec fn create_topic_spec(key: Seq<char>, title: Seq<char>, description: Seq<char>) -> Result<
    (Seq<char>, Seq<char>, Seq<char>),
    ValidationError,
> {
    if !valid_topic_key(key) {
        Err(ValidationError::InvalidTopicKey)
    } else if trim(title).len() == 0 || trim(title).len() > 200 {
        Err(ValidationError::InvalidTitle)
    } else if description.len() > 20_000 {
        Err(ValidationError::DescriptionTooLong)
    } else {
        Ok((key, trim(title), description))
    }
}

impl CreateTopic {
    pub open spec fn parts(self) -> (Seq<char>, Seq<char>, Seq<char>) {
        (self.key@, self.title@, self.description@)
    }

    /// Validates a Topic creation request; the title is trimmed.
    pub fn new(key: String, title: String, description: String) -> (r: Result<CreateTopic, ValidationError>)
        ensures
            match r {
                Ok(t) => create_topic_spec(key@, title@, description@) == Ok::<_, ValidationError>(t.parts()),
                Err(e) => create_topic_spec(key@, title@, description@) == Err::<(Seq<char>, Seq<char>, Seq<char>), _>(e),
            },
    {
        let kv = chars_of(key.as_str());
        let tv = trimmed(&chars_of(title.as_str()));
        let dv = chars_of(description.as_str());
        validate_topic_key(&kv)?;
        if tv.len() == 0 || tv.len() > 200 {
            return Err(ValidationError::InvalidTitle);
        }
        if dv.len() > 20_000 {
            return Err(ValidationError::DescriptionTooLong);
        }
        Ok(CreateTopic { key, title: crate::text::string_of(&tv), description })
    }
}

} // verus!
