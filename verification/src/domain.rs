//! Subscriber names and email addresses, validated once at the boundary.

use vstd::prelude::*;
use unicode_segmentation::UnicodeSegmentation;

verus! {

/// The number of extended grapheme clusters ("user-perceived characters")
/// in a string; a function of the characters alone.
pub uninterp spec fn grapheme_count(s: Seq<char>) -> nat;

/// Relies on unicode-segmentation's `graphemes` iterator (extended grapheme
/// clusters, the recommended definition). Every grapheme cluster is made of
/// at least one character, and the empty string has none.
#[verifier::external_body]
fn count_graphemes(s: &str) -> (n: usize)
    ensures
        n as nat == grapheme_count(s@),
        n as nat <= s@.len(),
{
    s.graphemes(true).count()
}

/// Whether a character has the Unicode `White_Space` property; a function
/// of the character alone.
pub uninterp spec fn char_whitespace(c: char) -> bool;

/// Relies on std's `char::is_whitespace` (the Unicode `White_Space`
/// property, as its documentation states).
#[verifier::external_body]
fn is_whitespace_char(c: char) -> (r: bool)
    ensures
        r == char_whitespace(c),
{
    c.is_whitespace()
}

/// The largest number of graphemes a subscriber name may have.
pub const MAX_NAME_GRAPHEMES: usize = 256;

/// Characters that may not appear in a subscriber name.
pub open spec fn forbidden_name_char(c: char) -> bool {
    c == '/' || c == '(' || c == ')' || c == '"' || c == '<' || c == '>' || c == '\\' || c == '{'
        || c == '}'
}

/// What a subscriber name must satisfy: not empty or whitespace only, at
/// most [`MAX_NAME_GRAPHEMES`] graphemes, and free of forbidden characters.
pub open spec fn spec_valid_name(s: Seq<char>) -> bool {
    &&& !(forall|i: int| 0 <= i < s.len() ==> char_whitespace(s[i]))
    &&& grapheme_count(s) <= MAX_NAME_GRAPHEMES
    &&& forall|i: int| 0 <= i < s.len() ==> !forbidden_name_char(s[i])
}

/// Returns `true` if the input satisfies all the validation constraints on
/// subscriber names, `false` otherwise.
pub fn is_valid_name(s: &str) -> (r: bool)
    ensures
        r == spec_valid_name(s@),
{
    let n = s.unicode_len();
    let mut all_whitespace = true;
    let mut has_forbidden = false;
    for i in 0..n
        invariant
            n == s@.len(),
            all_whitespace == (forall|j: int| 0 <= j < i ==> char_whitespace(s@[j])),
            has_forbidden == !(forall|j: int| 0 <= j < i ==> !forbidden_name_char(s@[j])),
    {
        let c = s.get_char(i);
        if !is_whitespace_char(c) {
            all_whitespace = false;
        }
        if c == '/' || c == '(' || c == ')' || c == '"' || c == '<' || c == '>' || c == '\\'
            || c == '{' || c == '}' {
            has_forbidden = true;
        }
    }
    let is_too_long = count_graphemes(s) > MAX_NAME_GRAPHEMES;
    !(all_whitespace || is_too_long || has_forbidden)
}

/// A validated subscriber name.
pub struct SubscriberName {
    name: String,
}

impl View for SubscriberName {
    type V = Seq<char>;

    closed spec fn view(&self) -> Seq<char> {
        self.name@
    }
}

impl SubscriberName {
    /// Accepts the input exactly when [`is_valid_name`] does.
    pub fn parse(s: String) -> (r: Result<SubscriberName, String>)
        ensures
            r is Ok <==> spec_valid_name(s@),
            r matches Ok(name) ==> name@ == s@,
            r matches Err(e) ==> e@ == s@,
    {
        if is_valid_name(s.as_str()) {
            Ok(SubscriberName { name: s })
        } else {
            Err(s)
        }
    }

    /// The validated name.
    pub fn as_string(&self) -> (r: &String)
        ensures
            r@ == self@,
    {
        &self.name
    }
}

/// What a stored email address must satisfy: an `@` strictly inside the
/// string and no whitespace anywhere. Anything else is a data-integrity
/// error surfaced per row, never a batch-wide failure.
pub open spec fn spec_valid_email(s: Seq<char>) -> bool {
    &&& exists|i: int| 0 < i < s.len() - 1 && s[i] == '@'
    &&& forall|i: int| 0 <= i < s.len() ==> !char_whitespace(s[i])
}

/// A validated subscriber email address.
pub struct SubscriberEmail {
    email: String,
}

impl View for SubscriberEmail {
    type V = Seq<char>;

    closed spec fn view(&self) -> Seq<char> {
        self.email@
    }
}

impl SubscriberEmail {
    /// Accepts the input exactly when [`spec_valid_email`] holds of it.
    pub fn parse(s: String) -> (r: Result<SubscriberEmail, String>)
        ensures
            r is Ok <==> spec_valid_email(s@),
            r matches Ok(email) ==> email@ == s@,
            r matches Err(e) ==> e@ == s@,
    {
        let n = s.as_str().unicode_len();
        let mut has_inner_at = false;
        let mut has_whitespace = false;
        for i in 0..n
            invariant
                n == s@.len(),
                has_inner_at == (exists|j: int| 0 < j < i && j < n - 1 && s@[j] == '@'),
                has_whitespace == !(forall|j: int| 0 <= j < i ==> !char_whitespace(s@[j])),
        {
            let c = s.as_str().get_char(i);
            if c == '@' && i > 0 && i + 1 < n {
                has_inner_at = true;
            }
            if is_whitespace_char(c) {
                has_whitespace = true;
            }
        }
        if has_inner_at && !has_whitespace {
            Ok(SubscriberEmail { email: s })
        } else {
            Err(s)
        }
    }

    /// The validated address.
    pub fn as_string(&self) -> (r: &String)
        ensures
            r@ == self@,
    {
        &self.email
    }
}

/// A new subscriber whose name and email have both been validated.
pub struct NewSubscriber {
    pub email: SubscriberEmail,
    pub name: SubscriberName,
}

impl NewSubscriber {
    /// Validates both fields; the name is checked first, as the form
    /// handler does.
    pub fn parse(email: String, name: String) -> (r: Result<NewSubscriber, String>)
        ensures
            r is Ok <==> spec_valid_name(name@) && spec_valid_email(email@),
            r matches Ok(s) ==> s.name@ == name@ && s.email@ == email@,
    {
        let name = SubscriberName::parse(name)?;
        let email = SubscriberEmail::parse(email)?;
        Ok(NewSubscriber { email, name })
    }
}

} // verus!
