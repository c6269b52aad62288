//! Newsletter issues: created once per successful publish orchestration,
//! immutable thereafter.

use vstd::prelude::*;
use crate::domain::SubscriberEmail;
use crate::email::EmailRequest;

verus! {

/// Mathematical view of one newsletter issue.
pub struct IssueView {
    pub id: u128,
    pub title: Seq<char>,
    pub text_content: Seq<char>,
    pub html_content: Seq<char>,
    pub published_at: i64,
}

/// One newsletter issue: title, both body renderings, creation timestamp,
/// unique identifier.
pub struct NewsletterIssue {
    pub id: u128,
    pub title: String,
    pub text_content: String,
    pub html_content: String,
    pub published_at: i64,
}

impl View for NewsletterIssue {
    type V = IssueView;

    open spec fn view(&self) -> IssueView {
        IssueView {
            id: self.id,
            title: self.title@,
            text_content: self.text_content@,
            html_content: self.html_content@,
            published_at: self.published_at,
        }
    }
}

/// Whether some issue already carries this identifier.
pub open spec fn issue_id_taken(s: Seq<IssueView>, id: u128) -> bool {
    exists|i: int| 0 <= i < s.len() && s[i].id == id
}

/// The issues published so far, identifiers unique.
pub struct IssueStore {
    issues: Vec<NewsletterIssue>,
}

impl View for IssueStore {
    type V = Seq<IssueView>;

    closed spec fn view(&self) -> Seq<IssueView> {
        self.issues@.map_values(|i: NewsletterIssue| i@)
    }
}

impl IssueStore {
    /// Identifiers unique across issues.
    pub open spec fn wf(&self) -> bool {
        forall|i: int, j: int| 0 <= i < j < self@.len() ==> self@[i].id != self@[j].id
    }

    /// An empty store.
    pub fn new() -> (r: IssueStore)
        ensures
            r@ =~= Seq::<IssueView>::empty(),
            r.wf(),
    {
        IssueStore { issues: Vec::new() }
    }

    /// The number of issues published so far.
    pub fn len(&self) -> (r: usize)
        ensures
            r == self@.len(),
    {
        self.issues.len()
    }

    /// The issue at `i`.
    pub fn get(&self, i: usize) -> (r: &NewsletterIssue)
        requires
            i < self@.len(),
        ensures
            r@ == self@[i as int],
    {
        &self.issues[i]
    }

    /// Whether some issue already carries this identifier.
    pub fn id_exists(&self, id: u128) -> (r: bool)
        ensures
            r == issue_id_taken(self@, id),
    {
        let n = self.issues.len();
        let mut found = false;
        for i in 0..n
            invariant
                n == self@.len(),
                found == (exists|j: int| 0 <= j < i && self@[j].id == id),
        {
            if self.issues[i].id == id {
                found = true;
                proof {
                    assert(exists|j: int| 0 <= j < i + 1 && self@[j].id == id) by {
                        assert(self@[i as int].id == id);
                    }
                }
            }
        }
        found
    }

    /// The issue carrying this identifier, if any.
    pub fn get_issue(&self, id: u128) -> (r: Option<&NewsletterIssue>)
        ensures
            r is Some <==> issue_id_taken(self@, id),
            r matches Some(issue) ==> issue@.id == id && exists|i: int|
                0 <= i < self@.len() && self@[i] == issue@,
    {
        let n = self.issues.len();
        for i in 0..n
            invariant
                n == self@.len(),
                forall|j: int| 0 <= j < i ==> self@[j].id != id,
        {
            if self.issues[i].id == id {
                proof {
                    assert(issue_id_taken(self@, id)) by {
                        assert(self@[i as int].id == id);
                    }
                }
                return Some(&self.issues[i]);
            }
        }
        None
    }

    /// Saves a new issue row. Fails — changing nothing — exactly when the
    /// identifier is already taken, as the store's uniqueness rule
    /// demands.
    pub fn insert_newsletter_issue(
        &mut self,
        id: u128,
        title: &String,
        text_content: &String,
        html_content: &String,
        published_at: i64,
    ) -> (r: Result<(), String>)
        requires
            old(self).wf(),
        ensures
            final(self).wf(),
            r is Ok <==> !issue_id_taken(old(self)@, id),
            r is Ok ==> final(self)@ == old(self)@.push(
                (IssueView {
                    id,
                    title: title@,
                    text_content: text_content@,
                    html_content: html_content@,
                    published_at,
                }),
            ),
            r is Err ==> final(self)@ == old(self)@,
    {
        let ghost pre = self@;
        if self.id_exists(id) {
            return Err(String::from_str("an issue with this identifier already exists"));
        }
        let issue = NewsletterIssue {
            id,
            title: title.clone(),
            text_content: text_content.clone(),
            html_content: html_content.clone(),
            published_at,
        };
        self.issues.push(issue);
        proof {
            assert(self@ =~= pre.push(
                (IssueView {
                    id,
                    title: title@,
                    text_content: text_content@,
                    html_content: html_content@,
                    published_at,
                }),
            ));
        }
        Ok(())
    }
}

/// Builds the email that delivers one issue to one recipient: the issue's
/// title is the subject and its two renderings are the bodies, verbatim.
pub fn build_issue_email(issue: &NewsletterIssue, recipient: &SubscriberEmail) -> (r: EmailRequest)
    ensures
        r@.to == recipient@,
        r@.subject == issue.title@,
        r@.html_body == issue.html_content@,
        r@.text_body == issue.text_content@,
{
    EmailRequest {
        to: recipient.as_string().clone(),
        subject: issue.title.clone(),
        html_body: issue.html_content.clone(),
        text_body: issue.text_content.clone(),
    }
}

} // verus!
