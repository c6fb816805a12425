//! The domain records a repository query resolves to, and the mapping from
//! raw wire fields to them: every optional field degrades to an empty
//! default instead of failing the whole response.

use vstd::prelude::*;

verus! {

/// A user, as the remote names one.
pub struct User {
    pub name: String,
    pub login: String,
}

impl Clone for User {
    fn clone(&self) -> (r: Self)
        ensures
            r == *self,
    {
        User { name: self.name.clone(), login: self.login.clone() }
    }
}

impl Default for User {
    /// An anonymous user: empty name and login.
    fn default() -> (r: Self)
        ensures
            r.name@.len() == 0,
            r.login@.len() == 0,
    {
        User { name: String::new(), login: String::new() }
    }
}

impl User {
    /// Builds a user from wire fields; an absent display name becomes
    /// empty.
    pub fn from_parts(name: Option<String>, login: String) -> (r: User)
        ensures
            r.name@ == crate::pull_request::field_or_empty(name),
            r.login == login,
    {
        User { name: name.unwrap_or_default(), login }
    }
}

/// A comment on a pull request or inside a review.
pub struct Comment {
    pub author: User,
    pub body: String,
}

impl Clone for Comment {
    fn clone(&self) -> (r: Self)
        ensures
            r == *self,
    {
        Comment { author: self.author.clone(), body: self.body.clone() }
    }
}

impl Comment {
    /// Builds a comment from wire fields; an absent author becomes
    /// anonymous.
    pub fn from_parts(author: Option<User>, body: String) -> (r: Comment)
        ensures
            match author {
                Option::Some(a) => r.author == a,
                Option::None => r.author.name@.len() == 0 && r.author.login@.len() == 0,
            },
            r.body == body,
    {
        Comment {
            author: match author {
                Option::Some(a) => a,
                Option::None => User::default(),
            },
            body,
        }
    }
}

/// A submitted review.
pub struct Review {
    pub author: User,
    pub body: String,
    pub state: String,
    pub submitted_at: String,
    pub comments: Vec<Comment>,
}

impl Review {
    /// Builds a review from wire fields; an absent author becomes
    /// anonymous and an absent submission time empty.
    pub fn from_parts(
        author: Option<User>,
        body: String,
        state: String,
        submitted_at: Option<String>,
        comments: Vec<Comment>,
    ) -> (r: Review)
        ensures
            match author {
                Option::Some(a) => r.author == a,
                Option::None => r.author.name@.len() == 0 && r.author.login@.len() == 0,
            },
            r.body == body,
            r.state == state,
            r.submitted_at@ == crate::pull_request::field_or_empty(submitted_at),
            r.comments == comments,
    {
        Review {
            author: match author {
                Option::Some(a) => a,
                Option::None => User::default(),
            },
            body,
            state,
            submitted_at: submitted_at.unwrap_or_default(),
            comments,
        }
    }
}

/// A remote repository and the pull requests fetched from it.
pub struct Repository {
    pub name: String,
    pub url: String,
    pub pull_requests: Vec<PullRequest>,
}

impl Default for Repository {
    /// A nameless repository with no pull requests.
    fn default() -> (r: Self)
        ensures
            r.name@.len() == 0,
            r.url@.len() == 0,
            r.pull_requests@.len() == 0,
    {
        Repository { name: String::new(), url: String::new(), pull_requests: Vec::new() }
    }
}

impl Repository {
    /// Builds a repository record from wire fields.
    pub fn from_parts(name: String, url: String, pull_requests: Vec<PullRequest>) -> (r:
        Repository)
        ensures
            r.name == name,
            r.url == url,
            r.pull_requests == pull_requests,
    {
        Repository { name, url, pull_requests }
    }
}

/// One pull request of the repository query, with everything the detail
/// views read.
pub struct PullRequest {
    pub base_repo: Repository,
    pub base_ref_name: String,
    pub head_ref_name: String,
    pub number: u64,
    pub title: String,
    pub author: User,
    pub body: String,
    pub url: String,
    pub is_draft: bool,
    pub review_requests: Vec<User>,
    pub reviews: Vec<Review>,
    pub comments: Vec<Comment>,
    pub assignees: Vec<User>,
}

impl PullRequest {
    /// Builds a pull request from wire fields; an absent author becomes
    /// anonymous and an absent base repository nameless.
    pub fn from_parts(
        base_repo: Option<Repository>,
        base_ref_name: String,
        head_ref_name: String,
        number: u64,
        title: String,
        author: Option<User>,
        body: String,
        url: String,
        is_draft: bool,
        review_requests: Vec<User>,
        reviews: Vec<Review>,
        comments: Vec<Comment>,
        assignees: Vec<User>,
    ) -> (r: PullRequest)
        ensures
            match base_repo {
                Option::Some(b) => r.base_repo == b,
                Option::None => r.base_repo.name@.len() == 0 && r.base_repo.url@.len() == 0
                    && r.base_repo.pull_requests@.len() == 0,
            },
            r.base_ref_name == base_ref_name,
            r.head_ref_name == head_ref_name,
            r.number == number,
            r.title == title,
            match author {
                Option::Some(a) => r.author == a,
                Option::None => r.author.name@.len() == 0 && r.author.login@.len() == 0,
            },
            r.body == body,
            r.url == url,
            r.is_draft == is_draft,
            r.review_requests == review_requests,
            r.reviews == reviews,
            r.comments == comments,
            r.assignees == assignees,
    {
        PullRequest {
            base_repo: match base_repo {
                Option::Some(b) => b,
                Option::None => Repository::default(),
            },
            base_ref_name,
            head_ref_name,
            number,
            title,
            author: match author {
                Option::Some(a) => a,
                Option::None => User::default(),
            },
            body,
            url,
            is_draft,
            review_requests,
            reviews,
            comments,
            assignees,
        }
    }
}

} // verus!
