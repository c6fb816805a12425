//! The immutable pull-request snapshot the dashboard lists, and the author
//! profile kept in the details cache, together with the mapping from raw
//! fetched fields (each optional on the wire) to a fully defaulted record.

use vstd::prelude::*;

use crate::text::dec_digits;
use crate::text::u64_to_dec;

verus! {

/// One pull request as a panel row shows it. Identity is (repo, id);
/// snapshots are replaced wholesale, never mutated.
pub struct PullRequest {
    pub id: String,
    pub title: String,
    pub url: String,
    pub repo: String,
    pub body: String,
    pub author: String,
    pub is_draft: bool,
    pub mergeable: bool,
    pub rebaseable: bool,
}

impl Clone for PullRequest {
    fn clone(&self) -> (r: Self)
        ensures
            r == *self,
    {
        PullRequest {
            id: self.id.clone(),
            title: self.title.clone(),
            url: self.url.clone(),
            repo: self.repo.clone(),
            body: self.body.clone(),
            author: self.author.clone(),
            is_draft: self.is_draft,
            mergeable: self.mergeable,
            rebaseable: self.rebaseable,
        }
    }
}

/// The characters an optional wire field contributes: its text, or nothing.
pub open spec fn field_or_empty(f: Option<String>) -> Seq<char> {
    match f {
        Option::Some(s) => s@,
        Option::None => Seq::<char>::empty(),
    }
}

/// How a pull request names its author: the login, with the e-mail appended
/// after a separator when one is known.
pub open spec fn author_display(login: Option<String>, email: Option<String>) -> Seq<char> {
    match login {
        Option::None => Seq::<char>::empty(),
        Option::Some(l) => match email {
            Option::None => l@,
            Option::Some(e) => l@ + seq![' ', '-', ' '] + e@,
        },
    }
}

impl PullRequest {
    /// Builds a snapshot from the raw fields of a fetched pull request,
    /// substituting an empty or false default for every absent field.
    pub fn from_parts(
        number: u64,
        title: Option<String>,
        url: Option<String>,
        repo: Option<String>,
        body: Option<String>,
        author_login: Option<String>,
        author_email: Option<String>,
        is_draft: Option<bool>,
        mergeable: Option<bool>,
        rebaseable: Option<bool>,
    ) -> (r: PullRequest)
        ensures
            r.id@ == dec_digits(number as nat),
            r.title@ == field_or_empty(title),
            r.url@ == field_or_empty(url),
            r.repo@ == field_or_empty(repo),
            r.body@ == field_or_empty(body),
            r.author@ == author_display(author_login, author_email),
            r.is_draft == (is_draft == Some(true)),
            r.mergeable == (mergeable == Some(true)),
            r.rebaseable == (rebaseable == Some(true)),
    {
        let author = match author_login {
            Option::Some(l) => match author_email {
                Option::Some(e) => {
                    let mut a = l;
                    proof {
                        reveal_strlit(" - ");
                    }
                    a.append(" - ");
                    a.append(e.as_str());
                    proof {
                        assert(a@ =~= author_display(Some(l), Some(e)));
                    }
                    a
                },
                Option::None => l,
            },
            Option::None => String::new(),
        };
        PullRequest {
            id: u64_to_dec(number),
            title: title.unwrap_or_default(),
            url: url.unwrap_or_default(),
            repo: repo.unwrap_or_default(),
            body: body.unwrap_or_default(),
            author,
            is_draft: is_draft.unwrap_or_default(),
            mergeable: mergeable.unwrap_or_default(),
            rebaseable: rebaseable.unwrap_or_default(),
        }
    }
}

/// A cached author profile, resolved once per login over the process's life.
pub struct Profile {
    pub id: String,
    pub login: String,
    pub name: String,
}

impl Clone for Profile {
    fn clone(&self) -> (r: Self)
        ensures
            r == *self,
    {
        Profile { id: self.id.clone(), login: self.login.clone(), name: self.name.clone() }
    }
}

impl Profile {
    /// Builds a profile from the raw fields of a fetched user, with an
    /// empty default for an absent display name.
    pub fn from_parts(id: u64, login: String, name: Option<String>) -> (r: Profile)
        ensures
            r.id@ == dec_digits(id as nat),
            r.login == login,
            r.name@ == field_or_empty(name),
    {
        Profile { id: u64_to_dec(id), login, name: name.unwrap_or_default() }
    }
}

} // verus!
