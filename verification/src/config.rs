//! The dashboard's configuration: credentials, the review command, and the
//! repositories to watch. Reading, prompting and writing the file are I/O
//! concerns outside this crate; the rules that change a configuration are
//! here.

use vstd::prelude::*;

use crate::text::str_eq;

verus! {

/// One watched repository and, optionally, where it is checked out.
pub struct Repository {
    pub owner: String,
    pub name: String,
    pub system_path: Option<String>,
}

impl Clone for Repository {
    fn clone(&self) -> (r: Self)
        ensures
            r == *self,
    {
        Repository {
            owner: self.owner.clone(),
            name: self.name.clone(),
            system_path: match &self.system_path {
                Option::Some(p) => Option::Some(p.clone()),
                Option::None => Option::None,
            },
        }
    }
}

/// The whole configuration.
pub struct Config {
    pub api_key: Option<String>,
    pub username: Option<String>,
    pub command: Option<String>,
    pub command_args: Vec<String>,
    pub repositories: Vec<Repository>,
}

/// Copies a list of strings.
pub fn clone_strings(v: &Vec<String>) -> (r: Vec<String>)
    ensures
        r@ == v@,
{
    let mut r: Vec<String> = Vec::new();
    let mut i: usize = 0;
    while i < v.len()
        invariant
            i <= v@.len(),
            r@ == v@.take(i as int),
        decreases v@.len() - i,
    {
        r.push(v[i].clone());
        assert(r@ =~= v@.take(i + 1));
        i = i + 1;
    }
    assert(r@ =~= v@);
    r
}

/// Copies a list of repositories.
fn clone_repositories(v: &Vec<Repository>) -> (r: Vec<Repository>)
    ensures
        r@ == v@,
{
    let mut r: Vec<Repository> = Vec::new();
    let mut i: usize = 0;
    while i < v.len()
        invariant
            i <= v@.len(),
            r@ == v@.take(i as int),
        decreases v@.len() - i,
    {
        r.push(v[i].clone());
        assert(r@ =~= v@.take(i + 1));
        i = i + 1;
    }
    assert(r@ =~= v@);
    r
}

impl Clone for Config {
    fn clone(&self) -> (r: Self)
        ensures
            r.api_key == self.api_key,
            r.username == self.username,
            r.command == self.command,
            r.command_args@ == self.command_args@,
            r.repositories@ == self.repositories@,
    {
        let r = Config {
            api_key: match &self.api_key {
                Option::Some(s) => Option::Some(s.clone()),
                Option::None => Option::None,
            },
            username: match &self.username {
                Option::Some(s) => Option::Some(s.clone()),
                Option::None => Option::None,
            },
            command: match &self.command {
                Option::Some(s) => Option::Some(s.clone()),
                Option::None => Option::None,
            },
            command_args: clone_strings(&self.command_args),
            repositories: clone_repositories(&self.repositories),
        };
        r
    }
}

/// Why a configuration change was refused.
pub enum ConfigError {
    /// The repository is already in the configuration.
    DuplicateRepository,
}

/// Whether two repositories name the same remote: same owner, same name.
pub open spec fn same_remote(a: Repository, b: Repository) -> bool {
    a.owner@ == b.owner@ && a.name@ == b.name@
}

impl Config {
    /// Appends a repository, unless one with the same owner and name is
    /// already configured; a duplicate leaves the configuration unchanged.
    pub fn add_repository(&mut self, new_repo: Repository) -> (r: Result<(), ConfigError>)
        ensures
            r is Err <==> exists|i: int|
                0 <= i < old(self).repositories@.len() && same_remote(
                    #[trigger] old(self).repositories@[i],
                    new_repo,
                ),
            r is Err ==> *final(self) == *old(self),
            r is Ok ==> final(self).repositories@ == old(self).repositories@.push(new_repo)
                && final(self).api_key == old(self).api_key && final(self).username == old(
                self,
            ).username && final(self).command == old(self).command && final(self).command_args
                == old(self).command_args,
    {
        let mut i: usize = 0;
        while i < self.repositories.len()
            invariant
                i <= self.repositories@.len(),
                self == old(self),
                forall|j: int|
                    0 <= j < i ==> !same_remote(#[trigger] self.repositories@[j], new_repo),
            decreases self.repositories@.len() - i,
        {
            let owner_matches = str_eq(
                self.repositories[i].owner.as_str(),
                new_repo.owner.as_str(),
            );
            let name_matches = str_eq(self.repositories[i].name.as_str(), new_repo.name.as_str());
            if owner_matches && name_matches {
                return Result::Err(ConfigError::DuplicateRepository);
            }
            i = i + 1;
        }
        self.repositories.push(new_repo);
        Result::Ok(())
    }

    /// Removing a repository is not offered yet: the configuration is left
    /// untouched.
    pub fn remove_repository(&mut self) -> (r: Result<(), ConfigError>)
        ensures
            r is Ok,
            *final(self) == *old(self),
    {
        Result::Ok(())
    }
}

} // verus!
