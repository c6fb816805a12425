//! The detail pane: the pull request the cursor resolves to, a scroll
//! offset into its body clamped to the wrapped text, a body/reviews tab,
//! and a process-lifetime cache of author profiles keyed by login.

use vstd::prelude::*;

use crate::pull_request::Profile;
use crate::pull_request::PullRequest;
use crate::text::str_eq;

verus! {

/// How many rows one detail-scroll step moves.
pub const DETAILS_SCROLL_INCREMENT: u16 = 3;

/// Which tab of the detail pane is active.
pub enum DetailsPanel {
    Body,
    Reviews,
}

/// The detail pane's state.
pub struct PullRequestsDetailsState {
    pub active_panel: DetailsPanel,
    pub pr_details: Option<PullRequest>,
    pub body_scroll: u16,
    pub cached_authors: Vec<Profile>,
}

/// The first cached profile under a login, if one is cached.
pub open spec fn cache_lookup(cache: Seq<Profile>, login: Seq<char>) -> Option<Profile>
    decreases cache.len(),
{
    if cache.len() == 0 {
        Option::None
    } else if cache[0].login@ == login {
        Option::Some(cache[0])
    } else {
        cache_lookup(cache.drop_first(), login)
    }
}

/// How many lines a text occupies once wrapped to a width; the count
/// depends on the text and the width alone.
pub uninterp spec fn wrapped_line_count(text: Seq<char>, width: usize) -> nat;

/// Relies on textwrap::wrap: the lines a text wraps into at a given width
/// are a function of the text and the width alone; this returns how many.
#[verifier::external_body]
fn wrap_line_count(text: &str, width: usize) -> (r: usize)
    ensures
        r as nat == wrapped_line_count(text@, width),
{
    textwrap::wrap(text, width).len()
}

/// A scroll offset clamped to the room the wrapped body leaves below the
/// viewport.
pub open spec fn clamped_scroll(s: u16, total_lines: int, viewport: int) -> u16 {
    let m: int = if total_lines > viewport {
        total_lines - viewport
    } else {
        0
    };
    if s <= m {
        s
    } else {
        m as u16
    }
}

impl PullRequestsDetailsState {
    /// Cached logins never repeat.
    pub open spec fn cache_wf(&self) -> bool {
        forall|i: int, j: int|
            0 <= i < j < self.cached_authors@.len() ==> (#[trigger] self.cached_authors@[i]).login@
                != (#[trigger] self.cached_authors@[j]).login@
    }

    /// An empty detail pane showing the body tab.
    pub fn new() -> (r: PullRequestsDetailsState)
        ensures
            r.cache_wf(),
            r.pr_details is None,
            r.body_scroll == 0,
            r.active_panel is Body,
            r.cached_authors@.len() == 0,
    {
        PullRequestsDetailsState {
            active_panel: DetailsPanel::Body,
            pr_details: Option::None,
            body_scroll: 0,
            cached_authors: Vec::new(),
        }
    }

    /// Switches between the body and reviews tabs.
    pub fn next_tab(&mut self)
        ensures
            final(self).active_panel == (match old(self).active_panel {
                DetailsPanel::Body => DetailsPanel::Reviews,
                DetailsPanel::Reviews => DetailsPanel::Body,
            }),
            final(self).pr_details == old(self).pr_details,
            final(self).body_scroll == old(self).body_scroll,
            final(self).cached_authors == old(self).cached_authors,
    {
        self.active_panel = match self.active_panel {
            DetailsPanel::Body => DetailsPanel::Reviews,
            DetailsPanel::Reviews => DetailsPanel::Body,
        };
    }

    /// Shows a newly resolved pull request (or none) and rewinds the body
    /// scroll to the top.
    pub fn set_pull_request(&mut self, pr: Option<PullRequest>)
        ensures
            final(self).pr_details == pr,
            final(self).body_scroll == 0,
            final(self).active_panel == old(self).active_panel,
            final(self).cached_authors == old(self).cached_authors,
    {
        self.pr_details = pr;
        self.body_scroll = 0;
    }

    /// Scrolls the body down one step; the offset saturates rather than
    /// wraps. Does nothing when no pull request is shown.
    pub fn scroll_body_down(&mut self)
        ensures
            final(self).pr_details == old(self).pr_details,
            final(self).active_panel == old(self).active_panel,
            final(self).cached_authors == old(self).cached_authors,
            final(self).body_scroll == (if old(self).pr_details is Some {
                if old(self).body_scroll + DETAILS_SCROLL_INCREMENT <= u16::MAX {
                    (old(self).body_scroll + DETAILS_SCROLL_INCREMENT) as u16
                } else {
                    u16::MAX
                }
            } else {
                old(self).body_scroll
            }),
    {
        if self.pr_details.is_some() {
            if self.body_scroll <= u16::MAX - DETAILS_SCROLL_INCREMENT {
                self.body_scroll = self.body_scroll + DETAILS_SCROLL_INCREMENT;
            } else {
                self.body_scroll = u16::MAX;
            }
        }
    }

    /// Scrolls the body up one step, stopping at the top. Does nothing
    /// when no pull request is shown.
    pub fn scroll_body_up(&mut self)
        ensures
            final(self).pr_details == old(self).pr_details,
            final(self).active_panel == old(self).active_panel,
            final(self).cached_authors == old(self).cached_authors,
            final(self).body_scroll == (if old(self).pr_details is Some {
                if old(self).body_scroll >= DETAILS_SCROLL_INCREMENT {
                    (old(self).body_scroll - DETAILS_SCROLL_INCREMENT) as u16
                } else {
                    0u16
                }
            } else {
                old(self).body_scroll
            }),
    {
        if self.pr_details.is_some() {
            if self.body_scroll >= DETAILS_SCROLL_INCREMENT {
                self.body_scroll = self.body_scroll - DETAILS_SCROLL_INCREMENT;
            } else {
                self.body_scroll = 0;
            }
        }
    }

    /// Clamps the body scroll to the given wrapped line count and viewport
    /// height.
    pub fn clamp_scroll(&mut self, total_lines: usize, viewport: usize)
        ensures
            final(self).pr_details == old(self).pr_details,
            final(self).active_panel == old(self).active_panel,
            final(self).cached_authors == old(self).cached_authors,
            final(self).body_scroll == clamped_scroll(
                old(self).body_scroll,
                total_lines as int,
                viewport as int,
            ),
    {
        let max_scroll: usize = if total_lines > viewport {
            total_lines - viewport
        } else {
            0
        };
        if (self.body_scroll as usize) > max_scroll {
            self.body_scroll = max_scroll as u16;
        }
    }

    /// Re-clamps the body scroll after the pane was resized: the body is
    /// wrapped to the new width and the scroll pinned inside the text.
    /// Does nothing when no pull request is shown.
    pub fn reflow(&mut self, width: usize, viewport: usize)
        ensures
            final(self).pr_details == old(self).pr_details,
            final(self).active_panel == old(self).active_panel,
            final(self).cached_authors == old(self).cached_authors,
            final(self).body_scroll == (match old(self).pr_details {
                Option::Some(pr) => clamped_scroll(
                    old(self).body_scroll,
                    wrapped_line_count(pr.body@, width) as int,
                    viewport as int,
                ),
                Option::None => old(self).body_scroll,
            }),
    {
        let total_lines = match &self.pr_details {
            Option::Some(pr) => wrap_line_count(pr.body.as_str(), width),
            Option::None => {
                return ;
            },
        };
        self.clamp_scroll(total_lines, viewport);
    }

    /// The cached profile for a login, if one is cached.
    pub fn get_profile(&self, login: &String) -> (r: Option<&Profile>)
        ensures
            match r {
                Option::Some(p) => cache_lookup(self.cached_authors@, login@) == Option::Some(*p),
                Option::None => cache_lookup(self.cached_authors@, login@) is None,
            },
    {
        proof {
            assert(self.cached_authors@.skip(0) =~= self.cached_authors@);
        }
        let mut i: usize = 0;
        while i < self.cached_authors.len()
            invariant
                i <= self.cached_authors@.len(),
                cache_lookup(self.cached_authors@, login@) == cache_lookup(
                    self.cached_authors@.skip(i as int),
                    login@,
                ),
            decreases self.cached_authors@.len() - i,
        {
            proof {
                assert(self.cached_authors@.skip(i as int)[0] == self.cached_authors@[i as int]);
                assert(self.cached_authors@.skip(i as int).drop_first()
                    =~= self.cached_authors@.skip(i + 1));
            }
            if str_eq(self.cached_authors[i].login.as_str(), login.as_str()) {
                return Option::Some(&self.cached_authors[i]);
            }
            i = i + 1;
        }
        proof {
            assert(self.cached_authors@.skip(self.cached_authors@.len() as int)
                =~= Seq::<Profile>::empty());
        }
        Option::None
    }

    /// Caches a profile under its login, overwriting any profile already
    /// cached under it; nothing is ever evicted.
    pub fn cache_profile(&mut self, profile: Profile)
        requires
            old(self).cache_wf(),
        ensures
            final(self).cache_wf(),
            final(self).pr_details == old(self).pr_details,
            final(self).active_panel == old(self).active_panel,
            final(self).body_scroll == old(self).body_scroll,
            (exists|i: int|
                0 <= i < old(self).cached_authors@.len() && (#[trigger] old(
                    self,
                ).cached_authors@[i]).login@ == profile.login@) ==> (exists|i: int|
                0 <= i < old(self).cached_authors@.len() && (#[trigger] old(
                    self,
                ).cached_authors@[i]).login@ == profile.login@ && final(self).cached_authors@
                    == old(self).cached_authors@.update(i, profile)),
            (forall|i: int|
                0 <= i < old(self).cached_authors@.len() ==> (#[trigger] old(
                    self,
                ).cached_authors@[i]).login@ != profile.login@) ==> final(self).cached_authors@
                == old(self).cached_authors@.push(profile),
    {
        let mut i: usize = 0;
        while i < self.cached_authors.len()
            invariant
                i <= self.cached_authors@.len(),
                self == old(self),
                old(self).cache_wf(),
                forall|j: int|
                    0 <= j < i ==> (#[trigger] self.cached_authors@[j]).login@ != profile.login@,
            decreases self.cached_authors@.len() - i,
        {
            if str_eq(self.cached_authors[i].login.as_str(), profile.login.as_str()) {
                let ghost pos = i as int;
                let ghost new_login = profile.login@;
                let _old_entry = self.cached_authors.remove(i);
                self.cached_authors.insert(i, profile);
                proof {
                    assert(self.cached_authors@ =~= old(self).cached_authors@.update(pos, profile));
                    assert forall|a: int, b: int|
                        0 <= a < b < self.cached_authors@.len() implies (
                    #[trigger] self.cached_authors@[a]).login@ != (
                    #[trigger] self.cached_authors@[b]).login@ by {
                        assert(old(self).cached_authors@[a].login@ != old(
                            self,
                        ).cached_authors@[b].login@);
                        if a == pos {
                            assert(self.cached_authors@[a].login@ == old(
                                self,
                            ).cached_authors@[pos].login@);
                        }
                        if b == pos {
                            assert(self.cached_authors@[b].login@ == old(
                                self,
                            ).cached_authors@[pos].login@);
                        }
                    }
                }
                return ;
            }
            i = i + 1;
        }
        let ghost new_login = profile.login@;
        self.cached_authors.push(profile);
        proof {
            assert forall|a: int, b: int|
                0 <= a < b < self.cached_authors@.len() implies (
            #[trigger] self.cached_authors@[a]).login@ != (
            #[trigger] self.cached_authors@[b]).login@ by {
                if b == self.cached_authors@.len() - 1 {
                    assert(old(self).cached_authors@[a].login@ != new_login);
                } else {
                    assert(old(self).cached_authors@[a].login@ != old(
                        self,
                    ).cached_authors@[b].login@);
                }
            }
        }
    }
}

} // verus!
