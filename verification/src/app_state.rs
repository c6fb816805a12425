//! The dashboard's shared state: two independently cursored panels, the
//! detail pane, the loading indicator, and the rules that merge freshly
//! fetched pull requests into them. Fetching itself is asynchronous I/O
//! outside this crate; what it hands back is classified and committed
//! here.

use vstd::prelude::*;

use crate::config::Config;
use crate::config::Repository;
use crate::details_state::PullRequestsDetailsState;
use crate::list_state::clamped_cursor;
use crate::list_state::projected;
use crate::list_state::replace_in;
use crate::list_state::store_size;
use crate::list_state::total_rows;
use crate::list_state::views_of;
use crate::list_state::PullRequestsListState;
use crate::pull_request::PullRequest;
use crate::text::str_eq;

verus! {

/// Which panel the cursor and the commands act on.
pub enum ActivePanel {
    PullRequestsToReview,
    MyPullRequests,
}

/// The refresh indicator: `Error` keeps only the most recent message and
/// is left again by the next refresh.
pub enum LoadingState {
    Idle,
    Loading,
    Loaded,
    Error(String),
}

/// The whole shared state behind the dashboard.
pub struct AppState {
    pub active_panel: ActivePanel,
    pub review_prs: PullRequestsListState,
    pub assignee_prs: PullRequestsListState,
    pub details: PullRequestsDetailsState,
    pub loading_state: LoadingState,
    pub show_help: bool,
    pub searching: bool,
}

/// The panel the commands currently act on.
pub open spec fn active_of(s: AppState) -> PullRequestsListState {
    match s.active_panel {
        ActivePanel::PullRequestsToReview => s.review_prs,
        ActivePanel::MyPullRequests => s.assignee_prs,
    }
}

/// The panel the commands do not act on stays as it was.
pub open spec fn inactive_unchanged(pre: AppState, post: AppState) -> bool {
    match pre.active_panel {
        ActivePanel::PullRequestsToReview => post.assignee_prs == pre.assignee_prs,
        ActivePanel::MyPullRequests => post.review_prs == pre.review_prs,
    }
}

/// The fields a navigation command never touches.
pub open spec fn nav_frame(pre: AppState, post: AppState) -> bool {
    &&& post.active_panel == pre.active_panel
    &&& post.loading_state == pre.loading_state
    &&& post.show_help == pre.show_help
    &&& post.searching == pre.searching
    &&& post.details.active_panel == pre.details.active_panel
    &&& post.details.cached_authors == pre.details.cached_authors
}

/// The active panel's store and filter survive a cursor move.
pub open spec fn active_store_unchanged(pre: AppState, post: AppState) -> bool {
    &&& active_of(post).grouped_prs == active_of(pre).grouped_prs
    &&& active_of(post).filtered_prs == active_of(pre).filtered_prs
    &&& active_of(post).filter_query == active_of(pre).filter_query
}

/// The detail pane shows exactly what the active cursor rests on, from
/// the top of its body.
pub open spec fn details_synced(post: AppState) -> bool {
    &&& post.details.pr_details == active_of(post).spec_selection()
    &&& post.details.body_scroll == 0
}

impl AppState {
    /// Both panels and the profile cache are well-formed.
    pub open spec fn wf(&self) -> bool {
        &&& self.review_prs.wf()
        &&& self.assignee_prs.wf()
        &&& self.details.cache_wf()
    }

    /// A fresh dashboard: empty panels, review panel active, idle.
    pub fn new() -> (r: AppState)
        ensures
            r.wf(),
            r.active_panel is PullRequestsToReview,
            r.loading_state is Idle,
            r.show_help == false,
            r.searching == false,
            r.review_prs.grouped_prs@.len() == 0,
            r.assignee_prs.grouped_prs@.len() == 0,
            r.details.pr_details is None,
    {
        AppState {
            active_panel: ActivePanel::PullRequestsToReview,
            review_prs: PullRequestsListState::new(),
            assignee_prs: PullRequestsListState::new(),
            details: PullRequestsDetailsState::new(),
            loading_state: LoadingState::Idle,
            show_help: false,
            searching: false,
        }
    }

    /// Re-resolves the detail pane from the active panel's cursor.
    fn sync_details(&mut self)
        requires
            old(self).wf(),
        ensures
            final(self).wf(),
            final(self).active_panel == old(self).active_panel,
            final(self).review_prs == old(self).review_prs,
            final(self).assignee_prs == old(self).assignee_prs,
            final(self).loading_state == old(self).loading_state,
            final(self).show_help == old(self).show_help,
            final(self).searching == old(self).searching,
            final(self).details.active_panel == old(self).details.active_panel,
            final(self).details.cached_authors == old(self).details.cached_authors,
            details_synced(*final(self)),
    {
        let selected: Option<PullRequest> = match self.active_panel {
            ActivePanel::PullRequestsToReview => match self.review_prs.find_selected() {
                Option::Some(p) => Option::Some(p.clone()),
                Option::None => Option::None,
            },
            ActivePanel::MyPullRequests => match self.assignee_prs.find_selected() {
                Option::Some(p) => Option::Some(p.clone()),
                Option::None => Option::None,
            },
        };
        self.details.set_pull_request(selected);
    }

    /// Moves the active cursor one row down and re-resolves the details.
    pub fn scroll_down(&mut self)
        requires
            old(self).wf(),
        ensures
            final(self).wf(),
            nav_frame(*old(self), *final(self)),
            inactive_unchanged(*old(self), *final(self)),
            active_store_unchanged(*old(self), *final(self)),
            active_of(*final(self)).selected == (match active_of(*old(self)).selected {
                Option::Some(c) => if c + 1 < total_rows(active_of(*old(self)).filtered_views()) {
                    Option::Some((c + 1) as usize)
                } else {
                    Option::Some(c)
                },
                Option::None => Option::<usize>::None,
            }),
            details_synced(*final(self)),
    {
        match self.active_panel {
            ActivePanel::PullRequestsToReview => self.review_prs.scroll_down(),
            ActivePanel::MyPullRequests => self.assignee_prs.scroll_down(),
        }
        self.sync_details();
    }

    /// Moves the active cursor one row up and re-resolves the details.
    pub fn scroll_up(&mut self)
        requires
            old(self).wf(),
        ensures
            final(self).wf(),
            nav_frame(*old(self), *final(self)),
            inactive_unchanged(*old(self), *final(self)),
            active_store_unchanged(*old(self), *final(self)),
            active_of(*final(self)).selected == (match active_of(*old(self)).selected {
                Option::Some(c) => if c >= 1 {
                    Option::Some((c - 1) as usize)
                } else {
                    Option::Some(c)
                },
                Option::None => Option::<usize>::None,
            }),
            details_synced(*final(self)),
    {
        match self.active_panel {
            ActivePanel::PullRequestsToReview => self.review_prs.scroll_up(),
            ActivePanel::MyPullRequests => self.assignee_prs.scroll_up(),
        }
        self.sync_details();
    }

    /// Moves the active cursor a jump up and re-resolves the details.
    pub fn jump_up(&mut self)
        requires
            old(self).wf(),
        ensures
            final(self).wf(),
            nav_frame(*old(self), *final(self)),
            inactive_unchanged(*old(self), *final(self)),
            active_store_unchanged(*old(self), *final(self)),
            active_of(*final(self)).selected == (match active_of(*old(self)).selected {
                Option::Some(c) => if c >= crate::JUMP_STEP {
                    Option::Some((c - crate::JUMP_STEP) as usize)
                } else {
                    Option::Some(0usize)
                },
                Option::None => Option::<usize>::None,
            }),
            details_synced(*final(self)),
    {
        match self.active_panel {
            ActivePanel::PullRequestsToReview => self.review_prs.jump_up(),
            ActivePanel::MyPullRequests => self.assignee_prs.jump_up(),
        }
        self.sync_details();
    }

    /// Moves the active cursor a jump down and re-resolves the details.
    pub fn jump_down(&mut self)
        requires
            old(self).wf(),
        ensures
            final(self).wf(),
            nav_frame(*old(self), *final(self)),
            inactive_unchanged(*old(self), *final(self)),
            active_store_unchanged(*old(self), *final(self)),
            active_of(*final(self)).selected == (match active_of(*old(self)).selected {
                Option::Some(c) => if c + crate::JUMP_STEP < total_rows(
                    active_of(*old(self)).filtered_views(),
                ) {
                    Option::Some((c + crate::JUMP_STEP) as usize)
                } else {
                    Option::Some(
                        (total_rows(active_of(*old(self)).filtered_views()) - 1) as usize,
                    )
                },
                Option::None => Option::<usize>::None,
            }),
            details_synced(*final(self)),
    {
        match self.active_panel {
            ActivePanel::PullRequestsToReview => self.review_prs.jump_down(),
            ActivePanel::MyPullRequests => self.assignee_prs.jump_down(),
        }
        self.sync_details();
    }

    /// Moves the active cursor to the next group header and re-resolves
    /// the details.
    pub fn next_repository(&mut self)
        requires
            old(self).wf(),
        ensures
            final(self).wf(),
            nav_frame(*old(self), *final(self)),
            inactive_unchanged(*old(self), *final(self)),
            active_store_unchanged(*old(self), *final(self)),
            active_of(*final(self)).selected == (match active_of(*old(self)).selected {
                Option::Some(c) => match crate::list_state::next_header_from(
                    active_of(*old(self)).filtered_views(),
                    c as int,
                    0,
                ) {
                    Option::Some(k) => Option::Some(
                        crate::list_state::row_offset(
                            active_of(*old(self)).filtered_views(),
                            k,
                        ) as usize,
                    ),
                    Option::None => Option::Some(c),
                },
                Option::None => Option::<usize>::None,
            }),
            details_synced(*final(self)),
    {
        match self.active_panel {
            ActivePanel::PullRequestsToReview => self.review_prs.next_repository(),
            ActivePanel::MyPullRequests => self.assignee_prs.next_repository(),
        }
        self.sync_details();
    }

    /// Moves the active cursor to the previous group header (or the first
    /// row) and re-resolves the details.
    pub fn previous_repository(&mut self)
        requires
            old(self).wf(),
        ensures
            final(self).wf(),
            nav_frame(*old(self), *final(self)),
            inactive_unchanged(*old(self), *final(self)),
            active_store_unchanged(*old(self), *final(self)),
            active_of(*final(self)).selected == (match active_of(*old(self)).selected {
                Option::Some(c) => Option::Some(
                    crate::list_state::prev_header_from(
                        active_of(*old(self)).filtered_views(),
                        c as int,
                        0,
                        0,
                    ) as usize,
                ),
                Option::None => Option::<usize>::None,
            }),
            details_synced(*final(self)),
    {
        match self.active_panel {
            ActivePanel::PullRequestsToReview => self.review_prs.previous_repository(),
            ActivePanel::MyPullRequests => self.assignee_prs.previous_repository(),
        }
        self.sync_details();
    }

    /// Flips the expansion of the group under the active cursor and
    /// re-resolves the details.
    pub fn toggle_expand(&mut self)
        requires
            old(self).wf(),
        ensures
            final(self).wf(),
            nav_frame(*old(self), *final(self)),
            inactive_unchanged(*old(self), *final(self)),
            active_of(*final(self)).filter_query == active_of(*old(self)).filter_query,
            match active_of(*old(self)).selected {
                Option::None => active_of(*final(self)) == active_of(*old(self)),
                Option::Some(c) => match crate::list_state::group_of_row(
                    crate::list_state::row_at(active_of(*old(self)).filtered_views(), c as int),
                ) {
                    Option::Some(k) => active_of(*final(self)).grouped_views()
                        == crate::list_state::toggle_in(
                        active_of(*old(self)).grouped_views(),
                        active_of(*old(self)).filtered_views()[k].name,
                    ),
                    Option::None => active_of(*final(self)) == active_of(*old(self)),
                },
            },
            details_synced(*final(self)),
    {
        match self.active_panel {
            ActivePanel::PullRequestsToReview => self.review_prs.toggle_expand(),
            ActivePanel::MyPullRequests => self.assignee_prs.toggle_expand(),
        }
        self.sync_details();
    }

    /// Switches to the other panel and re-resolves the details from its
    /// cursor.
    pub fn next_tab(&mut self)
        requires
            old(self).wf(),
        ensures
            final(self).wf(),
            final(self).active_panel == (match old(self).active_panel {
                ActivePanel::PullRequestsToReview => ActivePanel::MyPullRequests,
                ActivePanel::MyPullRequests => ActivePanel::PullRequestsToReview,
            }),
            final(self).review_prs == old(self).review_prs,
            final(self).assignee_prs == old(self).assignee_prs,
            final(self).loading_state == old(self).loading_state,
            final(self).show_help == old(self).show_help,
            final(self).searching == old(self).searching,
            final(self).details.active_panel == old(self).details.active_panel,
            final(self).details.cached_authors == old(self).details.cached_authors,
            details_synced(*final(self)),
    {
        self.active_panel = match self.active_panel {
            ActivePanel::PullRequestsToReview => ActivePanel::MyPullRequests,
            ActivePanel::MyPullRequests => ActivePanel::PullRequestsToReview,
        };
        self.sync_details();
    }

    /// Scrolls the detail body down one step.
    pub fn scroll_details_down(&mut self)
        requires
            old(self).wf(),
        ensures
            final(self).wf(),
            final(self).review_prs == old(self).review_prs,
            final(self).assignee_prs == old(self).assignee_prs,
            final(self).active_panel == old(self).active_panel,
            final(self).details.pr_details == old(self).details.pr_details,
            final(self).details.body_scroll == (if old(self).details.pr_details is Some {
                if old(self).details.body_scroll + crate::details_state::DETAILS_SCROLL_INCREMENT
                    <= u16::MAX {
                    (old(self).details.body_scroll
                        + crate::details_state::DETAILS_SCROLL_INCREMENT) as u16
                } else {
                    u16::MAX
                }
            } else {
                old(self).details.body_scroll
            }),
    {
        self.details.scroll_body_down();
    }

    /// Scrolls the detail body up one step.
    pub fn scroll_details_up(&mut self)
        requires
            old(self).wf(),
        ensures
            final(self).wf(),
            final(self).review_prs == old(self).review_prs,
            final(self).assignee_prs == old(self).assignee_prs,
            final(self).active_panel == old(self).active_panel,
            final(self).details.pr_details == old(self).details.pr_details,
            final(self).details.body_scroll == (if old(self).details.pr_details is Some {
                if old(self).details.body_scroll >= crate::details_state::DETAILS_SCROLL_INCREMENT {
                    (old(self).details.body_scroll
                        - crate::details_state::DETAILS_SCROLL_INCREMENT) as u16
                } else {
                    0u16
                }
            } else {
                old(self).details.body_scroll
            }),
    {
        self.details.scroll_body_up();
    }

    /// Shows or hides the key-binding help.
    pub fn toggle_help(&mut self)
        ensures
            final(self).show_help == !old(self).show_help,
            final(self).review_prs == old(self).review_prs,
            final(self).assignee_prs == old(self).assignee_prs,
            final(self).details == old(self).details,
            final(self).active_panel == old(self).active_panel,
            final(self).loading_state == old(self).loading_state,
            final(self).searching == old(self).searching,
    {
        self.show_help = !self.show_help;
    }

    /// Whether the help popup is open.
    pub fn help_open(&self) -> (r: bool)
        ensures
            r == self.show_help,
    {
        self.show_help
    }

    /// Enters or leaves search entry mode.
    pub fn toggle_search(&mut self)
        ensures
            final(self).searching == !old(self).searching,
            final(self).review_prs == old(self).review_prs,
            final(self).assignee_prs == old(self).assignee_prs,
            final(self).details == old(self).details,
            final(self).active_panel == old(self).active_panel,
            final(self).loading_state == old(self).loading_state,
            final(self).show_help == old(self).show_help,
    {
        self.searching = !self.searching;
    }

    /// Whether search entry mode is active.
    pub fn searching(&self) -> (r: bool)
        ensures
            r == self.searching,
    {
        self.searching
    }

    /// The current loading indicator.
    pub fn current_loading_state(&self) -> (r: &LoadingState)
        ensures
            *r == self.loading_state,
    {
        &self.loading_state
    }

    /// Marks a refresh as started, finished, or failed.
    pub fn set_loading_state(&mut self, state: LoadingState)
        ensures
            final(self).loading_state == state,
            final(self).review_prs == old(self).review_prs,
            final(self).assignee_prs == old(self).assignee_prs,
            final(self).details == old(self).details,
            final(self).active_panel == old(self).active_panel,
            final(self).show_help == old(self).show_help,
            final(self).searching == old(self).searching,
    {
        self.loading_state = state;
    }

    /// Records a failed refresh: only the indicator changes, no panel's
    /// already-loaded data is touched.
    pub fn on_err(&mut self, message: String)
        ensures
            final(self).loading_state == LoadingState::Error(message),
            final(self).review_prs == old(self).review_prs,
            final(self).assignee_prs == old(self).assignee_prs,
            final(self).details == old(self).details,
            final(self).active_panel == old(self).active_panel,
            final(self).show_help == old(self).show_help,
            final(self).searching == old(self).searching,
    {
        self.loading_state = LoadingState::Error(message);
    }

    /// The pull request under the active cursor, if any.
    pub fn current_selection(&self) -> (r: Option<&PullRequest>)
        requires
            self.wf(),
        ensures
            match r {
                Option::Some(p) => active_of(*self).spec_selection() == Option::Some(*p),
                Option::None => active_of(*self).spec_selection() is None,
            },
    {
        match self.active_panel {
            ActivePanel::PullRequestsToReview => self.review_prs.find_selected(),
            ActivePanel::MyPullRequests => self.assignee_prs.find_selected(),
        }
    }

    /// How many rows the active panel shows.
    pub fn visible_rows(&self) -> (r: usize)
        requires
            self.wf(),
        ensures
            r == total_rows(active_of(*self).filtered_views()),
    {
        match self.active_panel {
            ActivePanel::PullRequestsToReview => self.review_prs.visible_rows(),
            ActivePanel::MyPullRequests => self.assignee_prs.visible_rows(),
        }
    }

    /// Installs the same filter query in both panels; each reprojects its
    /// view and re-anchors its cursor.
    pub fn set_search_query(&mut self, query: String)
        requires
            old(self).wf(),
        ensures
            final(self).wf(),
            final(self).active_panel == old(self).active_panel,
            final(self).loading_state == old(self).loading_state,
            final(self).show_help == old(self).show_help,
            final(self).searching == old(self).searching,
            final(self).details == old(self).details,
            final(self).review_prs.grouped_prs == old(self).review_prs.grouped_prs,
            final(self).assignee_prs.grouped_prs == old(self).assignee_prs.grouped_prs,
            final(self).review_prs.filter_query == Option::Some(query),
            final(self).assignee_prs.filter_query == Option::Some(query),
            final(self).review_prs.filtered_views() == projected(
                old(self).review_prs.grouped_views(),
                Option::Some(query),
            ),
            final(self).assignee_prs.filtered_views() == projected(
                old(self).assignee_prs.grouped_views(),
                Option::Some(query),
            ),
            final(self).review_prs.selected == clamped_cursor(
                old(self).review_prs.selected,
                total_rows(final(self).review_prs.filtered_views()),
            ),
            final(self).assignee_prs.selected == clamped_cursor(
                old(self).assignee_prs.selected,
                total_rows(final(self).assignee_prs.filtered_views()),
            ),
    {
        let ghost q = query@;
        let copy = query.clone();
        proof {
            assert(copy@ == q);
        }
        self.review_prs.set_filter_query(Option::Some(copy));
        self.assignee_prs.set_filter_query(Option::Some(query));
    }

    /// Drops the filter query from both panels.
    pub fn clear_search(&mut self)
        requires
            old(self).wf(),
        ensures
            final(self).wf(),
            final(self).active_panel == old(self).active_panel,
            final(self).loading_state == old(self).loading_state,
            final(self).show_help == old(self).show_help,
            final(self).searching == old(self).searching,
            final(self).details == old(self).details,
            final(self).review_prs.grouped_prs == old(self).review_prs.grouped_prs,
            final(self).assignee_prs.grouped_prs == old(self).assignee_prs.grouped_prs,
            final(self).review_prs.filter_query is None,
            final(self).assignee_prs.filter_query is None,
            final(self).review_prs.filtered_views() == old(self).review_prs.grouped_views(),
            final(self).assignee_prs.filtered_views() == old(self).assignee_prs.grouped_views(),
            final(self).review_prs.selected == clamped_cursor(
                old(self).review_prs.selected,
                total_rows(final(self).review_prs.filtered_views()),
            ),
            final(self).assignee_prs.selected == clamped_cursor(
                old(self).assignee_prs.selected,
                total_rows(final(self).assignee_prs.filtered_views()),
            ),
    {
        self.review_prs.clear_filter_query();
        self.assignee_prs.clear_filter_query();
    }

    /// Commits one repository's finished refresh atomically: each panel's
    /// entry for `repo` is replaced by its freshly classified list (or
    /// removed when empty), the views reproject, the cursors re-anchor,
    /// and the indicator shows the refresh as done. No other repository's
    /// data is touched.
    pub fn commit_refresh(
        &mut self,
        repo: String,
        prs_review: Vec<PullRequest>,
        prs_assignee: Vec<PullRequest>,
    )
        requires
            old(self).wf(),
            store_size(views_of(old(self).review_prs.grouped_prs@)) + 1 + prs_review@.len()
                <= usize::MAX,
            store_size(views_of(old(self).assignee_prs.grouped_prs@)) + 1 + prs_assignee@.len()
                <= usize::MAX,
        ensures
            final(self).wf(),
            final(self).active_panel == old(self).active_panel,
            final(self).show_help == old(self).show_help,
            final(self).searching == old(self).searching,
            final(self).details == old(self).details,
            final(self).loading_state is Loaded,
            final(self).review_prs.grouped_views() == replace_in(
                old(self).review_prs.grouped_views(),
                repo@,
                prs_review@,
            ),
            final(self).assignee_prs.grouped_views() == replace_in(
                old(self).assignee_prs.grouped_views(),
                repo@,
                prs_assignee@,
            ),
            final(self).review_prs.filter_query == old(self).review_prs.filter_query,
            final(self).assignee_prs.filter_query == old(self).assignee_prs.filter_query,
            final(self).review_prs.filtered_views() == projected(
                final(self).review_prs.grouped_views(),
                final(self).review_prs.filter_query,
            ),
            final(self).assignee_prs.filtered_views() == projected(
                final(self).assignee_prs.grouped_views(),
                final(self).assignee_prs.filter_query,
            ),
            final(self).review_prs.selected == clamped_cursor(
                old(self).review_prs.selected,
                total_rows(final(self).review_prs.filtered_views()),
            ),
            final(self).assignee_prs.selected == clamped_cursor(
                old(self).assignee_prs.selected,
                total_rows(final(self).assignee_prs.filtered_views()),
            ),
    {
        let ghost rname = repo@;
        let repo_copy = repo.clone();
        proof {
            assert(repo_copy@ == rname);
        }
        self.review_prs.replace(repo_copy, prs_review);
        self.assignee_prs.replace(repo, prs_assignee);
        self.loading_state = LoadingState::Loaded;
    }

    /// An upper bound on the active panel's rows, for sizing a refresh
    /// before committing it.
    pub fn review_store_size(&self) -> (r: usize)
        requires
            self.wf(),
        ensures
            r == store_size(views_of(self.review_prs.grouped_prs@)),
    {
        store_size_rows(&self.review_prs)
    }

    /// The assignee panel's size bound.
    pub fn assignee_store_size(&self) -> (r: usize)
        requires
            self.wf(),
        ensures
            r == store_size(views_of(self.assignee_prs.grouped_prs@)),
    {
        store_size_rows(&self.assignee_prs)
    }
}

/// Computes a panel's store size: one header per group plus every pull
/// request.
fn store_size_rows(list: &PullRequestsListState) -> (r: usize)
    requires
        list.store_wf(),
    ensures
        r == store_size(views_of(list.grouped_prs@)),
{
    let ghost views = views_of(list.grouped_prs@);
    let mut acc: usize = 0;
    let mut i: usize = 0;
    while i < list.grouped_prs.len()
        invariant
            i <= list.grouped_prs@.len(),
            views == views_of(list.grouped_prs@),
            store_size(views) <= usize::MAX,
            acc == store_size(views.take(i as int)),
        decreases list.grouped_prs@.len() - i,
    {
        proof {
            assert(views.take(i + 1) =~= views.take(i as int) + seq![views[i as int]]);
            crate::list_state::lemma_store_size_add(views.take(i as int), seq![views[i as int]]);
            crate::list_state::lemma_store_size_one(views[i as int]);
            assert(views =~= views.take(i + 1) + views.skip(i + 1));
            crate::list_state::lemma_store_size_add(views.take(i + 1), views.skip(i + 1));
        }
        acc = acc + 1 + list.grouped_prs[i].prs.len();
        i = i + 1;
    }
    proof {
        assert(views.take(list.grouped_prs@.len() as int) =~= views);
    }
    acc
}

/// Which panel a freshly fetched pull request belongs to.
pub enum Bucket {
    /// The user is an assignee: it belongs to the assignee panel.
    Assignee,
    /// The user's review is explicitly requested, so the pull request
    /// belongs to the review panel.
    Review,
    /// Not requested and not assigned: only a nested lookup of already
    /// submitted reviews can still place it in the review panel.
    NeedsReviewLookup,
    /// No user is configured: the pull request lands in no panel.
    Unclassified,
}

/// A login occurs in a list of logins.
pub open spec fn login_listed(logins: Seq<String>, login: Seq<char>) -> bool {
    exists|i: int| 0 <= i < logins.len() && (#[trigger] logins[i])@ == login
}

/// How a fetched pull request is classified, given the configured user:
/// an assignee match takes priority; an explicitly requested review comes
/// next; otherwise only the nested review lookup can decide.
pub open spec fn spec_classify(
    username: Seq<char>,
    assignee_logins: Seq<String>,
    requested_reviewer_logins: Seq<String>,
) -> Bucket {
    if login_listed(assignee_logins, username) {
        Bucket::Assignee
    } else if login_listed(requested_reviewer_logins, username) {
        Bucket::Review
    } else {
        Bucket::NeedsReviewLookup
    }
}

/// Whether a login stands in a list.
pub fn contains_login(logins: &Vec<String>, login: &String) -> (r: bool)
    ensures
        r == login_listed(logins@, login@),
{
    let mut i: usize = 0;
    while i < logins.len()
        invariant
            i <= logins@.len(),
            forall|j: int| 0 <= j < i ==> (#[trigger] logins@[j])@ != login@,
        decreases logins@.len() - i,
    {
        if str_eq(logins[i].as_str(), login.as_str()) {
            return true;
        }
        i = i + 1;
    }
    false
}

/// Classifies one fetched pull request into a panel bucket from the
/// logins the fetch carried.
pub fn classify_pull_request(
    username: Option<&String>,
    assignee_logins: &Vec<String>,
    requested_reviewer_logins: &Vec<String>,
) -> (b: Bucket)
    ensures
        b == (match username {
            Option::Some(u) => spec_classify(u@, assignee_logins@, requested_reviewer_logins@),
            Option::None => Bucket::Unclassified,
        }),
{
    match username {
        Option::None => Bucket::Unclassified,
        Option::Some(u) => {
            if contains_login(assignee_logins, u) {
                Bucket::Assignee
            } else if contains_login(requested_reviewer_logins, u) {
                Bucket::Review
            } else {
                Bucket::NeedsReviewLookup
            }
        },
    }
}

/// A review authored by the user occurs in the fetched reviews. Reviews
/// whose author is unknown carry no login.
pub open spec fn reviewed_by(review_author_logins: Seq<Option<String>>, username: Seq<char>) -> bool {
    exists|i: int|
        0 <= i < review_author_logins.len() && match #[trigger] review_author_logins[i] {
            Option::Some(l) => l@ == username,
            Option::None => false,
        }
}

/// Decides the nested review lookup: the user already submitted a review
/// on the pull request, so it still belongs to the review panel even
/// though the request was cleared.
pub fn has_review_by(review_author_logins: &Vec<Option<String>>, username: &String) -> (r: bool)
    ensures
        r == reviewed_by(review_author_logins@, username@),
{
    let mut i: usize = 0;
    while i < review_author_logins.len()
        invariant
            i <= review_author_logins@.len(),
            forall|j: int|
                0 <= j < i ==> match #[trigger] review_author_logins@[j] {
                    Option::Some(l) => l@ != username@,
                    Option::None => true,
                },
        decreases review_author_logins@.len() - i,
    {
        if let Option::Some(l) = &review_author_logins[i] {
            if str_eq(l.as_str(), username.as_str()) {
                return true;
            }
        }
        i = i + 1;
    }
    false
}

/// What the review command would launch for the current selection: the
/// configured command (or the given fallback) with its arguments, run in
/// the selected pull request's local checkout.
pub struct LaunchPlan {
    pub path: String,
    pub command: String,
    pub args: Vec<String>,
}

/// The first configured repository carrying a name.
pub open spec fn find_repo(repos: Seq<Repository>, name: Seq<char>) -> Option<Repository>
    decreases repos.len(),
{
    if repos.len() == 0 {
        Option::None
    } else if repos[0].name@ == name {
        Option::Some(repos[0])
    } else {
        find_repo(repos.drop_first(), name)
    }
}

/// Whether the review command applies: the review panel is active, a
/// pull request is selected, and its repository is configured with a
/// local checkout.
pub open spec fn launch_applies(config: Config, state: AppState) -> bool {
    &&& state.active_panel is PullRequestsToReview
    &&& state.review_prs.spec_selection() is Some
    &&& match state.review_prs.spec_selection() {
        Option::Some(pr) => match find_repo(config.repositories@, pr.repo@) {
            Option::Some(r) => r.system_path is Some,
            Option::None => false,
        },
        Option::None => false,
    }
}

/// Plans the review command for the current selection, or nothing when
/// it does not apply. The command falls back to `fallback_command` when
/// none is configured.
pub fn review_launch_plan(config: &Config, state: &AppState, fallback_command: String) -> (r:
    Option<LaunchPlan>)
    requires
        state.wf(),
    ensures
        r is Some <==> launch_applies(*config, *state),
        match r {
            Option::Some(plan) => {
                &&& match state.review_prs.spec_selection() {
                    Option::Some(pr) => match find_repo(config.repositories@, pr.repo@) {
                        Option::Some(cr) => plan.path == cr.system_path->Some_0,
                        Option::None => false,
                    },
                    Option::None => false,
                }
                &&& plan.command == (match config.command {
                    Option::Some(c) => c,
                    Option::None => fallback_command,
                })
                &&& plan.args@ == config.command_args@
            },
            Option::None => true,
        },
{
    if let ActivePanel::PullRequestsToReview = state.active_panel {
        let selected = state.review_prs.find_selected();
        if let Option::Some(pr) = selected {
            let found = find_repo_exec(&config.repositories, &pr.repo);
            if let Option::Some(cr) = found {
                if let Option::Some(path) = &cr.system_path {
                    let command = match &config.command {
                        Option::Some(c) => c.clone(),
                        Option::None => fallback_command,
                    };
                    return Option::Some(
                        LaunchPlan {
                            path: path.clone(),
                            command,
                            args: crate::config::clone_strings(&config.command_args),
                        },
                    );
                }
            }
        }
    }
    Option::None
}

/// Finds the first configured repository carrying a name.
fn find_repo_exec<'a>(repos: &'a Vec<Repository>, name: &String) -> (r: Option<&'a Repository>)
    ensures
        match r {
            Option::Some(cr) => find_repo(repos@, name@) == Option::Some(*cr),
            Option::None => find_repo(repos@, name@) is None,
        },
{
    proof {
        assert(repos@.skip(0) =~= repos@);
    }
    let mut i: usize = 0;
    while i < repos.len()
        invariant
            i <= repos@.len(),
            find_repo(repos@, name@) == find_repo(repos@.skip(i as int), name@),
        decreases repos@.len() - i,
    {
        proof {
            assert(repos@.skip(i as int)[0] == repos@[i as int]);
            assert(repos@.skip(i as int).drop_first() =~= repos@.skip(i + 1));
        }
        if str_eq(repos[i].name.as_str(), name.as_str()) {
            return Option::Some(&repos[i]);
        }
        i = i + 1;
    }
    proof {
        assert(repos@.skip(repos@.len() as int) =~= Seq::<Repository>::empty());
    }
    Option::None
}

} // verus!
