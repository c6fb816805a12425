//! One panel's list: a store of pull requests grouped by repository, the
//! filtered projection of it, and a single linear cursor over the visible
//! rows. A group occupies one header row plus, when expanded, one row per
//! pull request; the cursor is always a valid row index, or unset exactly
//! when nothing is visible.

use vstd::prelude::*;

use crate::pull_request::PullRequest;
use crate::text::contains_chars;
use crate::text::contains_seq;
use crate::text::lemma_lex_connected;
use crate::text::lemma_lex_irrefl;
use crate::text::lemma_lex_trans;
use crate::text::lex_lt;
use crate::text::lower_of;
use crate::text::lowercase;
use crate::text::str_eq;
use crate::text::str_lt;
use crate::text::to_chars;

verus! {

/// One repository's pull requests as a panel shows them: the group's name,
/// its rows, and whether its leaf rows are currently visible.
pub struct Group {
    pub name: String,
    pub prs: Vec<PullRequest>,
    pub expanded: bool,
}

/// The mathematical content of a `Group`.
pub struct GroupView {
    pub name: Seq<char>,
    pub prs: Seq<PullRequest>,
    pub expanded: bool,
}

impl View for Group {
    type V = GroupView;

    open spec fn view(&self) -> GroupView {
        GroupView { name: self.name@, prs: self.prs@, expanded: self.expanded }
    }
}

/// The views of a sequence of groups.
pub open spec fn views_of(gs: Seq<Group>) -> Seq<GroupView> {
    gs.map_values(|g: Group| g@)
}

/// Group names strictly ascend: the store's lexicographic, duplicate-free
/// repository order.
pub open spec fn sorted_strict(gs: Seq<GroupView>) -> bool {
    forall|i: int, j: int| 0 <= i < j < gs.len() ==> lex_lt(gs[i].name, gs[j].name)
}

/// Empty groups are never stored or displayed.
pub open spec fn no_empty_groups(gs: Seq<GroupView>) -> bool {
    forall|i: int| 0 <= i < gs.len() ==> (#[trigger] gs[i].prs).len() > 0
}

/// An upper bound on the rows a store can produce: one header per group
/// plus every pull request, expanded or not.
pub open spec fn store_size(gs: Seq<GroupView>) -> nat
    decreases gs.len(),
{
    if gs.len() == 0 {
        0
    } else {
        1 + gs[0].prs.len() + store_size(gs.drop_first())
    }
}

/// The rows one group contributes: its header, plus its pull requests when
/// it is expanded.
pub open spec fn group_rows(g: GroupView) -> nat {
    if g.expanded {
        1 + g.prs.len()
    } else {
        1
    }
}

/// The visible rows of a sequence of groups.
pub open spec fn total_rows(gs: Seq<GroupView>) -> nat
    decreases gs.len(),
{
    if gs.len() == 0 {
        0
    } else {
        group_rows(gs[0]) + total_rows(gs.drop_first())
    }
}

/// What a row index resolves to: a group's header, one of its pull
/// requests, or nothing.
pub enum RowRef {
    Header { group: int },
    Leaf { group: int, pr: int },
    OutOfBounds,
}

/// Resolves a row index by walking the groups in order: offset zero within
/// a group is its header; offsets 1..=len are its leaves when expanded.
pub open spec fn row_at(gs: Seq<GroupView>, i: int) -> RowRef
    decreases gs.len(),
{
    if gs.len() == 0 || i < 0 {
        RowRef::OutOfBounds
    } else if i == 0 {
        RowRef::Header { group: 0 }
    } else if i < group_rows(gs[0]) {
        RowRef::Leaf { group: 0, pr: i - 1 }
    } else {
        match row_at(gs.drop_first(), i - group_rows(gs[0])) {
            RowRef::Header { group } => RowRef::Header { group: group + 1 },
            RowRef::Leaf { group, pr } => RowRef::Leaf { group: group + 1, pr },
            RowRef::OutOfBounds => RowRef::OutOfBounds,
        }
    }
}

/// The row index of group `k`'s header.
pub open spec fn row_offset(gs: Seq<GroupView>, k: int) -> int {
    total_rows(gs.take(k)) as int
}

/// The row index a header or leaf stands at.
pub open spec fn row_index_of(gs: Seq<GroupView>, r: RowRef) -> int {
    match r {
        RowRef::Header { group } => row_offset(gs, group),
        RowRef::Leaf { group, pr } => row_offset(gs, group) + 1 + pr,
        RowRef::OutOfBounds => -1,
    }
}

/// A header or leaf that the groups actually contain.
pub open spec fn valid_row(gs: Seq<GroupView>, r: RowRef) -> bool {
    match r {
        RowRef::Header { group } => 0 <= group < gs.len(),
        RowRef::Leaf { group, pr } => 0 <= group < gs.len() && gs[group].expanded && 0 <= pr
            < gs[group].prs.len(),
        RowRef::OutOfBounds => false,
    }
}

/// Row counts add over concatenation.
pub proof fn lemma_total_rows_add(a: Seq<GroupView>, b: Seq<GroupView>)
    ensures
        total_rows(a + b) == total_rows(a) + total_rows(b),
    decreases a.len(),
{
    if a.len() == 0 {
        assert(a + b =~= b);
    } else {
        assert((a + b).drop_first() =~= a.drop_first() + b);
        lemma_total_rows_add(a.drop_first(), b);
    }
}

/// Store sizes add over concatenation.
pub proof fn lemma_store_size_add(a: Seq<GroupView>, b: Seq<GroupView>)
    ensures
        store_size(a + b) == store_size(a) + store_size(b),
    decreases a.len(),
{
    if a.len() == 0 {
        assert(a + b =~= b);
    } else {
        assert((a + b).drop_first() =~= a.drop_first() + b);
        lemma_store_size_add(a.drop_first(), b);
    }
}

/// A store never shows more rows than its size.
pub proof fn lemma_total_rows_le_store_size(gs: Seq<GroupView>)
    ensures
        total_rows(gs) <= store_size(gs),
    decreases gs.len(),
{
    if gs.len() > 0 {
        lemma_total_rows_le_store_size(gs.drop_first());
    }
}

/// A prefix shows at most as many rows as the whole.
pub proof fn lemma_total_rows_take_le(gs: Seq<GroupView>, k: int)
    requires
        0 <= k <= gs.len(),
    ensures
        total_rows(gs.take(k)) <= total_rows(gs),
{
    assert(gs =~= gs.take(k) + gs.skip(k));
    lemma_total_rows_add(gs.take(k), gs.skip(k));
}

/// A single group counts one header and its pull requests.
pub proof fn lemma_store_size_one(g: GroupView)
    ensures
        store_size(seq![g]) == 1 + g.prs.len(),
{
    assert(seq![g].drop_first() =~= Seq::<GroupView>::empty());
    assert(store_size(Seq::<GroupView>::empty()) == 0);
}

/// A single group shows exactly its own rows.
pub proof fn lemma_total_rows_one(g: GroupView)
    ensures
        total_rows(seq![g]) == group_rows(g),
{
    assert(seq![g].drop_first() =~= Seq::<GroupView>::empty());
    assert(total_rows(Seq::<GroupView>::empty()) == 0);
}

/// Mapping to views commutes with appending one group.
pub proof fn lemma_views_push(v: Seq<Group>, g: Group)
    ensures
        views_of(v.push(g)) =~= views_of(v).push(g@),
{
}

/// The case-folded line a pull request is searched as: its number, a
/// separator, and its title.
pub open spec fn pr_line(pr: PullRequest) -> Seq<char> {
    seq!['#'] + lower_of(pr.id@) + seq![' ', '-', ' '] + lower_of(pr.title@)
}

/// Whether a pull request matches a case-folded query.
pub open spec fn pr_matches(pr: PullRequest, q: Seq<char>) -> bool {
    contains_seq(pr_line(pr), q)
}

/// Whether a group is kept wholesale: its name contains the query.
pub open spec fn group_matches(g: GroupView, q: Seq<char>) -> bool {
    contains_seq(lower_of(g.name), q)
}

/// The pull requests of one group that survive a query.
pub open spec fn filter_prs(prs: Seq<PullRequest>, q: Seq<char>) -> Seq<PullRequest> {
    prs.filter(|pr: PullRequest| pr_matches(pr, q))
}

/// The filter projection: a group whose name matches is kept whole;
/// otherwise its matching pull requests are kept, and the group is dropped
/// when none match. Group order is preserved.
pub open spec fn project(gs: Seq<GroupView>, q: Seq<char>) -> Seq<GroupView>
    decreases gs.len(),
{
    if gs.len() == 0 {
        Seq::<GroupView>::empty()
    } else {
        let rest = project(gs.drop_first(), q);
        let g = gs[0];
        if group_matches(g, q) {
            seq![g] + rest
        } else {
            let kept = filter_prs(g.prs, q);
            if kept.len() > 0 {
                seq![GroupView { name: g.name, prs: kept, expanded: g.expanded }] + rest
            } else {
                rest
            }
        }
    }
}

/// The query that actually filters: an absent or empty query filters
/// nothing; any other folds to lowercase.
pub open spec fn effective_query(q: Option<String>) -> Option<Seq<char>> {
    match q {
        Option::None => Option::None,
        Option::Some(s) => if s@.len() == 0 {
            Option::None
        } else {
            Option::Some(lower_of(s@))
        },
    }
}

/// What a store looks like through an optional query.
pub open spec fn projected(gs: Seq<GroupView>, q: Option<String>) -> Seq<GroupView> {
    match effective_query(q) {
        Option::None => gs,
        Option::Some(qq) => project(gs, qq),
    }
}

/// Where the cursor lands when the view has `total` rows: unset on an
/// empty view, initialized to the first row when it was unset, kept when
/// still valid, and clamped to the last row otherwise.
pub open spec fn clamped_cursor(c: Option<usize>, total: nat) -> Option<usize> {
    if total == 0 {
        Option::None
    } else {
        match c {
            Option::None => Option::Some(0usize),
            Option::Some(x) => if x < total {
                Option::Some(x)
            } else {
                Option::Some((total - 1) as usize)
            },
        }
    }
}

/// What projecting a single group yields.
pub proof fn lemma_project_one(g: GroupView, q: Seq<char>)
    ensures
        project(seq![g], q) == (if group_matches(g, q) {
            seq![g]
        } else if filter_prs(g.prs, q).len() > 0 {
            seq![GroupView { name: g.name, prs: filter_prs(g.prs, q), expanded: g.expanded }]
        } else {
            Seq::<GroupView>::empty()
        }),
{
    assert(seq![g].drop_first() =~= Seq::<GroupView>::empty());
    assert(project(Seq::<GroupView>::empty(), q) == Seq::<GroupView>::empty());
    if group_matches(g, q) {
        assert(seq![g] + Seq::<GroupView>::empty() =~= seq![g]);
    } else if filter_prs(g.prs, q).len() > 0 {
        let gk = GroupView { name: g.name, prs: filter_prs(g.prs, q), expanded: g.expanded };
        assert(seq![gk] + Seq::<GroupView>::empty() =~= seq![gk]);
    }
}

/// The projection distributes over concatenation of group sequences.
pub proof fn lemma_project_add(a: Seq<GroupView>, b: Seq<GroupView>, q: Seq<char>)
    ensures
        project(a + b, q) == project(a, q) + project(b, q),
    decreases a.len(),
{
    if a.len() == 0 {
        assert(a + b =~= b);
        assert(project(a, q) + project(b, q) =~= project(b, q));
    } else {
        assert((a + b).drop_first() =~= a.drop_first() + b);
        lemma_project_add(a.drop_first(), b, q);
        assert((a + b)[0] == a[0]);
        if group_matches(a[0], q) {
            assert(seq![a[0]] + (project(a.drop_first(), q) + project(b, q)) =~= (seq![a[0]]
                + project(a.drop_first(), q)) + project(b, q));
        } else {
            let kept = filter_prs(a[0].prs, q);
            if kept.len() > 0 {
                let g = GroupView { name: a[0].name, prs: kept, expanded: a[0].expanded };
                assert(seq![g] + (project(a.drop_first(), q) + project(b, q)) =~= (seq![g]
                    + project(a.drop_first(), q)) + project(b, q));
            }
        }
    }
}

/// Projecting never grows the store.
pub proof fn lemma_project_store_size(gs: Seq<GroupView>, q: Seq<char>)
    ensures
        store_size(project(gs, q)) <= store_size(gs),
    decreases gs.len(),
{
    if gs.len() > 0 {
        lemma_project_store_size(gs.drop_first(), q);
        let rest = project(gs.drop_first(), q);
        let g = gs[0];
        if group_matches(g, q) {
            lemma_store_size_add(seq![g], rest);
            lemma_store_size_one(g);
        } else {
            let kept = filter_prs(g.prs, q);
            g.prs.lemma_filter_len(|pr: PullRequest| pr_matches(pr, q));
            if kept.len() > 0 {
                let gk = GroupView { name: g.name, prs: kept, expanded: g.expanded };
                lemma_store_size_add(seq![gk], rest);
                lemma_store_size_one(gk);
            }
        }
    }
}

/// One panel's list state: the store of fetched groups, the filtered view
/// of it, the linear cursor, and the active query.
pub struct PullRequestsListState {
    pub grouped_prs: Vec<Group>,
    pub filtered_prs: Vec<Group>,
    pub selected: Option<usize>,
    pub filter_query: Option<String>,
}

impl PullRequestsListState {
    /// The store's own invariant: repository names strictly ascend, no
    /// group is empty, and the row arithmetic fits a `usize`.
    pub open spec fn store_wf(&self) -> bool {
        &&& sorted_strict(views_of(self.grouped_prs@))
        &&& no_empty_groups(views_of(self.grouped_prs@))
        &&& store_size(views_of(self.grouped_prs@)) <= usize::MAX
    }

    /// The views the specifications speak of.
    pub open spec fn grouped_views(&self) -> Seq<GroupView> {
        views_of(self.grouped_prs@)
    }

    /// The view of the filtered groups.
    pub open spec fn filtered_views(&self) -> Seq<GroupView> {
        views_of(self.filtered_prs@)
    }

    /// Full well-formedness: the filtered groups are exactly the
    /// projection of the store under the active query, and the cursor is a
    /// valid row index, or unset exactly when no row is visible.
    pub open spec fn wf(&self) -> bool {
        &&& self.store_wf()
        &&& self.filtered_views() == projected(self.grouped_views(), self.filter_query)
        &&& match self.selected {
            Option::None => total_rows(self.filtered_views()) == 0,
            Option::Some(c) => c < total_rows(self.filtered_views()),
        }
    }

    /// An empty panel: no groups, no filter, no cursor.
    pub fn new() -> (r: PullRequestsListState)
        ensures
            r.wf(),
            r.grouped_prs@.len() == 0,
            r.filtered_prs@.len() == 0,
            r.selected == Option::<usize>::None,
            r.filter_query == Option::<String>::None,
    {
        let r = PullRequestsListState {
            grouped_prs: Vec::new(),
            filtered_prs: Vec::new(),
            selected: Option::None,
            filter_query: Option::None,
        };
        proof {
            assert(r.grouped_views() =~= Seq::<GroupView>::empty());
            assert(r.filtered_views() =~= Seq::<GroupView>::empty());
        }
        r
    }
}

/// Copies a list of pull requests.
fn clone_prs(prs: &Vec<PullRequest>) -> (r: Vec<PullRequest>)
    ensures
        r@ == prs@,
{
    let mut r: Vec<PullRequest> = Vec::new();
    let mut i: usize = 0;
    while i < prs.len()
        invariant
            i <= prs@.len(),
            r@ == prs@.take(i as int),
        decreases prs@.len() - i,
    {
        r.push(prs[i].clone());
        assert(r@ =~= prs@.take(i + 1));
        i = i + 1;
    }
    assert(r@ =~= prs@);
    r
}

/// Copies a group.
fn clone_group(g: &Group) -> (r: Group)
    ensures
        r@ == g@,
{
    Group { name: g.name.clone(), prs: clone_prs(&g.prs), expanded: g.expanded }
}

/// Builds the line a pull request is searched as.
fn pr_match_line(pr: &PullRequest) -> (r: Vec<char>)
    ensures
        r@ == pr_line(*pr),
{
    let mut line: Vec<char> = Vec::new();
    line.push('#');
    let id_folded = lowercase(pr.id.as_str());
    let mut id_chars = to_chars(id_folded.as_str());
    line.append(&mut id_chars);
    line.push(' ');
    line.push('-');
    line.push(' ');
    let title_folded = lowercase(pr.title.as_str());
    let mut title_chars = to_chars(title_folded.as_str());
    line.append(&mut title_chars);
    assert(line@ =~= pr_line(*pr));
    line
}

/// Decides whether a pull request matches a case-folded query.
fn pr_match(pr: &PullRequest, query_chars: &Vec<char>) -> (r: bool)
    ensures
        r == pr_matches(*pr, query_chars@),
{
    let line = pr_match_line(pr);
    contains_chars(&line, query_chars)
}

/// Counts the visible rows of a list of groups.
fn count_rows(gs: &Vec<Group>) -> (r: usize)
    requires
        total_rows(views_of(gs@)) <= usize::MAX,
    ensures
        r == total_rows(views_of(gs@)),
{
    let ghost views = views_of(gs@);
    let mut acc: usize = 0;
    let mut i: usize = 0;
    while i < gs.len()
        invariant
            i <= gs@.len(),
            views == views_of(gs@),
            total_rows(views) <= usize::MAX,
            acc == total_rows(views.take(i as int)),
        decreases gs@.len() - i,
    {
        proof {
            assert(views.take(i + 1) =~= views.take(i as int) + seq![views[i as int]]);
            lemma_total_rows_add(views.take(i as int), seq![views[i as int]]);
            lemma_total_rows_one(views[i as int]);
            lemma_total_rows_take_le(views, i + 1);
        }
        if gs[i].expanded {
            acc = acc + 1 + gs[i].prs.len();
        } else {
            acc = acc + 1;
        }
        i = i + 1;
    }
    proof {
        assert(views.take(gs@.len() as int) =~= views);
    }
    acc
}

impl PullRequestsListState {
    /// How many rows the current view shows.
    pub fn visible_rows(&self) -> (r: usize)
        requires
            self.wf(),
        ensures
            r == total_rows(self.filtered_views()),
    {
        proof {
            match effective_query(self.filter_query) {
                Option::None => {},
                Option::Some(qq) => {
                    lemma_project_store_size(self.grouped_views(), qq);
                },
            }
            lemma_total_rows_le_store_size(self.filtered_views());
            lemma_filtered_rows_bounded(self);
        }
        count_rows(&self.filtered_prs)
    }

    /// Recomputes the filtered view from the store and the query, then
    /// re-anchors the cursor: unset on an empty view, initialized to the
    /// first row when it was unset, clamped to the last row when the view
    /// shrank below it.
    pub fn update_view(&mut self)
        requires
            old(self).store_wf(),
        ensures
            final(self).store_wf(),
            final(self).wf(),
            final(self).grouped_prs == old(self).grouped_prs,
            final(self).filter_query == old(self).filter_query,
            final(self).filtered_views() == projected(
                old(self).grouped_views(),
                old(self).filter_query,
            ),
            final(self).selected == clamped_cursor(
                old(self).selected,
                total_rows(final(self).filtered_views()),
            ),
    {
        let ghost gviews = self.grouped_views();
        let mut out: Vec<Group> = Vec::new();
        let mut used_query: bool = false;
        if let Option::Some(q) = &self.filter_query {
            if !q.as_str().is_empty() {
                used_query = true;
                let ghost qq = lower_of(q@);
                let q_folded = lowercase(q.as_str());
                let query_chars = to_chars(q_folded.as_str());
                let mut i: usize = 0;
                while i < self.grouped_prs.len()
                    invariant
                        i <= self.grouped_prs@.len(),
                        gviews == views_of(self.grouped_prs@),
                        query_chars@ == qq,
                        views_of(out@) == project(gviews.take(i as int), qq),
                    decreases self.grouped_prs@.len() - i,
                {
                    let g = &self.grouped_prs[i];
                    proof {
                        assert(gviews.take(i + 1) =~= gviews.take(i as int) + seq![g@]);
                        lemma_project_add(gviews.take(i as int), seq![g@], qq);
                        lemma_project_one(g@, qq);
                    }
                    let name_folded = lowercase(g.name.as_str());
                    let name_chars = to_chars(name_folded.as_str());
                    if contains_chars(&name_chars, &query_chars) {
                        let copied = clone_group(g);
                        proof {
                            lemma_views_push(out@, copied);
                        }
                        out.push(copied);
                        proof {
                            assert(views_of(out@) =~= project(gviews.take(i + 1), qq));
                        }
                    } else {
                        let mut kept: Vec<PullRequest> = Vec::new();
                        let mut j: usize = 0;
                        while j < g.prs.len()
                            invariant
                                j <= g.prs@.len(),
                                query_chars@ == qq,
                                kept@ == filter_prs(g.prs@.take(j as int), qq),
                            decreases g.prs@.len() - j,
                        {
                            proof {
                                reveal(Seq::filter);
                                assert(g.prs@.take(j + 1).drop_last() =~= g.prs@.take(j as int));
                                assert(g.prs@.take(j + 1).last() == g.prs@[j as int]);
                            }
                            if pr_match(&g.prs[j], &query_chars) {
                                kept.push(g.prs[j].clone());
                            }
                            j = j + 1;
                        }
                        proof {
                            assert(g.prs@.take(g.prs@.len() as int) =~= g.prs@);
                        }
                        if kept.len() > 0 {
                            let kept_group = Group {
                                name: g.name.clone(),
                                prs: kept,
                                expanded: g.expanded,
                            };
                            proof {
                                lemma_views_push(out@, kept_group);
                            }
                            out.push(kept_group);
                            proof {
                                assert(views_of(out@) =~= project(gviews.take(i + 1), qq));
                            }
                        } else {
                            proof {
                                assert(views_of(out@) =~= project(gviews.take(i + 1), qq));
                            }
                        }
                    }
                    i = i + 1;
                }
                proof {
                    assert(gviews.take(self.grouped_prs@.len() as int) =~= gviews);
                }
            }
        }
        if !used_query {
            let mut i: usize = 0;
            while i < self.grouped_prs.len()
                invariant
                    i <= self.grouped_prs@.len(),
                    gviews == views_of(self.grouped_prs@),
                    views_of(out@) == gviews.take(i as int),
                decreases self.grouped_prs@.len() - i,
            {
                let copied = clone_group(&self.grouped_prs[i]);
                proof {
                    lemma_views_push(out@, copied);
                }
                out.push(copied);
                proof {
                    assert(views_of(out@) =~= gviews.take(i + 1));
                }
                i = i + 1;
            }
            proof {
                assert(gviews.take(self.grouped_prs@.len() as int) =~= gviews);
            }
        }
        proof {
            assert(views_of(out@) == projected(gviews, self.filter_query));
            match effective_query(self.filter_query) {
                Option::None => {},
                Option::Some(qq) => {
                    lemma_project_store_size(gviews, qq);
                },
            }
            lemma_total_rows_le_store_size(views_of(out@));
        }
        let total = count_rows(&out);
        self.filtered_prs = out;
        if total == 0 {
            self.selected = Option::None;
        } else {
            match self.selected {
                Option::None => {
                    self.selected = Option::Some(0);
                },
                Option::Some(x) => {
                    if x >= total {
                        self.selected = Option::Some(total - 1);
                    }
                },
            }
        }
    }
}

/// What the store holds after a refresh for `name` lands: the group is
/// replaced wholesale when `prs` is not empty (keeping its expansion flag,
/// or expanded when new), and removed when `prs` is empty. Names stay in
/// lexicographic order.
pub open spec fn replace_in(gs: Seq<GroupView>, name: Seq<char>, prs: Seq<PullRequest>) -> Seq<
    GroupView,
>
    decreases gs.len(),
{
    if gs.len() == 0 {
        if prs.len() == 0 {
            Seq::<GroupView>::empty()
        } else {
            seq![GroupView { name, prs, expanded: true }]
        }
    } else if lex_lt(name, gs[0].name) {
        if prs.len() == 0 {
            gs
        } else {
            seq![GroupView { name, prs, expanded: true }] + gs
        }
    } else if name == gs[0].name {
        if prs.len() == 0 {
            gs.drop_first()
        } else {
            seq![GroupView { name, prs, expanded: gs[0].expanded }] + gs.drop_first()
        }
    } else {
        seq![gs[0]] + replace_in(gs.drop_first(), name, prs)
    }
}

/// `lex_lt` is asymmetric.
proof fn lemma_lex_asym(a: Seq<char>, b: Seq<char>)
    requires
        lex_lt(a, b),
    ensures
        !lex_lt(b, a),
        a != b,
{
    lemma_lex_irrefl(a);
    if lex_lt(b, a) {
        lemma_lex_trans(a, b, a);
    }
}

/// Replacing keeps the order strict and the groups non-empty, and
/// introduces no name but the replaced one.
pub proof fn lemma_replace_in_wf(gs: Seq<GroupView>, name: Seq<char>, prs: Seq<PullRequest>)
    requires
        sorted_strict(gs),
        no_empty_groups(gs),
    ensures
        sorted_strict(replace_in(gs, name, prs)),
        no_empty_groups(replace_in(gs, name, prs)),
        forall|k: int|
            0 <= k < replace_in(gs, name, prs).len() ==> ((#[trigger] replace_in(gs, name, prs)[k]).name
                == name || exists|j: int|
                0 <= j < gs.len() && gs[j].name == replace_in(gs, name, prs)[k].name),
    decreases gs.len(),
{
    let res = replace_in(gs, name, prs);
    if gs.len() == 0 {
    } else if lex_lt(name, gs[0].name) {
        if prs.len() > 0 {
            let gnew = GroupView { name, prs, expanded: true };
            assert forall|i: int, j: int| 0 <= i < j < res.len() implies lex_lt(
                res[i].name,
                res[j].name,
            ) by {
                if i == 0 {
                    if j > 1 {
                        assert(lex_lt(gs[0].name, gs[j - 1].name));
                        lemma_lex_trans(name, gs[0].name, gs[j - 1].name);
                    }
                } else {
                    assert(lex_lt(gs[i - 1].name, gs[j - 1].name));
                }
            }
        }
    } else if name == gs[0].name {
        assert(sorted_strict(gs.drop_first()));
        if prs.len() > 0 {
            assert forall|i: int, j: int| 0 <= i < j < res.len() implies lex_lt(
                res[i].name,
                res[j].name,
            ) by {
                assert(lex_lt(gs[0].name, gs[j].name));
            }
        }
    } else {
        lemma_lex_connected(name, gs[0].name);
        assert(lex_lt(gs[0].name, name));
        assert(sorted_strict(gs.drop_first()));
        assert(no_empty_groups(gs.drop_first()));
        lemma_replace_in_wf(gs.drop_first(), name, prs);
        let rest = replace_in(gs.drop_first(), name, prs);
        assert forall|i: int, j: int| 0 <= i < j < res.len() implies lex_lt(
            res[i].name,
            res[j].name,
        ) by {
            if i == 0 {
                assert(res[j] == rest[j - 1]);
                if rest[j - 1].name == name {
                } else {
                    let jj = choose|jj: int|
                        0 <= jj < gs.drop_first().len() && gs.drop_first()[jj].name == rest[j
                            - 1].name;
                    assert(lex_lt(gs[0].name, gs[jj + 1].name));
                }
            } else {
                assert(res[i] == rest[i - 1]);
                assert(res[j] == rest[j - 1]);
            }
        }
        assert forall|k: int| 0 <= k < res.len() implies ((#[trigger] res[k]).name == name
            || exists|j: int| 0 <= j < gs.len() && gs[j].name == res[k].name) by {
            if k == 0 {
                assert(gs[0].name == res[0].name);
            } else {
                assert(res[k] == rest[k - 1]);
                if rest[k - 1].name != name {
                    let jj = choose|jj: int|
                        0 <= jj < gs.drop_first().len() && gs.drop_first()[jj].name == rest[k
                            - 1].name;
                    assert(gs[jj + 1].name == res[k].name);
                }
            }
        }
    }
}

/// Replacing adds at most one header and the new pull requests.
pub proof fn lemma_replace_in_size(gs: Seq<GroupView>, name: Seq<char>, prs: Seq<PullRequest>)
    ensures
        store_size(replace_in(gs, name, prs)) <= store_size(gs) + 1 + prs.len(),
    decreases gs.len(),
{
    let res = replace_in(gs, name, prs);
    if gs.len() == 0 {
        if prs.len() > 0 {
            lemma_store_size_one(GroupView { name, prs, expanded: true });
        }
    } else if lex_lt(name, gs[0].name) {
        if prs.len() > 0 {
            let gnew = GroupView { name, prs, expanded: true };
            lemma_store_size_add(seq![gnew], gs);
            lemma_store_size_one(gnew);
        }
    } else if name == gs[0].name {
        if prs.len() > 0 {
            let gnew = GroupView { name, prs, expanded: gs[0].expanded };
            lemma_store_size_add(seq![gnew], gs.drop_first());
            lemma_store_size_one(gnew);
        }
    } else {
        lemma_replace_in_size(gs.drop_first(), name, prs);
        lemma_store_size_add(seq![gs[0]], replace_in(gs.drop_first(), name, prs));
        lemma_store_size_one(gs[0]);
        assert(store_size(gs) == 1 + gs[0].prs.len() + store_size(gs.drop_first()));
    }
}

/// Where the replacement lands positionally in a sorted store: at the
/// first index whose name does not precede the new name.
pub proof fn lemma_replace_in_split(
    gs: Seq<GroupView>,
    name: Seq<char>,
    prs: Seq<PullRequest>,
    pos: int,
)
    requires
        sorted_strict(gs),
        0 <= pos <= gs.len(),
        forall|k: int| 0 <= k < pos ==> lex_lt((#[trigger] gs[k]).name, name),
        pos < gs.len() ==> !lex_lt(gs[pos].name, name),
    ensures
        (pos < gs.len() && gs[pos].name == name) ==> replace_in(gs, name, prs) == (if prs.len()
            == 0 {
            gs.take(pos) + gs.skip(pos + 1)
        } else {
            gs.take(pos) + seq![GroupView { name, prs, expanded: gs[pos].expanded }] + gs.skip(
                pos + 1,
            )
        }),
        !(pos < gs.len() && gs[pos].name == name) ==> replace_in(gs, name, prs) == (if prs.len()
            == 0 {
            gs
        } else {
            gs.take(pos) + seq![GroupView { name, prs, expanded: true }] + gs.skip(pos)
        }),
    decreases gs.len(),
{
    if pos == 0 {
        if gs.len() == 0 {
            if prs.len() > 0 {
                assert(gs.take(0) + seq![GroupView { name, prs, expanded: true }] + gs.skip(0)
                    =~= seq![GroupView { name, prs, expanded: true }]);
            }
        } else if gs[0].name == name {
            assert(!lex_lt(name, gs[0].name)) by {
                lemma_lex_irrefl(name);
            }
            if prs.len() == 0 {
                assert(gs.take(0) + gs.skip(1) =~= gs.drop_first());
            } else {
                assert(gs.take(0) + seq![GroupView { name, prs, expanded: gs[0].expanded }]
                    + gs.skip(1) =~= seq![GroupView { name, prs, expanded: gs[0].expanded }]
                    + gs.drop_first());
            }
        } else {
            lemma_lex_connected(name, gs[0].name);
            assert(lex_lt(name, gs[0].name));
            if prs.len() > 0 {
                assert(gs.take(0) + seq![GroupView { name, prs, expanded: true }] + gs.skip(0)
                    =~= seq![GroupView { name, prs, expanded: true }] + gs);
            }
        }
    } else {
        assert(lex_lt(gs[0].name, name));
        lemma_lex_asym(gs[0].name, name);
        assert(sorted_strict(gs.drop_first()));
        assert forall|k: int| 0 <= k < pos - 1 implies lex_lt(
            (#[trigger] gs.drop_first()[k]).name,
            name,
        ) by {
            assert(gs.drop_first()[k] == gs[k + 1]);
        }
        lemma_replace_in_split(gs.drop_first(), name, prs, pos - 1);
        let rest = gs.drop_first();
        assert(replace_in(gs, name, prs) == seq![gs[0]] + replace_in(rest, name, prs));
        if pos < gs.len() && gs[pos].name == name {
            assert(rest[pos - 1] == gs[pos]);
            if prs.len() == 0 {
                assert(seq![gs[0]] + (rest.take(pos - 1) + rest.skip(pos)) =~= gs.take(pos)
                    + gs.skip(pos + 1));
            } else {
                assert(seq![gs[0]] + (rest.take(pos - 1) + seq![
                    GroupView { name, prs, expanded: gs[pos].expanded },
                ] + rest.skip(pos)) =~= gs.take(pos) + seq![
                    GroupView { name, prs, expanded: gs[pos].expanded },
                ] + gs.skip(pos + 1));
            }
        } else {
            if prs.len() > 0 {
                assert(seq![gs[0]] + (rest.take(pos - 1) + seq![
                    GroupView { name, prs, expanded: true },
                ] + rest.skip(pos - 1)) =~= gs.take(pos) + seq![
                    GroupView { name, prs, expanded: true },
                ] + gs.skip(pos));
            } else {
                assert(seq![gs[0]] + rest =~= gs);
            }
        }
    }
}

/// Replacing twice with the same input yields the same store as replacing
/// once: a refresh is idempotent.
pub proof fn lemma_replace_idempotent(gs: Seq<GroupView>, name: Seq<char>, prs: Seq<PullRequest>)
    requires
        sorted_strict(gs),
    ensures
        replace_in(replace_in(gs, name, prs), name, prs) == replace_in(gs, name, prs),
    decreases gs.len(),
{
    let once = replace_in(gs, name, prs);
    if gs.len() == 0 {
        if prs.len() > 0 {
            lemma_lex_irrefl(name);
            assert(once[0].name == name);
            assert(replace_in(once, name, prs) == seq![
                GroupView { name, prs, expanded: once[0].expanded },
            ] + once.drop_first());
            assert(replace_in(once, name, prs) =~= once);
        }
    } else if lex_lt(name, gs[0].name) {
        if prs.len() == 0 {
        } else {
            lemma_lex_irrefl(name);
            assert(once == seq![GroupView { name, prs, expanded: true }] + gs);
            assert(once[0].name == name);
            assert(replace_in(once, name, prs) == seq![
                GroupView { name, prs, expanded: once[0].expanded },
            ] + once.drop_first());
            assert(once.drop_first() =~= gs);
            assert(replace_in(once, name, prs) =~= once);
        }
    } else if name == gs[0].name {
        if prs.len() == 0 {
            assert(once == gs.drop_first());
            if once.len() > 0 {
                assert(lex_lt(gs[0].name, gs[1].name));
                assert(once[0] == gs[1]);
                assert(lex_lt(name, once[0].name));
            }
        } else {
            lemma_lex_irrefl(name);
            assert(once[0].name == name);
            assert(replace_in(once, name, prs) == seq![
                GroupView { name, prs, expanded: once[0].expanded },
            ] + once.drop_first());
            assert(once.drop_first() =~= gs.drop_first());
            assert(replace_in(once, name, prs) =~= once);
        }
    } else {
        lemma_lex_connected(name, gs[0].name);
        assert(lex_lt(gs[0].name, name));
        lemma_lex_asym(gs[0].name, name);
        assert(sorted_strict(gs.drop_first()));
        lemma_replace_idempotent(gs.drop_first(), name, prs);
        assert(once == seq![gs[0]] + replace_in(gs.drop_first(), name, prs));
        assert(once[0] == gs[0]);
        assert(once.len() > 0);
        assert(replace_in(once, name, prs) == seq![once[0]] + replace_in(
            once.drop_first(),
            name,
            prs,
        ));
        assert(once.drop_first() =~= replace_in(gs.drop_first(), name, prs));
        assert(replace_in(once, name, prs) =~= once);
    }
}

impl PullRequestsListState {
    /// Replaces this panel's entry for `repo` wholesale: the fetched list
    /// becomes the group's contents, or the group disappears when the list
    /// is empty. The view is then recomputed and the cursor re-anchored.
    pub fn replace(&mut self, repo: String, prs: Vec<PullRequest>)
        requires
            old(self).store_wf(),
            store_size(views_of(old(self).grouped_prs@)) + 1 + prs@.len() <= usize::MAX,
        ensures
            final(self).wf(),
            final(self).filter_query == old(self).filter_query,
            final(self).grouped_views() == replace_in(old(self).grouped_views(), repo@, prs@),
            final(self).filtered_views() == projected(
                final(self).grouped_views(),
                final(self).filter_query,
            ),
            final(self).selected == clamped_cursor(
                old(self).selected,
                total_rows(final(self).filtered_views()),
            ),
    {
        let ghost old_views = self.grouped_views();
        let ghost rname = repo@;
        let ghost plist = prs@;
        let pos = lower_bound(&self.grouped_prs, &repo);
        proof {
            lemma_replace_in_split(old_views, rname, plist, pos as int);
            lemma_replace_in_wf(old_views, rname, plist);
            lemma_replace_in_size(old_views, rname, plist);
        }
        let found = if pos < self.grouped_prs.len() {
            str_eq(self.grouped_prs[pos].name.as_str(), repo.as_str())
        } else {
            false
        };
        if found {
            if prs.len() == 0 {
                let _removed = self.grouped_prs.remove(pos);
                proof {
                    assert(self.grouped_prs@ =~= old(self).grouped_prs@.take(pos as int) + old(
                        self,
                    ).grouped_prs@.skip(pos + 1));
                    assert(views_of(self.grouped_prs@) =~= old_views.take(pos as int)
                        + old_views.skip(pos + 1));
                }
            } else {
                let mut g = self.grouped_prs.remove(pos);
                g.prs = prs;
                self.grouped_prs.insert(pos, g);
                proof {
                    assert(views_of(self.grouped_prs@) =~= old_views.take(pos as int) + seq![
                        GroupView { name: rname, prs: plist, expanded: old_views[pos as int].expanded },
                    ] + old_views.skip(pos + 1));
                }
            }
        } else {
            if prs.len() > 0 {
                let gnew = Group { name: repo, prs, expanded: true };
                self.grouped_prs.insert(pos, gnew);
                proof {
                    assert(views_of(self.grouped_prs@) =~= old_views.take(pos as int) + seq![
                        GroupView { name: rname, prs: plist, expanded: true },
                    ] + old_views.skip(pos as int));
                }
            }
        }
        proof {
            assert(self.grouped_views() == replace_in(old_views, rname, plist));
        }
        self.update_view();
    }
}

impl PullRequestsListState {
    /// Moves the cursor one row down, unless it already stands on the last
    /// row or nothing is visible.
    pub fn scroll_down(&mut self)
        requires
            old(self).wf(),
        ensures
            final(self).wf(),
            final(self).grouped_prs == old(self).grouped_prs,
            final(self).filtered_prs == old(self).filtered_prs,
            final(self).filter_query == old(self).filter_query,
            final(self).selected == (match old(self).selected {
                Option::Some(c) => if c + 1 < total_rows(old(self).filtered_views()) {
                    Option::Some((c + 1) as usize)
                } else {
                    Option::Some(c)
                },
                Option::None => Option::<usize>::None,
            }),
    {
        let total = self.visible_rows();
        if let Option::Some(c) = self.selected {
            if c + 1 < total {
                self.selected = Option::Some(c + 1);
            }
        }
    }

    /// Moves the cursor one row up, stopping at the first row.
    pub fn scroll_up(&mut self)
        requires
            old(self).wf(),
        ensures
            final(self).wf(),
            final(self).grouped_prs == old(self).grouped_prs,
            final(self).filtered_prs == old(self).filtered_prs,
            final(self).filter_query == old(self).filter_query,
            final(self).selected == (match old(self).selected {
                Option::Some(c) => if c >= 1 {
                    Option::Some((c - 1) as usize)
                } else {
                    Option::Some(c)
                },
                Option::None => Option::<usize>::None,
            }),
    {
        if let Option::Some(c) = self.selected {
            if c >= 1 {
                self.selected = Option::Some(c - 1);
            }
        }
    }

    /// Moves the cursor a jump's worth of rows up, stopping at the first
    /// row.
    pub fn jump_up(&mut self)
        requires
            old(self).wf(),
        ensures
            final(self).wf(),
            final(self).grouped_prs == old(self).grouped_prs,
            final(self).filtered_prs == old(self).filtered_prs,
            final(self).filter_query == old(self).filter_query,
            final(self).selected == (match old(self).selected {
                Option::Some(c) => if c >= crate::JUMP_STEP {
                    Option::Some((c - crate::JUMP_STEP) as usize)
                } else {
                    Option::Some(0usize)
                },
                Option::None => Option::<usize>::None,
            }),
    {
        if let Option::Some(c) = self.selected {
            if c >= crate::JUMP_STEP {
                self.selected = Option::Some(c - crate::JUMP_STEP);
            } else {
                self.selected = Option::Some(0);
            }
        }
    }

    /// Moves the cursor a jump's worth of rows down, stopping at the last
    /// row.
    pub fn jump_down(&mut self)
        requires
            old(self).wf(),
        ensures
            final(self).wf(),
            final(self).grouped_prs == old(self).grouped_prs,
            final(self).filtered_prs == old(self).filtered_prs,
            final(self).filter_query == old(self).filter_query,
            final(self).selected == (match old(self).selected {
                Option::Some(c) => if c + crate::JUMP_STEP < total_rows(
                    old(self).filtered_views(),
                ) {
                    Option::Some((c + crate::JUMP_STEP) as usize)
                } else {
                    Option::Some((total_rows(old(self).filtered_views()) - 1) as usize)
                },
                Option::None => Option::<usize>::None,
            }),
    {
        let total = self.visible_rows();
        if let Option::Some(c) = self.selected {
            if total - c > crate::JUMP_STEP {
                self.selected = Option::Some(c + crate::JUMP_STEP);
            } else {
                self.selected = Option::Some(total - 1);
            }
        }
    }

    /// The row index of each visible group's header, in group order.
    pub fn repository_indexes(&self) -> (r: Vec<usize>)
        requires
            self.wf(),
        ensures
            r@.len() == self.filtered_views().len(),
            forall|k: int|
                0 <= k < r@.len() ==> r@[k] == row_offset(self.filtered_views(), k),
    {
        let ghost views = self.filtered_views();
        proof {
            lemma_filtered_rows_bounded(self);
        }
        let mut r: Vec<usize> = Vec::new();
        let mut off: usize = 0;
        let mut k: usize = 0;
        while k < self.filtered_prs.len()
            invariant
                k <= self.filtered_prs@.len(),
                views == self.filtered_views(),
                total_rows(views) <= usize::MAX,
                off == row_offset(views, k as int),
                r@.len() == k,
                forall|j: int| 0 <= j < k ==> r@[j] == row_offset(views, j),
            decreases self.filtered_prs@.len() - k,
        {
            r.push(off);
            proof {
                lemma_row_offset_succ(views, k as int);
                lemma_total_rows_take_le(views, k + 1);
            }
            let g = &self.filtered_prs[k];
            if g.expanded {
                off = off + 1 + g.prs.len();
            } else {
                off = off + 1;
            }
            k = k + 1;
        }
        r
    }

    /// Moves the cursor to the next group's header, if one stands after
    /// it.
    pub fn next_repository(&mut self)
        requires
            old(self).wf(),
        ensures
            final(self).wf(),
            final(self).grouped_prs == old(self).grouped_prs,
            final(self).filtered_prs == old(self).filtered_prs,
            final(self).filter_query == old(self).filter_query,
            final(self).selected == (match old(self).selected {
                Option::Some(c) => match next_header_from(old(self).filtered_views(), c as int, 0)
                    {
                    Option::Some(k) => Option::Some(
                        row_offset(old(self).filtered_views(), k) as usize,
                    ),
                    Option::None => Option::Some(c),
                },
                Option::None => Option::<usize>::None,
            }),
    {
        let ghost views = self.filtered_views();
        if let Option::Some(c) = self.selected {
            let indexes = self.repository_indexes();
            let mut k: usize = 0;
            while k < indexes.len()
                invariant
                    k <= indexes@.len(),
                    views == self.filtered_views(),
                    self.wf(),
                    self == old(self),
                    self.selected == Option::Some(c),
                    indexes@.len() == views.len(),
                    forall|j: int| 0 <= j < indexes@.len() ==> indexes@[j] == row_offset(views, j),
                    next_header_from(views, c as int, 0) == next_header_from(
                        views,
                        c as int,
                        k as int,
                    ),
                decreases indexes@.len() - k,
            {
                if indexes[k] > c {
                    proof {
                        lemma_row_offset_lt_total(views, k as int);
                    }
                    self.selected = Option::Some(indexes[k]);
                    return ;
                }
                k = k + 1;
            }
        }
    }

    /// Moves the cursor to the previous group's header, or to the first
    /// row when no header stands before it.
    pub fn previous_repository(&mut self)
        requires
            old(self).wf(),
        ensures
            final(self).wf(),
            final(self).grouped_prs == old(self).grouped_prs,
            final(self).filtered_prs == old(self).filtered_prs,
            final(self).filter_query == old(self).filter_query,
            final(self).selected == (match old(self).selected {
                Option::Some(c) => Option::Some(
                    prev_header_from(old(self).filtered_views(), c as int, 0, 0) as usize,
                ),
                Option::None => Option::<usize>::None,
            }),
    {
        let ghost views = self.filtered_views();
        if let Option::Some(c) = self.selected {
            let indexes = self.repository_indexes();
            let mut best: usize = 0;
            let mut k: usize = 0;
            while k < indexes.len()
                invariant
                    k <= indexes@.len(),
                    views == self.filtered_views(),
                    self.wf(),
                    self == old(self),
                    self.selected == Option::Some(c),
                    c < total_rows(views),
                    indexes@.len() == views.len(),
                    forall|j: int| 0 <= j < indexes@.len() ==> indexes@[j] == row_offset(views, j),
                    best < total_rows(views),
                    prev_header_from(views, c as int, 0, 0) == prev_header_from(
                        views,
                        c as int,
                        k as int,
                        best as int,
                    ),
                decreases indexes@.len() - k,
            {
                proof {
                    lemma_row_offset_succ(views, k as int);
                    lemma_row_offset_lt_total(views, k as int);
                }
                if indexes[k] < c {
                    best = indexes[k];
                }
                k = k + 1;
            }
            self.selected = Option::Some(best);
        }
    }

    /// Resolves a row index through the view: a leaf yields its pull
    /// request, a header or an out-of-range index yields nothing.
    pub fn find_by_index(&self, index: usize) -> (r: Option<&PullRequest>)
        requires
            self.wf(),
        ensures
            match r {
                Option::Some(p) => pr_at(self.filtered_views(), index as int) == Option::Some(*p),
                Option::None => pr_at(self.filtered_views(), index as int) is None,
            },
    {
        let ghost views = self.filtered_views();
        proof {
            lemma_filtered_rows_bounded(self);
        }
        let mut k: usize = 0;
        let mut off: usize = 0;
        while k < self.filtered_prs.len()
            invariant
                k <= self.filtered_prs@.len(),
                views == self.filtered_views(),
                total_rows(views) <= usize::MAX,
                off == row_offset(views, k as int),
                index >= off,
            decreases self.filtered_prs@.len() - k,
        {
            proof {
                lemma_row_offset_succ(views, k as int);
                lemma_total_rows_take_le(views, k + 1);
                lemma_row_at_split(views, k as int, index as int);
            }
            let g = &self.filtered_prs[k];
            let rows_here: usize = if g.expanded {
                1 + g.prs.len()
            } else {
                1
            };
            if index < off + rows_here {
                if index == off {
                    proof {
                        assert(views.skip(k as int)[0] == views[k as int]);
                        assert(row_at(views, index as int) == RowRef::Header { group: k as int });
                    }
                    return Option::None;
                } else {
                    proof {
                        assert(views.skip(k as int)[0] == views[k as int]);
                        assert(g.expanded);
                        assert(row_at(views, index as int) == RowRef::Leaf {
                            group: k as int,
                            pr: index - off - 1,
                        });
                    }
                    return Option::Some(&g.prs[index - off - 1]);
                }
            }
            off = off + rows_here;
            k = k + 1;
        }
        proof {
            assert(views.take(views.len() as int) =~= views);
            lemma_row_at_oob(views, index as int);
        }
        Option::None
    }

    /// The pull request the cursor currently rests on, if it rests on a
    /// leaf row.
    pub fn find_selected(&self) -> (r: Option<&PullRequest>)
        requires
            self.wf(),
        ensures
            match r {
                Option::Some(p) => self.spec_selection() == Option::Some(*p),
                Option::None => self.spec_selection() is None,
            },
    {
        match self.selected {
            Option::Some(c) => self.find_by_index(c),
            Option::None => Option::None,
        }
    }

    /// What the cursor selects: the pull request under it, if any.
    pub open spec fn spec_selection(&self) -> Option<PullRequest> {
        match self.selected {
            Option::Some(c) => pr_at(self.filtered_views(), c as int),
            Option::None => Option::None,
        }
    }

    /// Installs a filter query and reprojects the view.
    pub fn set_filter_query(&mut self, query: Option<String>)
        requires
            old(self).store_wf(),
        ensures
            final(self).wf(),
            final(self).grouped_prs == old(self).grouped_prs,
            final(self).filter_query == query,
            final(self).filtered_views() == projected(old(self).grouped_views(), query),
            final(self).selected == clamped_cursor(
                old(self).selected,
                total_rows(final(self).filtered_views()),
            ),
    {
        self.filter_query = query;
        self.update_view();
    }

    /// Drops any filter query and reprojects the view.
    pub fn clear_filter_query(&mut self)
        requires
            old(self).store_wf(),
        ensures
            final(self).wf(),
            final(self).grouped_prs == old(self).grouped_prs,
            final(self).filter_query is None,
            final(self).filtered_views() == old(self).grouped_views(),
            final(self).selected == clamped_cursor(
                old(self).selected,
                total_rows(final(self).filtered_views()),
            ),
    {
        self.filter_query = Option::None;
        self.update_view();
    }
}

/// A store with one group's expansion flag flipped: the groups named
/// `name` change nothing but that flag.
pub open spec fn toggle_in(gs: Seq<GroupView>, name: Seq<char>) -> Seq<GroupView> {
    gs.map_values(
        |g: GroupView|
            if g.name == name {
                GroupView { name: g.name, prs: g.prs, expanded: !g.expanded }
            } else {
                g
            },
    )
}

/// Flipping an expansion flag moves no group and changes no size.
pub proof fn lemma_toggle_wf(gs: Seq<GroupView>, name: Seq<char>)
    requires
        sorted_strict(gs),
        no_empty_groups(gs),
    ensures
        sorted_strict(toggle_in(gs, name)),
        no_empty_groups(toggle_in(gs, name)),
        store_size(toggle_in(gs, name)) == store_size(gs),
    decreases gs.len(),
{
    let res = toggle_in(gs, name);
    assert forall|i: int| 0 <= i < gs.len() implies res[i].name == gs[i].name && (
    #[trigger] res[i]).prs == gs[i].prs by {}
    if gs.len() > 0 {
        assert(sorted_strict(gs.drop_first()));
        assert(no_empty_groups(gs.drop_first()));
        lemma_toggle_wf(gs.drop_first(), name);
        assert(res.drop_first() =~= toggle_in(gs.drop_first(), name));
    }
}

/// Every group the projection shows carries a name the store holds.
pub proof fn lemma_project_names_exist(gs: Seq<GroupView>, q: Seq<char>, j: int)
    requires
        0 <= j < project(gs, q).len(),
    ensures
        exists|i: int| 0 <= i < gs.len() && (#[trigger] gs[i]).name == project(gs, q)[j].name,
    decreases gs.len(),
{
    if gs.len() > 0 {
        let rest = project(gs.drop_first(), q);
        let g = gs[0];
        let head_len: int = if group_matches(g, q) {
            1
        } else if filter_prs(g.prs, q).len() > 0 {
            1
        } else {
            0
        };
        if j < head_len {
            assert(gs[0].name == project(gs, q)[j].name);
        } else {
            lemma_project_names_exist(gs.drop_first(), q, j - head_len);
            let i = choose|i: int|
                0 <= i < gs.drop_first().len() && (#[trigger] gs.drop_first()[i]).name == rest[j
                    - head_len].name;
            assert(gs[i + 1].name == project(gs, q)[j].name);
        }
    }
}

impl PullRequestsListState {
    /// Flips the expansion of the group the cursor rests in (its header or
    /// one of its leaves), then reprojects the view and re-anchors the
    /// cursor. Does nothing when no row is selected.
    pub fn toggle_expand(&mut self)
        requires
            old(self).wf(),
        ensures
            final(self).wf(),
            final(self).filter_query == old(self).filter_query,
            match old(self).selected {
                Option::None => *final(self) == *old(self),
                Option::Some(c) => match group_of_row(
                    row_at(old(self).filtered_views(), c as int),
                ) {
                    Option::Some(k) => {
                        &&& final(self).grouped_views() == toggle_in(
                            old(self).grouped_views(),
                            old(self).filtered_views()[k].name,
                        )
                        &&& final(self).filtered_views() == projected(
                            final(self).grouped_views(),
                            final(self).filter_query,
                        )
                        &&& final(self).selected == clamped_cursor(
                            old(self).selected,
                            total_rows(final(self).filtered_views()),
                        )
                    },
                    Option::None => *final(self) == *old(self),
                },
            },
    {
        let ghost views = self.filtered_views();
        let ghost old_grouped = self.grouped_views();
        if let Option::Some(c) = self.selected {
            proof {
                lemma_filtered_rows_bounded(self);
                lemma_row_at_valid(views, c as int);
            }
            let k = group_of_row_exec(&self.filtered_prs, c);
            let name = self.filtered_prs[k].name.clone();
            proof {
                match effective_query(self.filter_query) {
                    Option::None => {
                        assert(exists|i: int|
                            0 <= i < old_grouped.len() && (#[trigger] old_grouped[i]).name
                                == name@) by {
                            assert(old_grouped[k as int].name == name@);
                        }
                    },
                    Option::Some(qq) => {
                        lemma_project_names_exist(old_grouped, qq, k as int);
                    },
                }
            }
            let found = find_group(&self.grouped_prs, &name);
            if let Option::Some(gi) = found {
                let mut g = self.grouped_prs.remove(gi);
                g.expanded = !g.expanded;
                self.grouped_prs.insert(gi, g);
                proof {
                    assert forall|j: int|
                        0 <= j < old_grouped.len() && j != gi implies (
                    #[trigger] old_grouped[j]).name != name@ by {
                        if j < gi {
                            assert(lex_lt(old_grouped[j].name, old_grouped[gi as int].name));
                            if old_grouped[j].name == name@ {
                                lemma_lex_irrefl(name@);
                            }
                        } else {
                            assert(lex_lt(old_grouped[gi as int].name, old_grouped[j].name));
                            if old_grouped[j].name == name@ {
                                lemma_lex_irrefl(name@);
                            }
                        }
                    }
                    assert(self.grouped_views() =~= toggle_in(old_grouped, name@));
                    lemma_toggle_wf(old_grouped, name@);
                }
                self.update_view();
            } else {
                proof {
                    let i = choose|i: int|
                        0 <= i < old_grouped.len() && (#[trigger] old_grouped[i]).name == name@;
                    assert(false);
                }
            }
        }
    }
}

/// Finds the group index under a visible row.
fn group_of_row_exec(gs: &Vec<Group>, index: usize) -> (r: usize)
    requires
        total_rows(views_of(gs@)) <= usize::MAX,
        (index as int) < total_rows(views_of(gs@)),
    ensures
        r < gs@.len(),
        group_of_row(row_at(views_of(gs@), index as int)) == Option::Some(r as int),
{
    let ghost views = views_of(gs@);
    let mut k: usize = 0;
    let mut off: usize = 0;
    while k < gs.len()
        invariant
            k <= gs@.len(),
            views == views_of(gs@),
            total_rows(views) <= usize::MAX,
            (index as int) < total_rows(views),
            off == row_offset(views, k as int),
            index >= off,
        decreases views.len() - k,
    {
        proof {
            lemma_row_offset_succ(views, k as int);
            lemma_total_rows_take_le(views, k + 1);
            lemma_row_at_split(views, k as int, index as int);
        }
        let g = &gs[k];
        let rows_here: usize = if g.expanded {
            1 + g.prs.len()
        } else {
            1
        };
        if index < off + rows_here {
            proof {
                assert(views.skip(k as int)[0] == views[k as int]);
            }
            return k;
        }
        off = off + rows_here;
        k = k + 1;
    }
    proof {
        assert(views.take(views.len() as int) =~= views);
        assert(false);
    }
    0
}

/// Finds the group carrying a name, if the store holds one.
fn find_group(gs: &Vec<Group>, name: &String) -> (r: Option<usize>)
    ensures
        match r {
            Option::Some(i) => i < gs@.len() && views_of(gs@)[i as int].name == name@,
            Option::None => forall|j: int|
                0 <= j < gs@.len() ==> (#[trigger] views_of(gs@)[j]).name != name@,
        },
{
    let mut i: usize = 0;
    while i < gs.len()
        invariant
            i <= gs@.len(),
            forall|j: int| 0 <= j < i ==> (#[trigger] views_of(gs@)[j]).name != name@,
        decreases gs@.len() - i,
    {
        if str_eq(gs[i].name.as_str(), name.as_str()) {
            return Option::Some(i);
        }
        i = i + 1;
    }
    Option::None
}

/// Finds the first group whose name does not precede `repo`.
fn lower_bound(gs: &Vec<Group>, repo: &String) -> (pos: usize)
    ensures
        pos <= gs@.len(),
        forall|k: int| 0 <= k < pos ==> lex_lt((#[trigger] views_of(gs@)[k]).name, repo@),
        pos < gs@.len() ==> !lex_lt(views_of(gs@)[pos as int].name, repo@),
{
    let mut i: usize = 0;
    while i < gs.len()
        invariant
            i <= gs@.len(),
            forall|k: int| 0 <= k < i ==> lex_lt((#[trigger] views_of(gs@)[k]).name, repo@),
        decreases gs@.len() - i,
    {
        if !str_lt(gs[i].name.as_str(), repo.as_str()) {
            return i;
        }
        i = i + 1;
    }
    i
}

/// The same row reference, with its group index moved by `k`.
pub open spec fn shifted_row(r: RowRef, k: int) -> RowRef {
    match r {
        RowRef::Header { group } => RowRef::Header { group: group + k },
        RowRef::Leaf { group, pr } => RowRef::Leaf { group: group + k, pr },
        RowRef::OutOfBounds => RowRef::OutOfBounds,
    }
}

/// A header offset decomposes group by group.
pub proof fn lemma_row_offset_succ(gs: Seq<GroupView>, k: int)
    requires
        0 <= k < gs.len(),
    ensures
        row_offset(gs, k + 1) == row_offset(gs, k) + group_rows(gs[k]),
{
    assert(gs.take(k + 1) =~= gs.take(k) + seq![gs[k]]);
    lemma_total_rows_add(gs.take(k), seq![gs[k]]);
    lemma_total_rows_one(gs[k]);
}

/// Every header offset lies strictly below the total row count.
pub proof fn lemma_row_offset_lt_total(gs: Seq<GroupView>, k: int)
    requires
        0 <= k < gs.len(),
    ensures
        row_offset(gs, k) < total_rows(gs),
        row_offset(gs, k) + group_rows(gs[k]) <= total_rows(gs),
{
    lemma_row_offset_succ(gs, k);
    lemma_total_rows_take_le(gs, k + 1);
}

/// Resolving a row past the first `k` groups works on the remaining
/// groups, shifted back by `k` and by their rows.
pub proof fn lemma_row_at_split(gs: Seq<GroupView>, k: int, i: int)
    requires
        0 <= k <= gs.len(),
        i >= row_offset(gs, k),
    ensures
        row_at(gs, i) == shifted_row(row_at(gs.skip(k), i - row_offset(gs, k)), k),
    decreases k,
{
    if k == 0 {
        assert(gs.skip(0) =~= gs);
        assert(gs.take(0) =~= Seq::<GroupView>::empty());
    } else {
        assert(gs.take(k) =~= seq![gs[0]] + gs.drop_first().take(k - 1));
        lemma_total_rows_add(seq![gs[0]], gs.drop_first().take(k - 1));
        lemma_total_rows_one(gs[0]);
        assert(row_offset(gs, k) == group_rows(gs[0]) + row_offset(gs.drop_first(), k - 1));
        lemma_row_at_split(gs.drop_first(), k - 1, i - group_rows(gs[0]));
        assert(gs.drop_first().skip(k - 1) =~= gs.skip(k));
    }
}

/// Every row index below the total resolves to a header or leaf the view
/// actually contains, and that row stands exactly at this index: the
/// translator is injective on `[0, total)`.
pub proof fn lemma_row_at_valid(gs: Seq<GroupView>, i: int)
    requires
        0 <= i < total_rows(gs),
    ensures
        valid_row(gs, row_at(gs, i)),
        row_index_of(gs, row_at(gs, i)) == i,
    decreases gs.len(),
{
    assert(gs.len() > 0);
    if i < group_rows(gs[0]) {
        assert(gs.take(0) =~= Seq::<GroupView>::empty());
        if i == 0 {
        } else {
            assert(gs[0].expanded);
        }
    } else {
        let i2 = i - group_rows(gs[0]);
        assert(total_rows(gs) == group_rows(gs[0]) + total_rows(gs.drop_first()));
        lemma_row_at_valid(gs.drop_first(), i2);
        let r2 = row_at(gs.drop_first(), i2);
        match r2 {
            RowRef::Header { group } => {
                assert(gs.drop_first()[group] == gs[group + 1]);
                assert(gs.take(group + 1) =~= seq![gs[0]] + gs.drop_first().take(group));
                lemma_total_rows_add(seq![gs[0]], gs.drop_first().take(group));
                lemma_total_rows_one(gs[0]);
            },
            RowRef::Leaf { group, pr } => {
                assert(gs.drop_first()[group] == gs[group + 1]);
                assert(gs.take(group + 1) =~= seq![gs[0]] + gs.drop_first().take(group));
                lemma_total_rows_add(seq![gs[0]], gs.drop_first().take(group));
                lemma_total_rows_one(gs[0]);
            },
            RowRef::OutOfBounds => {},
        }
    }
}

/// A row index at or past the total resolves to nothing.
pub proof fn lemma_row_at_oob(gs: Seq<GroupView>, i: int)
    requires
        i >= total_rows(gs),
    ensures
        row_at(gs, i) == RowRef::OutOfBounds,
    decreases gs.len(),
{
    if gs.len() > 0 {
        lemma_row_at_oob(gs.drop_first(), i - group_rows(gs[0]));
    }
}

/// Every header or leaf the view contains stands at exactly one row index
/// below the total, and resolving that index yields it back: the
/// translator is surjective onto the view's rows.
pub proof fn lemma_row_index_of_valid(gs: Seq<GroupView>, r: RowRef)
    requires
        valid_row(gs, r),
    ensures
        0 <= row_index_of(gs, r) < total_rows(gs),
        row_at(gs, row_index_of(gs, r)) == r,
{
    match r {
        RowRef::Header { group } => {
            lemma_row_offset_lt_total(gs, group);
            lemma_row_at_split(gs, group, row_offset(gs, group));
            assert(gs.skip(group)[0] == gs[group]);
            assert(gs.skip(group).len() > 0);
        },
        RowRef::Leaf { group, pr } => {
            lemma_row_offset_lt_total(gs, group);
            lemma_row_at_split(gs, group, row_offset(gs, group) + 1 + pr);
            assert(gs.skip(group)[0] == gs[group]);
            assert(gs.skip(group).len() > 0);
            assert(group_rows(gs[group]) == 1 + gs[group].prs.len());
        },
        RowRef::OutOfBounds => {},
    }
}

/// The pull request a row shows, if the row is a leaf.
pub open spec fn pr_at(gs: Seq<GroupView>, i: int) -> Option<PullRequest> {
    match row_at(gs, i) {
        RowRef::Leaf { group, pr } => Option::Some(gs[group].prs[pr]),
        _ => Option::None,
    }
}

/// The group index under a row, if the row is a header or leaf.
pub open spec fn group_of_row(r: RowRef) -> Option<int> {
    match r {
        RowRef::Header { group } => Option::Some(group),
        RowRef::Leaf { group, pr } => Option::Some(group),
        RowRef::OutOfBounds => Option::None,
    }
}

/// The smallest group index at or after `k` whose header stands strictly
/// after row `c`.
pub open spec fn next_header_from(gs: Seq<GroupView>, c: int, k: int) -> Option<int>
    decreases gs.len() - k,
{
    if k >= gs.len() {
        Option::None
    } else if row_offset(gs, k) > c {
        Option::Some(k)
    } else {
        next_header_from(gs, c, k + 1)
    }
}

/// The last header offset strictly before row `c`, starting from the
/// accumulated `best`.
pub open spec fn prev_header_from(gs: Seq<GroupView>, c: int, k: int, best: int) -> int
    decreases gs.len() - k,
{
    if k >= gs.len() {
        best
    } else if row_offset(gs, k) < c {
        prev_header_from(gs, c, k + 1, row_offset(gs, k))
    } else {
        best
    }
}

/// The names of a sequence of groups, in order.
pub open spec fn names_of(gs: Seq<GroupView>) -> Seq<Seq<char>> {
    gs.map_values(|g: GroupView| g.name)
}

/// `a` can be read off `b` left to right, skipping elements of `b`.
pub open spec fn is_subsequence(a: Seq<Seq<char>>, b: Seq<Seq<char>>) -> bool
    decreases b.len(),
{
    if a.len() == 0 {
        true
    } else if b.len() == 0 {
        false
    } else if a[0] == b[0] {
        is_subsequence(a.drop_first(), b.drop_first())
    } else {
        is_subsequence(a, b.drop_first())
    }
}

/// A subsequence of the tail is a subsequence of the whole.
proof fn lemma_subseq_cons(a: Seq<Seq<char>>, b: Seq<Seq<char>>)
    requires
        b.len() > 0,
        is_subsequence(a, b.drop_first()),
    ensures
        is_subsequence(a, b),
    decreases b.len(), 0int,
{
    if a.len() > 0 {
        if a[0] == b[0] {
            lemma_subseq_drop_first(a, b.drop_first());
        }
    }
}

/// Dropping the head of a subsequence keeps it a subsequence.
proof fn lemma_subseq_drop_first(a: Seq<Seq<char>>, b: Seq<Seq<char>>)
    requires
        a.len() > 0,
        is_subsequence(a, b),
    ensures
        is_subsequence(a.drop_first(), b),
    decreases b.len(), 1int,
{
    if b.len() > 0 {
        if a[0] == b[0] {
            lemma_subseq_cons(a.drop_first(), b);
        } else {
            lemma_subseq_drop_first(a, b.drop_first());
            lemma_subseq_cons(a.drop_first(), b);
        }
    }
}

/// The filtered group order is a subsequence of the unfiltered group
/// order: filtering reorders nothing.
pub proof fn lemma_project_subsequence(gs: Seq<GroupView>, q: Seq<char>)
    ensures
        is_subsequence(names_of(project(gs, q)), names_of(gs)),
    decreases gs.len(),
{
    if gs.len() == 0 {
        assert(names_of(project(gs, q)).len() == 0);
    } else {
        lemma_project_subsequence(gs.drop_first(), q);
        let rest = project(gs.drop_first(), q);
        let g = gs[0];
        assert(names_of(gs).drop_first() =~= names_of(gs.drop_first()));
        if group_matches(g, q) {
            assert(names_of(seq![g] + rest) =~= seq![g.name] + names_of(rest));
            assert((seq![g.name] + names_of(rest)).drop_first() =~= names_of(rest));
            assert(is_subsequence(names_of(project(gs, q)), names_of(gs)));
        } else if filter_prs(g.prs, q).len() > 0 {
            let gk = GroupView { name: g.name, prs: filter_prs(g.prs, q), expanded: g.expanded };
            assert(names_of(seq![gk] + rest) =~= seq![g.name] + names_of(rest));
            assert((seq![g.name] + names_of(rest)).drop_first() =~= names_of(rest));
            assert(is_subsequence(names_of(project(gs, q)), names_of(gs)));
        } else {
            lemma_subseq_cons(names_of(rest), names_of(gs));
        }
    }
}

/// A group whose name matches the query survives filtering untouched:
/// its full, unfiltered pull-request list appears in the projection.
pub proof fn lemma_project_keeps_matching_group(gs: Seq<GroupView>, q: Seq<char>, i: int)
    requires
        0 <= i < gs.len(),
        group_matches(gs[i], q),
    ensures
        exists|j: int| 0 <= j < project(gs, q).len() && #[trigger] project(gs, q)[j] == gs[i],
    decreases gs.len(),
{
    let res = project(gs, q);
    if i == 0 {
        assert(res[0] == gs[0]);
    } else {
        assert(gs.drop_first()[i - 1] == gs[i]);
        lemma_project_keeps_matching_group(gs.drop_first(), q, i - 1);
        let rest = project(gs.drop_first(), q);
        let j = choose|j: int| 0 <= j < rest.len() && #[trigger] rest[j] == gs[i];
        let g = gs[0];
        if group_matches(g, q) {
            assert(res[j + 1] == gs[i]);
        } else if filter_prs(g.prs, q).len() > 0 {
            assert(res[j + 1] == gs[i]);
        } else {
            assert(res[j] == gs[i]);
        }
    }
}

/// Projecting with an empty query is projecting with no query: both show
/// the store unchanged.
pub proof fn lemma_empty_query_identity(gs: Seq<GroupView>, q: String)
    requires
        q@.len() == 0,
    ensures
        projected(gs, Option::Some(q)) == projected(gs, Option::None),
        projected(gs, Option::None) == gs,
{
}

/// When a view shrinks to or below the cursor, the cursor clamps to the
/// new last row, or becomes unset when nothing is left.
pub proof fn lemma_cursor_clamps(c: usize, total: nat)
    requires
        total <= c,
    ensures
        clamped_cursor(Option::Some(c), total) == (if total == 0 {
            Option::<usize>::None
        } else {
            Option::Some((total - 1) as usize)
        }),
{
}

/// The store bound carries to any projection of it.
proof fn lemma_filtered_rows_bounded(s: &PullRequestsListState)
    requires
        s.wf(),
    ensures
        total_rows(s.filtered_views()) <= usize::MAX,
{
    match effective_query(s.filter_query) {
        Option::None => {
            lemma_total_rows_le_store_size(s.grouped_views());
        },
        Option::Some(qq) => {
            lemma_project_store_size(s.grouped_views(), qq);
            lemma_total_rows_le_store_size(s.filtered_views());
        },
    }
}

} // verus!

