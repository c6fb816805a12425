use gitme::list_state::PullRequestsListState;
use gitme::pull_request::PullRequest;

fn pr(id: u64, title: &str, repo: &str) -> PullRequest {
    PullRequest {
        id: id.to_string(),
        title: title.to_string(),
        url: format!("https://example.invalid/{}/{}", repo, id),
        repo: repo.to_string(),
        body: String::new(),
        author: "someone".to_string(),
        is_draft: false,
        mergeable: true,
        rebaseable: true,
    }
}

fn scenario_store() -> PullRequestsListState {
    // store = {"a": [PR#1, PR#2], "b": [PR#3]}, both groups expanded
    let mut state = PullRequestsListState::new();
    state.replace("a".to_string(), vec![pr(1, "PR#1", "a"), pr(2, "PR#2", "a")]);
    state.replace("b".to_string(), vec![pr(3, "PR#3", "b")]);
    state
}

#[test]
fn scenario_total_rows_and_row_resolution() {
    let state = scenario_store();
    // 3 rows for "a" (header + 2 leaves) + 2 rows for "b" (header + 1 leaf)
    assert_eq!(state.visible_rows(), 5);
    // row 2 is the second leaf of "a": PR#2
    let leaf = state.find_by_index(2).expect("row 2 must be a leaf");
    assert_eq!(leaf.id, "2");
    assert_eq!(leaf.repo, "a");
    // row 3 is the header of "b": no pull request
    assert!(state.find_by_index(3).is_none());
}

#[test]
fn translator_headers_and_leaves_cover_every_row() {
    let state = scenario_store();
    let headers = state.repository_indexes();
    assert_eq!(headers, vec![0, 3]);
    // headers resolve to nothing, leaves resolve to their pull request
    assert!(state.find_by_index(0).is_none());
    assert_eq!(state.find_by_index(1).unwrap().id, "1");
    assert_eq!(state.find_by_index(2).unwrap().id, "2");
    assert!(state.find_by_index(3).is_none());
    assert_eq!(state.find_by_index(4).unwrap().id, "3");
    // past the total nothing resolves
    assert!(state.find_by_index(5).is_none());
    assert!(state.find_by_index(100).is_none());
}

#[test]
fn scenario_filter_by_leaf_text() {
    // filter query "PR#3" keeps only the matching pull request of "b"
    let mut state = scenario_store();
    state.set_filter_query(Some("PR#3".to_string()));
    assert_eq!(state.filtered_prs.len(), 1);
    assert_eq!(state.filtered_prs[0].name, "b");
    assert_eq!(state.filtered_prs[0].prs.len(), 1);
    assert_eq!(state.filtered_prs[0].prs[0].id, "3");
    // the store itself is untouched by filtering
    assert_eq!(state.grouped_prs.len(), 2);
    assert_eq!(state.grouped_prs[0].prs.len(), 2);
}

#[test]
fn scenario_empty_refresh_removes_group() {
    // a refresh for "a" returning nothing removes the key; rows recompute
    let mut state = scenario_store();
    state.replace("a".to_string(), vec![]);
    assert_eq!(state.grouped_prs.len(), 1);
    assert_eq!(state.grouped_prs[0].name, "b");
    assert_eq!(state.visible_rows(), 2);
}

#[test]
fn replace_is_idempotent() {
    let mut once = PullRequestsListState::new();
    once.replace("r".to_string(), vec![pr(9, "nine", "r")]);
    let mut twice = PullRequestsListState::new();
    twice.replace("r".to_string(), vec![pr(9, "nine", "r")]);
    twice.replace("r".to_string(), vec![pr(9, "nine", "r")]);
    assert_eq!(once.grouped_prs.len(), twice.grouped_prs.len());
    assert_eq!(once.grouped_prs[0].name, twice.grouped_prs[0].name);
    assert_eq!(once.grouped_prs[0].prs.len(), twice.grouped_prs[0].prs.len());
    assert_eq!(once.grouped_prs[0].prs[0].id, twice.grouped_prs[0].prs[0].id);
    assert_eq!(once.visible_rows(), twice.visible_rows());
}

#[test]
fn repositories_stay_sorted_regardless_of_insertion_order() {
    let mut state = PullRequestsListState::new();
    state.replace("zoo".to_string(), vec![pr(1, "z", "zoo")]);
    state.replace("alpha".to_string(), vec![pr(2, "a", "alpha")]);
    state.replace("middle".to_string(), vec![pr(3, "m", "middle")]);
    let names: Vec<&str> = state.grouped_prs.iter().map(|g| g.name.as_str()).collect();
    assert_eq!(names, vec!["alpha", "middle", "zoo"]);
}

#[test]
fn filtered_group_order_is_a_subsequence() {
    let mut state = PullRequestsListState::new();
    state.replace("apple".to_string(), vec![pr(1, "fix parser", "apple")]);
    state.replace("banana".to_string(), vec![pr(2, "fix lexer", "banana")]);
    state.replace("cherry".to_string(), vec![pr(3, "add docs", "cherry")]);
    state.set_filter_query(Some("fix".to_string()));
    let filtered: Vec<&str> = state.filtered_prs.iter().map(|g| g.name.as_str()).collect();
    assert_eq!(filtered, vec!["apple", "banana"]);
}

#[test]
fn filter_by_repo_name_keeps_full_group() {
    // a repo-name substring keeps that repo's whole, unfiltered list
    let mut state = scenario_store();
    state.set_filter_query(Some("a".to_string()));
    assert_eq!(state.filtered_prs.len(), 1);
    assert_eq!(state.filtered_prs[0].name, "a");
    assert_eq!(state.filtered_prs[0].prs.len(), 2);
}

#[test]
fn empty_query_is_identity_projection() {
    let mut with_empty = scenario_store();
    with_empty.set_filter_query(Some(String::new()));
    let mut with_none = scenario_store();
    with_none.set_filter_query(None);
    assert_eq!(with_empty.filtered_prs.len(), with_none.filtered_prs.len());
    for (a, b) in with_empty.filtered_prs.iter().zip(with_none.filtered_prs.iter()) {
        assert_eq!(a.name, b.name);
        assert_eq!(a.prs.len(), b.prs.len());
    }
    assert_eq!(with_empty.filtered_prs.len(), 2);
}

#[test]
fn filter_is_case_insensitive_both_ways() {
    let mut state = PullRequestsListState::new();
    state.replace(
        "MyRepo".to_string(),
        vec![pr(7, "Fix The THING", "MyRepo")],
    );
    state.replace("other".to_string(), vec![pr(8, "unrelated", "other")]);
    // query folded against a folded title
    state.set_filter_query(Some("the thing".to_string()));
    assert_eq!(state.filtered_prs.len(), 1);
    assert_eq!(state.filtered_prs[0].prs[0].id, "7");
    // query folded against a folded repository name
    state.set_filter_query(Some("myrepo".to_string()));
    assert_eq!(state.filtered_prs.len(), 1);
    assert_eq!(state.filtered_prs[0].name, "MyRepo");
    assert_eq!(state.filtered_prs[0].prs.len(), 1);
}

#[test]
fn cursor_clamps_when_view_shrinks() {
    let mut state = scenario_store();
    // move the cursor to the last row (index 4)
    for _ in 0..4 {
        state.scroll_down();
    }
    assert_eq!(state.selected, Some(4));
    // shrink: "a" disappears, 2 rows remain; the cursor clamps to row 1
    state.replace("a".to_string(), vec![]);
    assert_eq!(state.selected, Some(1));
    // shrink to nothing: the cursor unsets
    state.replace("b".to_string(), vec![]);
    assert_eq!(state.selected, None);
    assert_eq!(state.visible_rows(), 0);
}

#[test]
fn cursor_initializes_when_panel_becomes_non_empty() {
    let mut state = PullRequestsListState::new();
    assert_eq!(state.selected, None);
    state.replace("a".to_string(), vec![pr(1, "one", "a")]);
    assert_eq!(state.selected, Some(0));
}

#[test]
fn scrolling_stops_at_both_ends() {
    let mut state = scenario_store();
    state.scroll_up();
    assert_eq!(state.selected, Some(0));
    for _ in 0..10 {
        state.scroll_down();
    }
    assert_eq!(state.selected, Some(4));
    state.scroll_down();
    assert_eq!(state.selected, Some(4));
}

#[test]
fn jumping_moves_five_rows_and_clamps() {
    let mut state = scenario_store();
    state.jump_down();
    assert_eq!(state.selected, Some(4));
    state.jump_up();
    assert_eq!(state.selected, Some(0));
    state.scroll_down();
    state.jump_up();
    assert_eq!(state.selected, Some(0));
}

#[test]
fn navigation_on_empty_view_does_nothing() {
    let mut state = PullRequestsListState::new();
    state.scroll_down();
    state.scroll_up();
    state.jump_down();
    state.jump_up();
    state.next_repository();
    state.previous_repository();
    assert_eq!(state.selected, None);
    assert!(state.find_selected().is_none());
}

#[test]
fn repository_jumps_move_between_headers() {
    let mut state = scenario_store();
    assert_eq!(state.selected, Some(0));
    state.next_repository();
    assert_eq!(state.selected, Some(3));
    // no further header: stays
    state.next_repository();
    assert_eq!(state.selected, Some(3));
    state.previous_repository();
    assert_eq!(state.selected, Some(0));
    // from a leaf, the previous header is its own group's
    state.scroll_down();
    assert_eq!(state.selected, Some(1));
    state.previous_repository();
    assert_eq!(state.selected, Some(0));
    // with no header before it, the cursor moves to the first row
    state.previous_repository();
    assert_eq!(state.selected, Some(0));
}

#[test]
fn collapsing_a_group_hides_its_leaves() {
    let mut state = scenario_store();
    assert_eq!(state.selected, Some(0));
    // collapse "a" from its header: its two leaves disappear
    state.toggle_expand();
    assert_eq!(state.visible_rows(), 3);
    assert!(state.find_by_index(0).is_none());
    assert!(state.find_by_index(1).is_none());
    assert_eq!(state.find_by_index(2).unwrap().id, "3");
    // expand it again
    state.toggle_expand();
    assert_eq!(state.visible_rows(), 5);
}

#[test]
fn find_selected_follows_the_cursor() {
    let mut state = scenario_store();
    assert!(state.find_selected().is_none());
    state.scroll_down();
    assert_eq!(state.find_selected().unwrap().id, "1");
    state.scroll_down();
    assert_eq!(state.find_selected().unwrap().id, "2");
}

#[test]
fn group_holds_fetch_order_not_sorted() {
    let mut state = PullRequestsListState::new();
    state.replace(
        "r".to_string(),
        vec![pr(5, "five", "r"), pr(2, "two", "r"), pr(9, "nine", "r")],
    );
    let ids: Vec<&str> = state.grouped_prs[0].prs.iter().map(|p| p.id.as_str()).collect();
    assert_eq!(ids, vec!["5", "2", "9"]);
}

#[test]
fn replacing_a_group_keeps_its_expansion_flag() {
    let mut state = PullRequestsListState::new();
    state.replace("r".to_string(), vec![pr(1, "one", "r")]);
    state.toggle_expand();
    assert!(!state.grouped_prs[0].expanded);
    state.replace("r".to_string(), vec![pr(1, "one", "r"), pr(2, "two", "r")]);
    assert!(!state.grouped_prs[0].expanded);
    assert_eq!(state.visible_rows(), 1);
}
