use gitme::app_state::classify_pull_request;
use gitme::app_state::has_review_by;
use gitme::app_state::review_launch_plan;
use gitme::app_state::ActivePanel;
use gitme::app_state::AppState;
use gitme::app_state::Bucket;
use gitme::app_state::LoadingState;
use gitme::config::Config;
use gitme::config::ConfigError;
use gitme::config::Repository;
use gitme::pull_request::Profile;
use gitme::pull_request::PullRequest;

fn pr(id: u64, title: &str, repo: &str) -> PullRequest {
    PullRequest {
        id: id.to_string(),
        title: title.to_string(),
        url: format!("https://example.invalid/{}/{}", repo, id),
        repo: repo.to_string(),
        body: String::new(),
        author: "someone".to_string(),
        is_draft: false,
        mergeable: true,
        rebaseable: true,
    }
}

fn store_names(state: &AppState) -> Vec<String> {
    state.review_prs.grouped_prs.iter().map(|g| g.name.clone()).collect()
}

fn store_ids(state: &AppState) -> Vec<Vec<String>> {
    state
        .review_prs
        .grouped_prs
        .iter()
        .map(|g| g.prs.iter().map(|p| p.id.clone()).collect())
        .collect()
}

#[test]
fn concurrent_refreshes_commute() {
    // completions for "a" and "b" land in either order: the final store
    // is the same
    let mut first = AppState::new();
    first.commit_refresh("a".to_string(), vec![pr(1, "one", "a"), pr(2, "two", "a")], vec![]);
    first.commit_refresh("b".to_string(), vec![pr(3, "three", "b")], vec![pr(4, "four", "b")]);

    let mut second = AppState::new();
    second.commit_refresh("b".to_string(), vec![pr(3, "three", "b")], vec![pr(4, "four", "b")]);
    second.commit_refresh("a".to_string(), vec![pr(1, "one", "a"), pr(2, "two", "a")], vec![]);

    assert_eq!(store_names(&first), store_names(&second));
    assert_eq!(store_ids(&first), store_ids(&second));
    assert_eq!(
        first.assignee_prs.grouped_prs.len(),
        second.assignee_prs.grouped_prs.len()
    );
    assert!(matches!(first.current_loading_state(), LoadingState::Loaded));
}

#[test]
fn one_failure_discards_no_other_data() {
    let mut state = AppState::new();
    state.commit_refresh("a".to_string(), vec![pr(1, "one", "a")], vec![]);
    state.on_err("rate limited".to_string());
    match state.current_loading_state() {
        LoadingState::Error(msg) => assert_eq!(msg, "rate limited"),
        _ => panic!("expected the error state"),
    }
    // the already-loaded store is untouched
    assert_eq!(state.review_prs.grouped_prs.len(), 1);
    assert_eq!(state.review_prs.grouped_prs[0].prs[0].id, "1");
    // the next refresh replaces the error
    state.commit_refresh("a".to_string(), vec![pr(1, "one", "a")], vec![]);
    assert!(matches!(state.current_loading_state(), LoadingState::Loaded));
}

#[test]
fn loading_state_cycles() {
    let mut state = AppState::new();
    assert!(matches!(state.current_loading_state(), LoadingState::Idle));
    state.set_loading_state(LoadingState::Loading);
    assert!(matches!(state.current_loading_state(), LoadingState::Loading));
    state.commit_refresh("a".to_string(), vec![pr(1, "one", "a")], vec![]);
    assert!(matches!(state.current_loading_state(), LoadingState::Loaded));
}

#[test]
fn assignee_match_takes_priority() {
    let user = "me".to_string();
    let b = classify_pull_request(
        Some(&user),
        &vec!["me".to_string()],
        &vec!["me".to_string()],
    );
    assert!(matches!(b, Bucket::Assignee));
}

#[test]
fn requested_reviewer_lands_in_review_bucket() {
    let user = "me".to_string();
    let b = classify_pull_request(
        Some(&user),
        &vec!["other".to_string()],
        &vec!["me".to_string()],
    );
    assert!(matches!(b, Bucket::Review));
}

#[test]
fn without_username_nothing_is_classified() {
    let b = classify_pull_request(None, &vec!["me".to_string()], &vec!["me".to_string()]);
    assert!(matches!(b, Bucket::Unclassified));
}

#[test]
fn cleared_request_still_reaches_review_via_submitted_review() {
    // requestedReviewers = [] but the user already submitted a review:
    // the nested lookup confirms membership in the review bucket
    let user = "x".to_string();
    let b = classify_pull_request(Some(&user), &vec![], &vec![]);
    assert!(matches!(b, Bucket::NeedsReviewLookup));
    let review_authors = vec![None, Some("someone".to_string()), Some("x".to_string())];
    assert!(has_review_by(&review_authors, &user));
    // and the pull request then lands in the review panel
    let mut state = AppState::new();
    if has_review_by(&review_authors, &user) {
        state.commit_refresh("r".to_string(), vec![pr(10, "ten", "r")], vec![]);
    }
    assert_eq!(state.review_prs.grouped_prs.len(), 1);
    assert_eq!(state.review_prs.grouped_prs[0].prs[0].id, "10");
}

#[test]
fn review_lookup_misses_without_a_matching_author() {
    let user = "x".to_string();
    assert!(!has_review_by(&vec![], &user));
    assert!(!has_review_by(&vec![None, Some("y".to_string())], &user));
}

#[test]
fn details_follow_the_cursor_across_panels() {
    let mut state = AppState::new();
    state.commit_refresh("a".to_string(), vec![pr(1, "one", "a")], vec![pr(2, "two", "a")]);
    // review panel active; its cursor initialized to the header
    state.scroll_down();
    assert_eq!(state.details.pr_details.as_ref().unwrap().id, "1");
    // switching panels re-derives the details from the other cursor
    state.next_tab();
    assert!(matches!(state.active_panel, ActivePanel::MyPullRequests));
    state.scroll_down();
    assert_eq!(state.details.pr_details.as_ref().unwrap().id, "2");
    // a header selection resolves to no details
    state.scroll_up();
    assert!(state.details.pr_details.is_none());
}

#[test]
fn details_scroll_resets_on_new_selection_and_saturates() {
    let mut state = AppState::new();
    state.commit_refresh("a".to_string(), vec![pr(1, "one", "a"), pr(2, "two", "a")], vec![]);
    state.scroll_down();
    state.scroll_details_down();
    state.scroll_details_down();
    assert_eq!(state.details.body_scroll, 6);
    state.scroll_details_up();
    assert_eq!(state.details.body_scroll, 3);
    // moving the cursor rewinds the body
    state.scroll_down();
    assert_eq!(state.details.body_scroll, 0);
    state.scroll_details_up();
    assert_eq!(state.details.body_scroll, 0);
}

#[test]
fn details_scroll_ignored_without_a_selection() {
    let mut state = AppState::new();
    state.scroll_details_down();
    assert_eq!(state.details.body_scroll, 0);
}

#[test]
fn reflow_clamps_scroll_to_wrapped_body() {
    let mut state = AppState::new();
    let mut long_pr = pr(1, "one", "a");
    long_pr.body = "aaaa bbbb cccc".to_string();
    state.commit_refresh("a".to_string(), vec![long_pr], vec![]);
    state.scroll_down();
    for _ in 0..5 {
        state.scroll_details_down();
    }
    assert_eq!(state.details.body_scroll, 15);
    // at width 4 the body wraps to 3 lines; with a viewport of 1 the
    // scroll clamps to 2
    state.details.reflow(4, 1);
    assert_eq!(state.details.body_scroll, 2);
    // with the viewport taller than the text it clamps to the top
    state.details.reflow(4, 10);
    assert_eq!(state.details.body_scroll, 0);
}

#[test]
fn profile_cache_overwrites_per_login_and_never_evicts() {
    let mut state = AppState::new();
    state.details.cache_profile(Profile {
        id: "1".to_string(),
        login: "alice".to_string(),
        name: "Alice".to_string(),
    });
    state.details.cache_profile(Profile {
        id: "2".to_string(),
        login: "bob".to_string(),
        name: "Bob".to_string(),
    });
    state.details.cache_profile(Profile {
        id: "1".to_string(),
        login: "alice".to_string(),
        name: "Alice Updated".to_string(),
    });
    assert_eq!(state.details.cached_authors.len(), 2);
    let login = "alice".to_string();
    let got = state.details.get_profile(&login).expect("alice is cached");
    assert_eq!(got.name, "Alice Updated");
    let missing = "nobody".to_string();
    assert!(state.details.get_profile(&missing).is_none());
}

#[test]
fn search_applies_to_both_panels_and_clears() {
    let mut state = AppState::new();
    state.commit_refresh(
        "a".to_string(),
        vec![pr(1, "fix parser", "a")],
        vec![pr(2, "add docs", "a")],
    );
    state.set_search_query("fix".to_string());
    assert_eq!(state.review_prs.filtered_prs.len(), 1);
    assert_eq!(state.assignee_prs.filtered_prs.len(), 0);
    state.clear_search();
    assert_eq!(state.review_prs.filtered_prs.len(), 1);
    assert_eq!(state.assignee_prs.filtered_prs.len(), 1);
}

#[test]
fn help_and_search_flags_toggle() {
    let mut state = AppState::new();
    assert!(!state.help_open());
    state.toggle_help();
    assert!(state.help_open());
    state.toggle_help();
    assert!(!state.help_open());
    assert!(!state.searching());
    state.toggle_search();
    assert!(state.searching());
}

#[test]
fn duplicate_repository_is_refused() {
    let mut config = Config {
        api_key: None,
        username: Some("me".to_string()),
        command: None,
        command_args: vec![],
        repositories: vec![],
    };
    let repo = Repository {
        owner: "me".to_string(),
        name: "dash".to_string(),
        system_path: None,
    };
    assert!(config.add_repository(repo.clone()).is_ok());
    assert_eq!(config.repositories.len(), 1);
    let dup = Repository {
        owner: "me".to_string(),
        name: "dash".to_string(),
        system_path: Some("/tmp/dash".to_string()),
    };
    match config.add_repository(dup) {
        Err(ConfigError::DuplicateRepository) => {}
        Ok(()) => panic!("a duplicate must be refused"),
    }
    assert_eq!(config.repositories.len(), 1);
    // a different name under the same owner is fine
    let other = Repository {
        owner: "me".to_string(),
        name: "tools".to_string(),
        system_path: None,
    };
    assert!(config.add_repository(other).is_ok());
    assert_eq!(config.repositories.len(), 2);
    assert!(config.remove_repository().is_ok());
    assert_eq!(config.repositories.len(), 2);
}

#[test]
fn review_plan_resolves_command_path_and_args() {
    let config = Config {
        api_key: None,
        username: Some("me".to_string()),
        command: Some("nvim".to_string()),
        command_args: vec!["-c".to_string(), "review".to_string()],
        repositories: vec![Repository {
            owner: "me".to_string(),
            name: "a".to_string(),
            system_path: Some("/home/me/src/a".to_string()),
        }],
    };
    let mut state = AppState::new();
    state.commit_refresh("a".to_string(), vec![pr(1, "one", "a")], vec![]);
    state.scroll_down();
    let plan = review_launch_plan(&config, &state, "ghostty".to_string())
        .expect("selection, config entry and path are all present");
    assert_eq!(plan.command, "nvim");
    assert_eq!(plan.path, "/home/me/src/a");
    assert_eq!(plan.args, vec!["-c".to_string(), "review".to_string()]);
}

#[test]
fn review_plan_uses_fallback_command() {
    let config = Config {
        api_key: None,
        username: None,
        command: None,
        command_args: vec![],
        repositories: vec![Repository {
            owner: "me".to_string(),
            name: "a".to_string(),
            system_path: Some("/home/me/src/a".to_string()),
        }],
    };
    let mut state = AppState::new();
    state.commit_refresh("a".to_string(), vec![pr(1, "one", "a")], vec![]);
    state.scroll_down();
    let plan = review_launch_plan(&config, &state, "ghostty".to_string()).unwrap();
    assert_eq!(plan.command, "ghostty");
}

#[test]
fn review_plan_refused_outside_its_conditions() {
    let config = Config {
        api_key: None,
        username: None,
        command: Some("nvim".to_string()),
        command_args: vec![],
        repositories: vec![Repository {
            owner: "me".to_string(),
            name: "a".to_string(),
            system_path: None,
        }],
    };
    let mut state = AppState::new();
    // nothing selected yet (header row)
    state.commit_refresh("a".to_string(), vec![pr(1, "one", "a")], vec![]);
    assert!(review_launch_plan(&config, &state, "sh".to_string()).is_none());
    // selected, but the configured repository has no local path
    state.scroll_down();
    assert!(review_launch_plan(&config, &state, "sh".to_string()).is_none());
    // assignee panel active: the review command does not apply
    state.next_tab();
    assert!(review_launch_plan(&config, &state, "sh".to_string()).is_none());
}

#[test]
fn current_selection_matches_details() {
    let mut state = AppState::new();
    state.commit_refresh("a".to_string(), vec![pr(1, "one", "a")], vec![]);
    assert!(state.current_selection().is_none());
    state.scroll_down();
    assert_eq!(state.current_selection().unwrap().id, "1");
    assert_eq!(state.visible_rows(), 2);
}
