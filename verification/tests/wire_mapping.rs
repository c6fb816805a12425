use gitme::pull_request::Profile;
use gitme::pull_request::PullRequest as SnapshotPullRequest;
use gitme::text::str_eq;
use gitme::text::str_lt;
use gitme::text::to_chars;
use gitme::text::u64_to_dec;
use gitme::types::Comment;
use gitme::types::PullRequest;
use gitme::types::Repository;
use gitme::types::Review;
use gitme::types::User;

#[test]
fn decimal_rendering_is_exact() {
    assert_eq!(u64_to_dec(0), "0");
    assert_eq!(u64_to_dec(7), "7");
    assert_eq!(u64_to_dec(10), "10");
    assert_eq!(u64_to_dec(4242), "4242");
    assert_eq!(u64_to_dec(u64::MAX), "18446744073709551615");
}

#[test]
fn string_order_is_lexicographic() {
    assert!(str_lt("a", "b"));
    assert!(str_lt("a", "ab"));
    assert!(str_lt("", "a"));
    assert!(!str_lt("abc", "abc"));
    assert!(!str_lt("b", "ab"));
    assert!(str_lt("Z", "a"));
}

#[test]
fn string_equality_and_chars() {
    assert!(str_eq("hello", "hello"));
    assert!(!str_eq("hello", "hellO"));
    assert_eq!(to_chars("abc"), vec!['a', 'b', 'c']);
}

#[test]
fn snapshot_defaults_every_absent_field() {
    let p = SnapshotPullRequest::from_parts(
        12, None, None, None, None, None, None, None, None, None,
    );
    assert_eq!(p.id, "12");
    assert_eq!(p.title, "");
    assert_eq!(p.url, "");
    assert_eq!(p.repo, "");
    assert_eq!(p.body, "");
    assert_eq!(p.author, "");
    assert!(!p.is_draft);
    assert!(!p.mergeable);
    assert!(!p.rebaseable);
}

#[test]
fn snapshot_keeps_present_fields_and_formats_author() {
    let p = SnapshotPullRequest::from_parts(
        3,
        Some("Add parser".to_string()),
        Some("https://example.invalid/pr/3".to_string()),
        Some("dash".to_string()),
        Some("body text".to_string()),
        Some("alice".to_string()),
        Some("alice@example.invalid".to_string()),
        Some(true),
        Some(true),
        Some(false),
    );
    assert_eq!(p.id, "3");
    assert_eq!(p.title, "Add parser");
    assert_eq!(p.repo, "dash");
    assert_eq!(p.author, "alice - alice@example.invalid");
    assert!(p.is_draft);
    assert!(p.mergeable);
    assert!(!p.rebaseable);
    let no_mail = SnapshotPullRequest::from_parts(
        3, None, None, None, None,
        Some("alice".to_string()),
        None, None, None, None,
    );
    assert_eq!(no_mail.author, "alice");
}

#[test]
fn profile_from_parts_defaults_name() {
    let p = Profile::from_parts(99, "bob".to_string(), None);
    assert_eq!(p.id, "99");
    assert_eq!(p.login, "bob");
    assert_eq!(p.name, "");
    let q = Profile::from_parts(1, "bob".to_string(), Some("Bob".to_string()));
    assert_eq!(q.name, "Bob");
}

#[test]
fn user_from_parts_defaults_name() {
    let u = User::from_parts(None, "carol".to_string());
    assert_eq!(u.name, "");
    assert_eq!(u.login, "carol");
    let v = User::from_parts(Some("Carol".to_string()), "carol".to_string());
    assert_eq!(v.name, "Carol");
}

#[test]
fn comment_and_review_default_their_author() {
    let c = Comment::from_parts(None, "a comment".to_string());
    assert_eq!(c.author.login, "");
    assert_eq!(c.body, "a comment");
    let r = Review::from_parts(
        None,
        "looks good".to_string(),
        "APPROVED".to_string(),
        None,
        vec![c],
    );
    assert_eq!(r.author.name, "");
    assert_eq!(r.state, "APPROVED");
    assert_eq!(r.submitted_at, "");
    assert_eq!(r.comments.len(), 1);
    let with_author = Review::from_parts(
        Some(User::from_parts(Some("Dan".to_string()), "dan".to_string())),
        String::new(),
        "COMMENTED".to_string(),
        Some("2024-01-01".to_string()),
        vec![],
    );
    assert_eq!(with_author.author.login, "dan");
    assert_eq!(with_author.submitted_at, "2024-01-01");
}

#[test]
fn repository_record_round_trips_its_fields() {
    let inner = PullRequest::from_parts(
        None,
        "main".to_string(),
        "feature".to_string(),
        5,
        "title".to_string(),
        None,
        "body".to_string(),
        "url".to_string(),
        false,
        vec![],
        vec![],
        vec![],
        vec![User::from_parts(None, "eve".to_string())],
    );
    assert_eq!(inner.base_repo.name, "");
    assert_eq!(inner.number, 5);
    assert_eq!(inner.assignees[0].login, "eve");
    let repo = Repository::from_parts(
        "dash".to_string(),
        "https://example.invalid/dash".to_string(),
        vec![inner],
    );
    assert_eq!(repo.name, "dash");
    assert_eq!(repo.pull_requests.len(), 1);
    assert_eq!(repo.pull_requests[0].title, "title");
}
