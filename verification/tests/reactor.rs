use ctrl::config::{set_user_github_username, Manifest};
use ctrl::github::prs::{
    decimal_text, handle_pull_request, handle_pull_request_review, protected, repository_parts,
    resume_pull_request, resume_pull_request_review, reviewers, Action, Fault, PullRequestEvent,
    PullRequestState, Reply, ReviewEvent, ReviewState, Target,
};
use ctrl::github::{handle_github_event, GitHubEvent, Subject};
use ctrl::slack::handler::{add, create, github};

fn texts(items: &[&str]) -> Vec<String> {
    items.iter().map(|t| t.to_string()).collect()
}

fn registry() -> Manifest {
    let mut m = Manifest::default();
    assert_eq!(create(&mut m, "C1", "proj1").error, None);
    assert_eq!(github(&mut m, "C1", "repo-org/repo-name").error, None);
    set_user_github_username(&mut m, "U1", "alice");
    set_user_github_username(&mut m, "U2", "bob");
    set_user_github_username(&mut m, "U3", "carol");
    add(&mut m, "C1", "<@U1>");
    add(&mut m, "C1", "<@U2>");
    add(&mut m, "C1", "<@U3>");
    m.set_managers(texts(&["dave", "bob", "alice"]));
    m
}

fn opened(base: &str) -> PullRequestEvent {
    PullRequestEvent {
        action: "opened".to_string(),
        repository_full_name: "repo-org/repo-name".to_string(),
        pr_number: 42,
        pr_author: "alice".to_string(),
        base_branch: base.to_string(),
        head_branch: "feature".to_string(),
    }
}

fn reviewed(base: &str, state: &str) -> ReviewEvent {
    ReviewEvent {
        action: "submitted".to_string(),
        repository_full_name: "repo-org/repo-name".to_string(),
        pr_number: 42,
        pr_author: "alice".to_string(),
        base_branch: base.to_string(),
        review_state: state.to_string(),
        reviewer: "bob".to_string(),
    }
}

fn is_the_pull_request(t: &Target) {
    assert_eq!(t.repository, "repo-org/repo-name");
    assert_eq!(t.number, 42);
}

/// Runs the reaction to a pull request event, answering each call with
/// `answer`, and hands back the calls that were asked for with the end state.
fn run_pull_request(
    m: &Manifest,
    ask_contributors: bool,
    e: &PullRequestEvent,
    answer: &dyn Fn(&Action) -> Reply,
) -> (Vec<Action>, PullRequestState) {
    let mut done = Vec::new();
    let (mut state, mut action) = handle_pull_request(m, ask_contributors, e);
    while let Some(a) = action {
        let reply = answer(&a);
        done.push(a);
        let (s, next) = resume_pull_request(e, state, reply);
        state = s;
        action = next;
        assert!(done.len() < 10);
    }
    (done, state)
}

fn run_review(
    m: &Manifest,
    e: &ReviewEvent,
    answer: &dyn Fn(&Action) -> Reply,
) -> (Vec<Action>, ReviewState) {
    let mut done = Vec::new();
    let (mut state, mut action) = handle_pull_request_review(m, e);
    while let Some(a) = action {
        let reply = answer(&a);
        done.push(a);
        let (s, next) = resume_pull_request_review(e, state, reply);
        state = s;
        action = next;
        assert!(done.len() < 10);
    }
    (done, state)
}

fn all_goes_well(a: &Action) -> Reply {
    match a {
        Action::ListContributors { .. } => {
            Reply::Contributors(texts(&["carol", "alice", "dave", "erin"]))
        }
        _ => Reply::Done,
    }
}

#[test]
fn event_kinds() {
    assert!(GitHubEvent::from_header(None).is_none());
    let e = GitHubEvent::from_header(Some("pull_request")).unwrap();
    assert_eq!(e.0, "pull_request");
    assert_eq!(handle_github_event(&e), Subject::PullRequest);
    let e = GitHubEvent("pull_request_review".to_string());
    assert_eq!(handle_github_event(&e), Subject::PullRequestReview);
    assert_eq!(handle_github_event(&GitHubEvent("push".to_string())), Subject::Other);
    assert_eq!(handle_github_event(&GitHubEvent(String::new())), Subject::Other);
}

#[test]
fn numbers_in_decimal() {
    assert_eq!(decimal_text(0), "0");
    assert_eq!(decimal_text(7), "7");
    assert_eq!(decimal_text(10), "10");
    assert_eq!(decimal_text(42), "42");
    assert_eq!(decimal_text(1234567890), "1234567890");
    assert_eq!(decimal_text(u64::MAX), "18446744073709551615");
}

#[test]
fn full_names_part_into_owner_and_name() {
    let parts = |full: &str| repository_parts(full);
    assert_eq!(parts("repo-org/repo-name"), Some(("repo-org".to_string(), "repo-name".to_string())));
    assert_eq!(parts("a/b/c"), Some(("a".to_string(), "b".to_string())));
    assert_eq!(parts("/b"), Some((String::new(), "b".to_string())));
    assert_eq!(parts("a/"), Some(("a".to_string(), String::new())));
    assert_eq!(parts("é/ü"), Some(("é".to_string(), "ü".to_string())));
    assert_eq!(parts("ab"), None);
    assert_eq!(parts(""), None);
    let d = Target { repository: "x/y".to_string(), number: 9 }.duplicate();
    assert_eq!((d.repository.as_str(), d.number), ("x/y", 9));
}

#[test]
fn protected_branches() {
    assert!(protected("main"));
    assert!(protected("master"));
    assert!(!protected("dev"));
    assert!(!protected("Main"));
    assert!(!protected(""));
}

#[test]
fn reviewers_are_named_once_in_the_order_they_come() {
    let candidates = texts(&["bob", "carol", "dave", "bob", "carol", "erin", "bob"]);
    assert_eq!(reviewers(&candidates, None), texts(&["bob", "carol", "dave", "erin"]));
    let contributors = texts(&["erin", "carol", "zed"]);
    assert_eq!(reviewers(&candidates, Some(&contributors)), texts(&["carol", "erin"]));
    assert!(reviewers(&candidates, Some(&texts(&[]))).is_empty());
    assert!(reviewers(&texts(&[]), None).is_empty());
}

#[test]
fn opened_into_dev_assigns_requests_and_comments() {
    let m = registry();
    let e = opened("dev");
    let (done, state) = run_pull_request(&m, false, &e, &all_goes_well);
    assert!(matches!(state, PullRequestState::Finished));
    assert_eq!(done.len(), 3);
    match &done[0] {
        Action::AddAssignees { target, assignees } => {
            is_the_pull_request(target);
            assert_eq!(assignees, &texts(&["alice"]));
        }
        _ => panic!("the assignment was expected"),
    }
    match &done[1] {
        Action::RequestReviews { target, reviewers } => {
            is_the_pull_request(target);
            assert_eq!(reviewers, &texts(&["bob", "carol", "dave"]));
        }
        _ => panic!("the request was expected"),
    }
    match &done[2] {
        Action::CreateComment { target, body } => {
            is_the_pull_request(target);
            assert_eq!(
                body,
                "Thanks @alice. Reviews have been requested from the following project managers: @bob, @carol, @dave 😊"
            );
        }
        _ => panic!("the comment was expected"),
    }
}

#[test]
fn opened_into_dev_with_contributors_asks_only_contributors() {
    let m = registry();
    let e = opened("dev");
    let (done, state) = run_pull_request(&m, true, &e, &all_goes_well);
    assert!(matches!(state, PullRequestState::Finished));
    assert_eq!(done.len(), 4);
    match &done[0] {
        Action::ListContributors { repository } => {
            assert_eq!(repository, "repo-org/repo-name");
        }
        _ => panic!("the contributors were expected"),
    }
    assert!(matches!(&done[1], Action::AddAssignees { .. }));
    match &done[2] {
        Action::RequestReviews { reviewers, .. } => {
            assert_eq!(reviewers, &texts(&["carol", "dave"]));
        }
        _ => panic!("the request was expected"),
    }
    match &done[3] {
        Action::CreateComment { body, .. } => assert_eq!(
            body,
            "Thanks @alice. Reviews have been requested from the following project managers: @carol, @dave 😊"
        ),
        _ => panic!("the comment was expected"),
    }
}

#[test]
fn opened_into_main_assigns_and_explains() {
    let m = registry();
    for base in ["main", "master"] {
        let e = opened(base);
        let (done, state) = run_pull_request(&m, false, &e, &all_goes_well);
        assert!(matches!(state, PullRequestState::Finished));
        assert_eq!(done.len(), 2);
        match &done[0] {
            Action::AddAssignees { assignees, .. } => assert_eq!(assignees, &texts(&["alice"])),
            _ => panic!("the assignment was expected"),
        }
        match &done[1] {
            Action::CreateComment { target, body } => {
                is_the_pull_request(target);
                assert_eq!(
                    body,
                    &format!("Thanks @alice. This PR is being merged into {}, so I will not request reviews in case this is an error.", base)
                );
            }
            _ => panic!("the comment was expected"),
        }
        assert!(!done.iter().any(|a| matches!(a, Action::RequestReviews { .. })));
    }
}

#[test]
fn a_refused_request_is_followed_by_the_fallback_comment() {
    let m = registry();
    let e = opened("dev");
    let refuse = |a: &Action| match a {
        Action::RequestReviews { .. } => Reply::Failed,
        _ => Reply::Done,
    };
    let (done, state) = run_pull_request(&m, false, &e, &refuse);
    assert!(matches!(state, PullRequestState::Finished));
    assert_eq!(done.len(), 3);
    match &done[2] {
        Action::CreateComment { body, .. } => assert_eq!(
            body,
            "Thanks @alice. I was unable to automatically assign reviews for this PR. Please add them manually: @bob, @carol, @dave. 😇"
        ),
        _ => panic!("the comment was expected"),
    }
}

#[test]
fn nobody_to_ask_still_requests_and_names_nobody() {
    let mut m = Manifest::default();
    create(&mut m, "C1", "proj1");
    github(&mut m, "C1", "repo-org/repo-name");
    let e = opened("dev");
    let refuse = |a: &Action| match a {
        Action::RequestReviews { reviewers, .. } => {
            assert!(reviewers.is_empty());
            Reply::Failed
        }
        _ => Reply::Done,
    };
    let (done, _) = run_pull_request(&m, false, &e, &refuse);
    match &done[2] {
        Action::CreateComment { body, .. } => assert_eq!(
            body,
            "Thanks @alice. I was unable to automatically assign reviews for this PR. Please add them manually: . 😇"
        ),
        _ => panic!("the comment was expected"),
    }
}

#[test]
fn other_actions_and_untracked_repositories_are_left_alone() {
    let m = registry();
    let mut e = opened("dev");
    e.action = "closed".to_string();
    let (state, action) = handle_pull_request(&m, true, &e);
    assert!(matches!(state, PullRequestState::Finished) && action.is_none());
    let mut e = opened("dev");
    e.repository_full_name = "repo-org/unknown".to_string();
    let (state, action) = handle_pull_request(&m, true, &e);
    assert!(matches!(state, PullRequestState::Finished) && action.is_none());
    for wakes in ["opened", "reopened", "ready_for_review"] {
        let mut e = opened("dev");
        e.action = wakes.to_string();
        let (_, action) = handle_pull_request(&m, false, &e);
        assert!(matches!(action, Some(Action::AddAssignees { .. })));
    }
}

#[test]
fn the_repository_is_named_as_the_event_names_it() {
    let mut m = Manifest::default();
    create(&mut m, "C1", "proj1");
    github(&mut m, "C1", "noslash");
    let mut e = opened("main");
    e.repository_full_name = "noslash".to_string();
    let (done, state) = run_pull_request(&m, false, &e, &all_goes_well);
    assert!(matches!(state, PullRequestState::Finished));
    assert_eq!(done.len(), 2);
    match &done[0] {
        Action::AddAssignees { target, .. } => {
            assert_eq!((target.repository.as_str(), target.number), ("noslash", 42));
        }
        _ => panic!("the assignment was expected"),
    }
    assert!(matches!(&done[1], Action::CreateComment { .. }));
    let mut r = reviewed("main", "approved");
    r.repository_full_name = "noslash".to_string();
    let (done, state) = run_review(&m, &r, &all_goes_well);
    assert!(matches!(state, ReviewState::Finished));
    assert_eq!(done.len(), 1);
    assert!(matches!(&done[0], Action::CreateComment { .. }));
}

#[test]
fn failed_calls_end_in_faults() {
    let m = registry();
    let e = opened("dev");
    let (_, state) = run_pull_request(&m, true, &e, &|_| Reply::Failed);
    assert!(matches!(state, PullRequestState::Faulted(Fault::Contributors)));
    let (done, state) = run_pull_request(&m, false, &e, &|_| Reply::Failed);
    assert!(matches!(state, PullRequestState::Faulted(Fault::Assignment)));
    assert_eq!(done.len(), 1);
    let no_comment = |a: &Action| match a {
        Action::CreateComment { .. } => Reply::Failed,
        _ => Reply::Done,
    };
    let (_, state) = run_pull_request(&m, false, &e, &no_comment);
    assert!(matches!(state, PullRequestState::Faulted(Fault::Comment)));
    let (_, state) = run_pull_request(&m, false, &e, &|_| Reply::Contributors(Vec::new()));
    assert!(matches!(state, PullRequestState::Faulted(Fault::Reply)));
    let (state, action) =
        resume_pull_request(&e, PullRequestState::Faulted(Fault::Comment), Reply::Done);
    assert!(matches!(state, PullRequestState::Faulted(Fault::Comment)) && action.is_none());
    let (state, action) = resume_pull_request(&e, PullRequestState::Finished, Reply::Failed);
    assert!(matches!(state, PullRequestState::Finished) && action.is_none());
}

#[test]
fn approved_into_dev_merges_once_and_confirms_once() {
    let m = registry();
    let e = reviewed("dev", "approved");
    let (done, state) = run_review(&m, &e, &all_goes_well);
    assert!(matches!(state, ReviewState::Finished));
    assert_eq!(done.len(), 2);
    match &done[0] {
        Action::Merge { target, message } => {
            is_the_pull_request(target);
            assert_eq!(message, "🤖 Approved by bob and automatically merged on #42.");
        }
        _ => panic!("the merge was expected"),
    }
    match &done[1] {
        Action::CreateComment { target, body } => {
            is_the_pull_request(target);
            assert_eq!(
                body,
                "Thanks @bob for reviewing. This will now be automatically merged into dev 😊"
            );
        }
        _ => panic!("the comment was expected"),
    }
    assert_eq!(done.iter().filter(|a| matches!(a, Action::Merge { .. })).count(), 1);
    assert_eq!(done.iter().filter(|a| matches!(a, Action::CreateComment { .. })).count(), 1);
}

#[test]
fn approved_into_main_is_never_merged() {
    let m = registry();
    for base in ["main", "master"] {
        let e = reviewed(base, "approved");
        let (done, state) = run_review(&m, &e, &all_goes_well);
        assert!(matches!(state, ReviewState::Finished));
        assert_eq!(done.len(), 1);
        match &done[0] {
            Action::CreateComment { body, .. } => assert_eq!(
                body,
                &format!("Thanks @bob for reviewing. This PR is being merged into {}, so I will not merge automatically in case this is an error.", base)
            ),
            _ => panic!("the comment was expected"),
        }
    }
}

#[test]
fn changes_requested_tags_the_author() {
    let m = registry();
    let e = reviewed("dev", "changes_requested");
    let (done, state) = run_review(&m, &e, &all_goes_well);
    assert!(matches!(state, ReviewState::Finished));
    assert_eq!(done.len(), 1);
    match &done[0] {
        Action::CreateComment { body, .. } => assert_eq!(
            body,
            "Thanks @bob for reviewing. @alice, make sure these changes are made and a review is requested 😄"
        ),
        _ => panic!("the comment was expected"),
    }
}

#[test]
fn other_reviews_are_left_alone() {
    let m = registry();
    let (state, action) = handle_pull_request_review(&m, &reviewed("dev", "commented"));
    assert!(matches!(state, ReviewState::Finished) && action.is_none());
    let mut e = reviewed("dev", "approved");
    e.action = "dismissed".to_string();
    let (state, action) = handle_pull_request_review(&m, &e);
    assert!(matches!(state, ReviewState::Finished) && action.is_none());
    let mut e = reviewed("dev", "approved");
    e.repository_full_name = "repo-org/unknown".to_string();
    let (state, action) = handle_pull_request_review(&m, &e);
    assert!(matches!(state, ReviewState::Finished) && action.is_none());
}

#[test]
fn a_failed_merge_is_a_fault_without_comment() {
    let m = registry();
    let e = reviewed("dev", "approved");
    let (done, state) = run_review(&m, &e, &|_| Reply::Failed);
    assert!(matches!(state, ReviewState::Faulted(Fault::Merge)));
    assert_eq!(done.len(), 1);
    let no_comment = |a: &Action| match a {
        Action::CreateComment { .. } => Reply::Failed,
        _ => Reply::Done,
    };
    let (done, state) = run_review(&m, &e, &no_comment);
    assert!(matches!(state, ReviewState::Faulted(Fault::Comment)));
    assert_eq!(done.len(), 2);
    let (_, state) = run_review(&m, &e, &|_| Reply::Contributors(Vec::new()));
    assert!(matches!(state, ReviewState::Faulted(Fault::Reply)));
}
