//! What to do when a pull request is opened and when one is reviewed.
//!
//! The calls to the code host are not made here. Each reaction is a small
//! machine: it names the next call, is told how the call went, and names the
//! one after it.

use crate::config::{get_project_by_github_repo, Manifest, ManifestView};
use crate::search::{first_from, first_where};
use crate::text::{
    chars_of, copy_texts, framed_pair, holds_text, join, join_texts, joined, keep_texts,
    lemma_without_repeats, same_text, unique_texts, without_repeats,
};
use vstd::prelude::*;
use vstd::string::*;

verus! {

/// The decimal digit `d`.
pub open spec fn digit(d: nat) -> Seq<char> {
    if d == 0 {
        "0"@
    } else if d == 1 {
        "1"@
    } else if d == 2 {
        "2"@
    } else if d == 3 {
        "3"@
    } else if d == 4 {
        "4"@
    } else if d == 5 {
        "5"@
    } else if d == 6 {
        "6"@
    } else if d == 7 {
        "7"@
    } else if d == 8 {
        "8"@
    } else {
        "9"@
    }
}

/// The number `n` written in decimal digits.
pub open spec fn decimal(n: nat) -> Seq<char>
    decreases n,
{
    if n < 10 {
        digit(n)
    } else {
        decimal(n / 10) + digit(n % 10)
    }
}

fn digit_text(d: u64) -> (r: &'static str)
    requires
        d < 10,
    ensures
        r@ == digit(d as nat),
{
    if d == 0 {
        "0"
    } else if d == 1 {
        "1"
    } else if d == 2 {
        "2"
    } else if d == 3 {
        "3"
    } else if d == 4 {
        "4"
    } else if d == 5 {
        "5"
    } else if d == 6 {
        "6"
    } else if d == 7 {
        "7"
    } else if d == 8 {
        "8"
    } else {
        "9"
    }
}

/// The number `n` written in decimal digits.
pub fn decimal_text(n: u64) -> (r: String)
    ensures
        r@ == decimal(n as nat),
    decreases n,
{
    if n < 10 {
        digit_text(n).to_owned()
    } else {
        let mut out = decimal_text(n / 10);
        out.append(digit_text(n % 10));
        out
    }
}

/// A pull request on the code host: the repository by its full name, and
/// the number of the pull request in it.
#[derive(Debug)]
pub struct Target {
    pub repository: String,
    pub number: u64,
}

/// What a `Target` holds, the name as a character sequence.
pub struct TargetView {
    pub repository: Seq<char>,
    pub number: u64,
}

impl View for Target {
    type V = TargetView;

    open spec fn view(&self) -> TargetView {
        TargetView { repository: self.repository@, number: self.number }
    }
}

impl Target {
    /// An owned copy of this target.
    pub fn duplicate(&self) -> (r: Target)
        ensures
            r@ == self@,
    {
        Target { repository: self.repository.clone(), number: self.number }
    }
}

/// The pull request of an event with this repository and number.
pub open spec fn target_of(full: Seq<char>, number: u64) -> TargetView {
    TargetView { repository: full, number }
}

/// Holds of the character that parts owner and name in a repository's full
/// name.
pub open spec fn is_slash() -> spec_fn(char) -> bool {
    |c: char| c == '/'
}

/// The owner and the name in the full name `full` of a repository: what
/// stands before the first `/`, and what stands between it and the next one
/// or the end. A full name without `/` holds neither.
pub open spec fn repo_parts(full: Seq<char>) -> Option<(Seq<char>, Seq<char>)> {
    match first_where(full, is_slash()) {
        None => None,
        Some(i) => {
            let rest = full.skip(i + 1);
            match first_where(rest, is_slash()) {
                Some(j) => Some((full.take(i), rest.take(j))),
                None => Some((full.take(i), rest)),
            }
        },
    }
}

/// A repository's full name parts into owner and name exactly when it
/// holds a `/`.
pub proof fn lemma_repo_parts(full: Seq<char>)
    ensures
        repo_parts(full) is Some <==> full.contains('/'),
{
    crate::search::lemma_first_where_exists(full, is_slash());
    if full.contains('/') {
        let i = choose|i: int| 0 <= i < full.len() && full[i] == '/';
        assert(is_slash()(full[i]));
    }
}

/// Where the first `/` at or after `from` stands in `chars`, or their end.
fn find_slash(chars: &Vec<char>, from: usize) -> (r: usize)
    requires
        from <= chars@.len(),
    ensures
        from <= r <= chars@.len(),
        r < chars@.len() ==> first_from(chars@, is_slash(), from as int) == Some(r as int),
        r == chars@.len() ==> first_from(chars@, is_slash(), from as int) is None,
{
    let mut i = from;
    while i < chars.len() && chars[i] != '/'
        invariant
            from <= i <= chars@.len(),
            first_from(chars@, is_slash(), from as int) == first_from(chars@, is_slash(), i as int),
        decreases chars@.len() - i,
    {
        i += 1;
    }
    i
}

/// A search in what follows the first `k` elements finds what the search
/// from `k` on finds, `k` places earlier.
proof fn lemma_first_from_skip<T>(s: Seq<T>, p: spec_fn(T) -> bool, k: int, from: int)
    requires
        0 <= k <= s.len(),
        0 <= from,
    ensures
        first_from(s.skip(k), p, from) == match first_from(s, p, k + from) {
            Some(i) => Some(i - k),
            None => None,
        },
    decreases s.len() - k - from,
{
    if from < s.len() - k {
        assert(s.skip(k)[from] == s[k + from]);
        if !p(s[k + from]) {
            lemma_first_from_skip(s, p, k, from + 1);
        }
    }
}

/// The owner and the name in the full name `full` of a repository, see
/// `repo_parts`. The code host takes the two apart in its calls.
pub fn repository_parts(full: &str) -> (r: Option<(String, String)>)
    ensures
        match r {
            Some(parts) => repo_parts(full@) == Some((parts.0@, parts.1@)),
            None => repo_parts(full@) is None,
        },
        r is Some <==> full@.contains('/'),
{
    proof {
        lemma_repo_parts(full@);
    }
    let chars = chars_of(full);
    let n = chars.len();
    let i = find_slash(&chars, 0);
    if i == n {
        return None;
    }
    let j = find_slash(&chars, i + 1);
    proof {
        lemma_first_from_skip(full@, is_slash(), i + 1, 0);
        assert(full@.take(i as int) =~= full@.subrange(0, i as int));
        assert(full@.skip(i + 1).take(j - (i + 1)) =~= full@.subrange(i + 1, j as int));
        assert(full@.skip(i + 1) =~= full@.subrange(i + 1, n as int));
    }
    Some((full.substring_char(0, i).to_owned(), full.substring_char(i + 1, j).to_owned()))
}

/// Holds of every text but `author`.
pub open spec fn other_than(author: Seq<char>) -> spec_fn(Seq<char>) -> bool {
    |login: Seq<char>| login != author
}

/// Holds of the texts that `contributors` holds.
pub open spec fn one_of(contributors: Seq<Seq<char>>) -> spec_fn(Seq<char>) -> bool {
    |login: Seq<char>| contributors.contains(login)
}

/// Who may be asked to review a pull request by `author`: the owners of the
/// project, then the managers, but not the author.
pub open spec fn candidates(
    owners: Seq<Seq<char>>,
    managers: Seq<Seq<char>>,
    author: Seq<char>,
) -> Seq<Seq<char>> {
    (owners + managers).filter(other_than(author))
}

/// Who is asked to review: the candidates, only those among `contributors`
/// where the contributors are known, each of them once.
pub open spec fn reviewers_of(
    candidates: Seq<Seq<char>>,
    contributors: Option<Seq<Seq<char>>>,
) -> Seq<Seq<char>> {
    match contributors {
        Some(c) => without_repeats(candidates.filter(one_of(c))),
        None => without_repeats(candidates),
    }
}

/// What a filter keeps is what was there and satisfies the filter.
proof fn lemma_filter_holds(s: Seq<Seq<char>>, p: spec_fn(Seq<char>) -> bool, x: Seq<char>)
    ensures
        s.filter(p).contains(x) <==> s.contains(x) && p(x),
{
    if s.filter(p).contains(x) {
        s.lemma_filter_contains_rev(p, x);
        let i = choose|i: int| 0 <= i < s.filter(p).len() && s.filter(p)[i] == x;
        s.lemma_filter_pred(p, i);
    }
    if s.contains(x) && p(x) {
        let i = choose|i: int| 0 <= i < s.len() && s[i] == x;
        s.lemma_filter_contains(p, i);
    }
}

/// Who is asked to review a pull request: every owner and every manager but
/// the author, and of these, where the contributors are known, those among
/// them; nobody twice.
pub proof fn lemma_reviewers(
    owners: Seq<Seq<char>>,
    managers: Seq<Seq<char>>,
    author: Seq<char>,
    contributors: Option<Seq<Seq<char>>>,
)
    ensures
        reviewers_of(candidates(owners, managers, author), contributors).no_duplicates(),
        forall|x: Seq<char>|
            reviewers_of(candidates(owners, managers, author), contributors).contains(x) <==> (
            owners.contains(x) || managers.contains(x)) && x != author && (
            contributors matches Some(c) ==> c.contains(x)),
{
    let all = owners + managers;
    let others = candidates(owners, managers, author);
    let asked = reviewers_of(others, contributors);
    assert forall|x: Seq<char>|
        asked.contains(x) <==> (owners.contains(x) || managers.contains(x)) && x != author && (
        contributors matches Some(c) ==> c.contains(x)) by {
        assert(all.contains(x) <==> owners.contains(x) || managers.contains(x)) by {
            if owners.contains(x) {
                let i = choose|i: int| 0 <= i < owners.len() && owners[i] == x;
                assert(all[i] == x);
            }
            if managers.contains(x) {
                let i = choose|i: int| 0 <= i < managers.len() && managers[i] == x;
                assert(all[owners.len() + i] == x);
            }
            if all.contains(x) {
                let i = choose|i: int| 0 <= i < all.len() && all[i] == x;
                if i < owners.len() {
                    assert(owners[i] == x);
                } else {
                    assert(managers[i - owners.len()] == x);
                }
            }
        }
        lemma_filter_holds(all, other_than(author), x);
        match contributors {
            Some(c) => {
                lemma_filter_holds(others, one_of(c), x);
                lemma_without_repeats(others.filter(one_of(c)));
            },
            None => {
                lemma_without_repeats(others);
            },
        }
    }
    match contributors {
        Some(c) => {
            lemma_without_repeats(others.filter(one_of(c)));
        },
        None => {
            lemma_without_repeats(others);
        },
    }
}

/// Those of `front` and then of `back` that are not `author`.
fn candidates_among(front: &Vec<String>, back: &Vec<String>, author: &str) -> (r: Vec<String>)
    ensures
        r.deep_view() == candidates(front.deep_view(), back.deep_view(), author@),
{
    let is_other = |login: &str| -> (kept: bool)
        ensures
            kept == other_than(author@)(login@),
        {
            !same_text(login, author)
        };
    let mut out = keep_texts(front, is_other, Ghost(other_than(author@)));
    let mut rest = keep_texts(back, is_other, Ghost(other_than(author@)));
    let ghost first = out.deep_view();
    let ghost second = rest.deep_view();
    out.append(&mut rest);
    proof {
        assert(out.deep_view() =~= first + second);
        Seq::filter_distributes_over_add(
            front.deep_view(),
            back.deep_view(),
            other_than(author@),
        );
    }
    out
}

/// Those of `candidates` that `contributors` holds.
fn contributors_among(candidates: &Vec<String>, contributors: &Vec<String>) -> (r: Vec<String>)
    ensures
        r.deep_view() == candidates.deep_view().filter(one_of(contributors.deep_view())),
{
    let contributes = |login: &str| -> (kept: bool)
        ensures
            kept == one_of(contributors.deep_view())(login@),
        {
            holds_text(contributors, login)
        };
    keep_texts(candidates, contributes, Ghost(one_of(contributors.deep_view())))
}

/// Who is asked to review, see `reviewers_of`.
pub fn reviewers(candidates: &Vec<String>, contributors: Option<&Vec<String>>) -> (r: Vec<String>)
    ensures
        r.deep_view() == reviewers_of(
            candidates.deep_view(),
            match contributors {
                Some(c) => Some(c.deep_view()),
                None => None,
            },
        ),
{
    match contributors {
        Some(c) => unique_texts(contributors_among(candidates, c)),
        None => unique_texts(copy_texts(candidates)),
    }
}

/// What the code host tells of a pull request when something happens to it.
#[derive(Debug)]
pub struct PullRequestEvent {
    pub action: String,
    pub repository_full_name: String,
    pub pr_number: u64,
    pub pr_author: String,
    pub base_branch: String,
    pub head_branch: String,
}

/// What a `PullRequestEvent` holds, the texts as character sequences.
pub struct PullRequestEventView {
    pub action: Seq<char>,
    pub repository_full_name: Seq<char>,
    pub pr_number: u64,
    pub pr_author: Seq<char>,
    pub base_branch: Seq<char>,
    pub head_branch: Seq<char>,
}

impl View for PullRequestEvent {
    type V = PullRequestEventView;

    open spec fn view(&self) -> PullRequestEventView {
        PullRequestEventView {
            action: self.action@,
            repository_full_name: self.repository_full_name@,
            pr_number: self.pr_number,
            pr_author: self.pr_author@,
            base_branch: self.base_branch@,
            head_branch: self.head_branch@,
        }
    }
}

/// What the code host tells of a review when something happens to it: the
/// pull request, the verdict of the review and who gave it.
#[derive(Debug)]
pub struct ReviewEvent {
    pub action: String,
    pub repository_full_name: String,
    pub pr_number: u64,
    pub pr_author: String,
    pub base_branch: String,
    pub review_state: String,
    pub reviewer: String,
}

/// What a `ReviewEvent` holds, the texts as character sequences.
pub struct ReviewEventView {
    pub action: Seq<char>,
    pub repository_full_name: Seq<char>,
    pub pr_number: u64,
    pub pr_author: Seq<char>,
    pub base_branch: Seq<char>,
    pub review_state: Seq<char>,
    pub reviewer: Seq<char>,
}

impl View for ReviewEvent {
    type V = ReviewEventView;

    open spec fn view(&self) -> ReviewEventView {
        ReviewEventView {
            action: self.action@,
            repository_full_name: self.repository_full_name@,
            pr_number: self.pr_number,
            pr_author: self.pr_author@,
            base_branch: self.base_branch@,
            review_state: self.review_state@,
            reviewer: self.reviewer@,
        }
    }
}

/// A call to the code host that the caller is to make.
#[derive(Debug)]
pub enum Action {
    /// Ask who has contributed to the repository.
    ListContributors { repository: String },
    /// Assign the pull request to these users.
    AddAssignees { target: Target, assignees: Vec<String> },
    /// Ask these users to review the pull request.
    RequestReviews { target: Target, reviewers: Vec<String> },
    /// Comment on the pull request.
    CreateComment { target: Target, body: String },
    /// Merge the pull request, with this commit message.
    Merge { target: Target, message: String },
}

/// What an `Action` holds, the texts as character sequences.
pub enum ActionView {
    ListContributors { repository: Seq<char> },
    AddAssignees { target: TargetView, assignees: Seq<Seq<char>> },
    RequestReviews { target: TargetView, reviewers: Seq<Seq<char>> },
    CreateComment { target: TargetView, body: Seq<char> },
    Merge { target: TargetView, message: Seq<char> },
}

impl View for Action {
    type V = ActionView;

    open spec fn view(&self) -> ActionView {
        match self {
            Action::ListContributors { repository } => ActionView::ListContributors {
                repository: repository@,
            },
            Action::AddAssignees { target, assignees } => ActionView::AddAssignees {
                target: target@,
                assignees: assignees.deep_view(),
            },
            Action::RequestReviews { target, reviewers } => ActionView::RequestReviews {
                target: target@,
                reviewers: reviewers.deep_view(),
            },
            Action::CreateComment { target, body } => ActionView::CreateComment {
                target: target@,
                body: body@,
            },
            Action::Merge { target, message } => ActionView::Merge {
                target: target@,
                message: message@,
            },
        }
    }
}

/// The action to take next, if one is left, as character sequences.
pub open spec fn next_action(action: Option<Action>) -> Option<ActionView> {
    match action {
        Some(a) => Some(a@),
        None => None,
    }
}

/// How a call to the code host went.
#[derive(Debug)]
pub enum Reply {
    /// The call was made and this is who has contributed to the repository.
    Contributors(Vec<String>),
    /// The call was made.
    Done,
    /// The call could not be made or the code host turned it down.
    Failed,
}

/// What a `Reply` holds, the texts as character sequences.
pub enum ReplyView {
    Contributors(Seq<Seq<char>>),
    Done,
    Failed,
}

impl View for Reply {
    type V = ReplyView;

    open spec fn view(&self) -> ReplyView {
        match self {
            Reply::Contributors(c) => ReplyView::Contributors(c.deep_view()),
            Reply::Done => ReplyView::Done,
            Reply::Failed => ReplyView::Failed,
        }
    }
}

/// Why a reaction was given up.
#[derive(Clone, Copy, Debug, PartialEq, Eq, Structural)]
pub enum Fault {
    /// The contributors could not be had.
    Contributors,
    /// The pull request could not be assigned.
    Assignment,
    /// The comment could not be posted.
    Comment,
    /// The pull request could not be merged.
    Merge,
    /// The reply does not fit the call that was asked for.
    Reply,
}

/// How far the reaction to an opened pull request has come.
#[derive(Debug)]
pub enum PullRequestState {
    /// The contributors were asked for.
    AwaitingContributors { target: Target, candidates: Vec<String> },
    /// The author is being made the assignee.
    AwaitingAssignment { target: Target, reviewers: Vec<String> },
    /// The reviews are being requested.
    AwaitingReviews { target: Target, reviewers: Vec<String> },
    /// The closing comment is being posted.
    AwaitingComment,
    /// Nothing is left to do.
    Finished,
    /// The reaction was given up.
    Faulted(Fault),
}

/// What a `PullRequestState` holds, the texts as character sequences.
pub enum PullRequestStateView {
    AwaitingContributors { target: TargetView, candidates: Seq<Seq<char>> },
    AwaitingAssignment { target: TargetView, reviewers: Seq<Seq<char>> },
    AwaitingReviews { target: TargetView, reviewers: Seq<Seq<char>> },
    AwaitingComment,
    Finished,
    Faulted(Fault),
}

impl View for PullRequestState {
    type V = PullRequestStateView;

    open spec fn view(&self) -> PullRequestStateView {
        match self {
            PullRequestState::AwaitingContributors {
                target,
                candidates,
            } => PullRequestStateView::AwaitingContributors {
                target: target@,
                candidates: candidates.deep_view(),
            },
            PullRequestState::AwaitingAssignment {
                target,
                reviewers,
            } => PullRequestStateView::AwaitingAssignment {
                target: target@,
                reviewers: reviewers.deep_view(),
            },
            PullRequestState::AwaitingReviews {
                target,
                reviewers,
            } => PullRequestStateView::AwaitingReviews {
                target: target@,
                reviewers: reviewers.deep_view(),
            },
            PullRequestState::AwaitingComment => PullRequestStateView::AwaitingComment,
            PullRequestState::Finished => PullRequestStateView::Finished,
            PullRequestState::Faulted(f) => PullRequestStateView::Faulted(*f),
        }
    }
}

/// How far the reaction to a review has come.
#[derive(Debug)]
pub enum ReviewState {
    /// The pull request is being merged.
    AwaitingMerge { target: Target },
    /// The closing comment is being posted.
    AwaitingComment,
    /// Nothing is left to do.
    Finished,
    /// The reaction was given up.
    Faulted(Fault),
}

/// What a `ReviewState` holds, the texts as character sequences.
pub enum ReviewStateView {
    AwaitingMerge { target: TargetView },
    AwaitingComment,
    Finished,
    Faulted(Fault),
}

impl View for ReviewState {
    type V = ReviewStateView;

    open spec fn view(&self) -> ReviewStateView {
        match self {
            ReviewState::AwaitingMerge { target } => ReviewStateView::AwaitingMerge {
                target: target@,
            },
            ReviewState::AwaitingComment => ReviewStateView::AwaitingComment,
            ReviewState::Finished => ReviewStateView::Finished,
            ReviewState::Faulted(f) => ReviewStateView::Faulted(*f),
        }
    }
}

/// Whether a pull request event with this action calls for an assignee
/// and for reviews.
pub open spec fn asks_for_review(action: Seq<char>) -> bool {
    action == "reopened"@ || action == "opened"@ || action == "ready_for_review"@
}

/// Whether `branch` is protected: nothing is requested or merged
/// automatically for a pull request into it.
pub open spec fn is_protected(branch: Seq<char>) -> bool {
    branch == "master"@ || branch == "main"@
}

/// Whether `branch` is protected.
pub fn protected(branch: &str) -> (r: bool)
    ensures
        r == is_protected(branch@),
{
    same_text(branch, "master") || same_text(branch, "main")
}

/// The `logins`, each as a mention, with commas between them.
pub open spec fn mentions(logins: Seq<Seq<char>>) -> Seq<char> {
    join(logins.map_values(|login: Seq<char>| "@"@ + login), ", "@)
}

pub open spec fn not_requesting_text(author: Seq<char>, base: Seq<char>) -> Seq<char> {
    "Thanks @"@ + author + ". This PR is being merged into "@ + base
        + ", so I will not request reviews in case this is an error."@
}

pub open spec fn requested_text(author: Seq<char>, reviewers: Seq<Seq<char>>) -> Seq<char> {
    "Thanks @"@ + author
        + ". Reviews have been requested from the following project managers: "@ + mentions(
        reviewers,
    ) + " 😊"@
}

pub open spec fn manual_text(author: Seq<char>, reviewers: Seq<Seq<char>>) -> Seq<char> {
    "Thanks @"@ + author
        + ". I was unable to automatically assign reviews for this PR. Please add them manually: "@
        + mentions(reviewers) + ". 😇"@
}

pub open spec fn not_merging_text(reviewer: Seq<char>, base: Seq<char>) -> Seq<char> {
    "Thanks @"@ + reviewer + " for reviewing. This PR is being merged into "@ + base
        + ", so I will not merge automatically in case this is an error."@
}

pub open spec fn merge_message(reviewer: Seq<char>, number: u64) -> Seq<char> {
    "🤖 Approved by "@ + reviewer + " and automatically merged on #"@ + decimal(number as nat)
        + "."@
}

pub open spec fn merged_text(reviewer: Seq<char>, base: Seq<char>) -> Seq<char> {
    "Thanks @"@ + reviewer + " for reviewing. This will now be automatically merged into "@ + base
        + " 😊"@
}

pub open spec fn changes_text(reviewer: Seq<char>, author: Seq<char>) -> Seq<char> {
    "Thanks @"@ + reviewer + " for reviewing. @"@ + author
        + ", make sure these changes are made and a review is requested 😄"@
}

/// The `logins`, each as a mention, with commas between them.
fn mentions_text(logins: &Vec<String>) -> (r: String)
    ensures
        r@ == mentions(logins.deep_view()),
{
    let mut tagged: Vec<String> = Vec::new();
    let mut i: usize = 0;
    while i < logins.len()
        invariant
            i <= logins@.len(),
            tagged@.len() == i,
            forall|k: int| 0 <= k < i ==> (#[trigger] tagged@[k])@ == "@"@ + logins@[k]@,
        decreases logins@.len() - i,
    {
        tagged.push(joined("@", logins[i].as_str()));
        i += 1;
    }
    assert(tagged.deep_view() =~= logins.deep_view().map_values(
        |login: Seq<char>| "@"@ + login,
    ));
    join_texts(&tagged, ", ")
}

/// A comment on `target`, and the wait for it to be posted.
pub open spec fn closing_comment(target: TargetView, body: Seq<char>) -> (
    PullRequestStateView,
    Option<ActionView>,
) {
    (PullRequestStateView::AwaitingComment, Some(ActionView::CreateComment { target, body }))
}

/// Where the reaction to the pull request event `e` starts, with the
/// registry `m`. An event that asks for no review, or one of a repository
/// that no project tracks, is finished at once. Else the contributors are
/// asked for first where `ask_contributors` holds, and else the author is
/// made the assignee.
pub open spec fn pull_request_start(
    m: ManifestView,
    ask_contributors: bool,
    e: PullRequestEventView,
) -> (PullRequestStateView, Option<ActionView>) {
    if !asks_for_review(e.action) {
        (PullRequestStateView::Finished, None)
    } else {
        match m.project_by_repo(e.repository_full_name) {
            None => (PullRequestStateView::Finished, None),
            Some(project) => {
                let target = target_of(e.repository_full_name, e.pr_number);
                let candidates = candidates(project.project_owners, m.managers, e.pr_author);
                if ask_contributors {
                    (
                        PullRequestStateView::AwaitingContributors { target, candidates },
                        Some(ActionView::ListContributors { repository: target.repository }),
                    )
                } else {
                    (
                        PullRequestStateView::AwaitingAssignment {
                            target,
                            reviewers: reviewers_of(candidates, None),
                        },
                        Some(ActionView::AddAssignees { target, assignees: seq![e.pr_author] }),
                    )
                }
            },
        }
    }
}

/// How the reaction to the pull request event `e` goes on from `state` once
/// the call that was asked for is answered by `reply`.
///
/// With the contributors it is settled who is asked to review, and the
/// author is made the assignee. After that the reviews are requested, unless the pull
/// request goes into a protected branch: then a comment says that none are
/// requested. After the request a comment names those who review: as
/// asked where the request went through, and for the author to ask where
/// it did not. A failure of any other call ends the reaction with a fault.
pub open spec fn pull_request_next(
    e: PullRequestEventView,
    state: PullRequestStateView,
    reply: ReplyView,
) -> (PullRequestStateView, Option<ActionView>) {
    match state {
        PullRequestStateView::AwaitingContributors { target, candidates } => match reply {
            ReplyView::Contributors(c) => (
                PullRequestStateView::AwaitingAssignment {
                    target,
                    reviewers: reviewers_of(candidates, Some(c)),
                },
                Some(ActionView::AddAssignees { target, assignees: seq![e.pr_author] }),
            ),
            _ => (PullRequestStateView::Faulted(Fault::Contributors), None),
        },
        PullRequestStateView::AwaitingAssignment { target, reviewers } => match reply {
            ReplyView::Done => if is_protected(e.base_branch) {
                closing_comment(target, not_requesting_text(e.pr_author, e.base_branch))
            } else {
                (
                    PullRequestStateView::AwaitingReviews { target, reviewers },
                    Some(ActionView::RequestReviews { target, reviewers }),
                )
            },
            ReplyView::Failed => (PullRequestStateView::Faulted(Fault::Assignment), None),
            ReplyView::Contributors(_) => (PullRequestStateView::Faulted(Fault::Reply), None),
        },
        PullRequestStateView::AwaitingReviews { target, reviewers } => match reply {
            ReplyView::Done => closing_comment(target, requested_text(e.pr_author, reviewers)),
            ReplyView::Failed => closing_comment(target, manual_text(e.pr_author, reviewers)),
            ReplyView::Contributors(_) => (PullRequestStateView::Faulted(Fault::Reply), None),
        },
        PullRequestStateView::AwaitingComment => match reply {
            ReplyView::Done => (PullRequestStateView::Finished, None),
            ReplyView::Failed => (PullRequestStateView::Faulted(Fault::Comment), None),
            ReplyView::Contributors(_) => (PullRequestStateView::Faulted(Fault::Reply), None),
        },
        PullRequestStateView::Finished => (PullRequestStateView::Finished, None),
        PullRequestStateView::Faulted(f) => (PullRequestStateView::Faulted(f), None),
    }
}

/// The author of the pull request as the one assignee.
fn assign_author(target: Target, event: &PullRequestEvent) -> (r: Action)
    ensures
        r@ == (ActionView::AddAssignees { target: target@, assignees: seq![event@.pr_author] }),
{
    let mut assignees: Vec<String> = Vec::new();
    assignees.push(event.pr_author.clone());
    assert(assignees.deep_view() =~= seq![event@.pr_author]);
    Action::AddAssignees { target, assignees }
}

/// Starts the reaction to a pull request event: tells the first call to
/// make, if any, and what is waited for then.
pub fn handle_pull_request(
    manifest: &Manifest,
    ask_contributors: bool,
    event: &PullRequestEvent,
) -> (r: (PullRequestState, Option<Action>))
    ensures
        (r.0@, next_action(r.1)) == pull_request_start(manifest@, ask_contributors, event@),
{
    let action = event.action.as_str();
    if !(same_text(action, "reopened") || same_text(action, "opened") || same_text(
        action,
        "ready_for_review",
    )) {
        return (PullRequestState::Finished, None);
    }
    let project = match get_project_by_github_repo(manifest, event.repository_full_name.as_str()) {
        Some(project) => project,
        None => {
            return (PullRequestState::Finished, None);
        },
    };
    let target = Target {
        repository: event.repository_full_name.clone(),
        number: event.pr_number,
    };
    let candidates = candidates_among(
        &project.project_owners,
        manifest.managers(),
        event.pr_author.as_str(),
    );
    if ask_contributors {
        let action = Action::ListContributors { repository: target.repository.clone() };
        (PullRequestState::AwaitingContributors { target, candidates }, Some(action))
    } else {
        let reviewers = reviewers(&candidates, None);
        let action = assign_author(target.duplicate(), event);
        (PullRequestState::AwaitingAssignment { target, reviewers }, Some(action))
    }
}

/// A comment on `target`, and the wait for it to be posted.
fn comment(target: Target, body: String) -> (r: (PullRequestState, Option<Action>))
    ensures
        (r.0@, next_action(r.1)) == closing_comment(target@, body@),
{
    (PullRequestState::AwaitingComment, Some(Action::CreateComment { target, body }))
}

/// Goes on with the reaction to a pull request event after the call that
/// was asked for: tells the next call to make, if any, and what is waited
/// for then.
pub fn resume_pull_request(event: &PullRequestEvent, state: PullRequestState, reply: Reply) -> (r:
    (PullRequestState, Option<Action>))
    ensures
        (r.0@, next_action(r.1)) == pull_request_next(event@, state@, reply@),
{
    let author = event.pr_author.as_str();
    match state {
        PullRequestState::AwaitingContributors { target, candidates } => match reply {
            Reply::Contributors(contributors) => {
                let reviewers = reviewers(&candidates, Some(&contributors));
                let action = assign_author(target.duplicate(), event);
                (PullRequestState::AwaitingAssignment { target, reviewers }, Some(action))
            },
            _ => (PullRequestState::Faulted(Fault::Contributors), None),
        },
        PullRequestState::AwaitingAssignment { target, reviewers } => match reply {
            Reply::Done => {
                if protected(event.base_branch.as_str()) {
                    comment(
                        target,
                        framed_pair(
                            "Thanks @",
                            author,
                            ". This PR is being merged into ",
                            event.base_branch.as_str(),
                            ", so I will not request reviews in case this is an error.",
                        ),
                    )
                } else {
                    let action = Action::RequestReviews {
                        target: target.duplicate(),
                        reviewers: copy_texts(&reviewers),
                    };
                    (PullRequestState::AwaitingReviews { target, reviewers }, Some(action))
                }
            },
            Reply::Failed => (PullRequestState::Faulted(Fault::Assignment), None),
            Reply::Contributors(_) => (PullRequestState::Faulted(Fault::Reply), None),
        },
        PullRequestState::AwaitingReviews { target, reviewers } => match reply {
            Reply::Done => {
                let names = mentions_text(&reviewers);
                comment(
                    target,
                    framed_pair(
                        "Thanks @",
                        author,
                        ". Reviews have been requested from the following project managers: ",
                        names.as_str(),
                        " 😊",
                    ),
                )
            },
            Reply::Failed => {
                let names = mentions_text(&reviewers);
                comment(
                    target,
                    framed_pair(
                        "Thanks @",
                        author,
                        ". I was unable to automatically assign reviews for this PR. Please add them manually: ",
                        names.as_str(),
                        ". 😇",
                    ),
                )
            },
            Reply::Contributors(_) => (PullRequestState::Faulted(Fault::Reply), None),
        },
        PullRequestState::AwaitingComment => match reply {
            Reply::Done => (PullRequestState::Finished, None),
            Reply::Failed => (PullRequestState::Faulted(Fault::Comment), None),
            Reply::Contributors(_) => (PullRequestState::Faulted(Fault::Reply), None),
        },
        PullRequestState::Finished => (PullRequestState::Finished, None),
        PullRequestState::Faulted(f) => (PullRequestState::Faulted(f), None),
    }
}

/// Where the reaction to the review event `e` starts, with the registry
/// `m`. Only a submitted review of a pull request in a tracked repository
/// is reacted to. An approval merges the pull request, unless it goes into
/// a protected branch: then a comment says that it is not merged. A review
/// that requests changes gets a comment for the author. Any other verdict
/// is finished at once.
pub open spec fn review_start(m: ManifestView, e: ReviewEventView) -> (
    ReviewStateView,
    Option<ActionView>,
) {
    if e.action != "submitted"@ {
        (ReviewStateView::Finished, None)
    } else {
        match m.project_by_repo(e.repository_full_name) {
            None => (ReviewStateView::Finished, None),
            Some(project) => {
                let target = target_of(e.repository_full_name, e.pr_number);
                if e.review_state == "approved"@ {
                    if is_protected(e.base_branch) {
                        (
                            ReviewStateView::AwaitingComment,
                            Some(
                                ActionView::CreateComment {
                                    target,
                                    body: not_merging_text(e.reviewer, e.base_branch),
                                },
                            ),
                        )
                    } else {
                        (
                            ReviewStateView::AwaitingMerge { target },
                            Some(
                                ActionView::Merge {
                                    target,
                                    message: merge_message(e.reviewer, e.pr_number),
                                },
                            ),
                        )
                    }
                } else if e.review_state == "changes_requested"@ {
                    (
                        ReviewStateView::AwaitingComment,
                        Some(
                            ActionView::CreateComment {
                                target,
                                body: changes_text(e.reviewer, e.pr_author),
                            },
                        ),
                    )
                } else {
                    (ReviewStateView::Finished, None)
                }
            },
        }
    }
}

/// How the reaction to the review event `e` goes on from `state` once the
/// call that was asked for is answered by `reply`: a merge that went
/// through is followed by a comment that says so, and a failure of either
/// call ends the reaction with a fault.
pub open spec fn review_next(e: ReviewEventView, state: ReviewStateView, reply: ReplyView) -> (
    ReviewStateView,
    Option<ActionView>,
) {
    match state {
        ReviewStateView::AwaitingMerge { target } => match reply {
            ReplyView::Done => (
                ReviewStateView::AwaitingComment,
                Some(
                    ActionView::CreateComment {
                        target,
                        body: merged_text(e.reviewer, e.base_branch),
                    },
                ),
            ),
            ReplyView::Failed => (ReviewStateView::Faulted(Fault::Merge), None),
            ReplyView::Contributors(_) => (ReviewStateView::Faulted(Fault::Reply), None),
        },
        ReviewStateView::AwaitingComment => match reply {
            ReplyView::Done => (ReviewStateView::Finished, None),
            ReplyView::Failed => (ReviewStateView::Faulted(Fault::Comment), None),
            ReplyView::Contributors(_) => (ReviewStateView::Faulted(Fault::Reply), None),
        },
        ReviewStateView::Finished => (ReviewStateView::Finished, None),
        ReviewStateView::Faulted(f) => (ReviewStateView::Faulted(f), None),
    }
}

/// Starts the reaction to a review event: tells the first call to make, if
/// any, and what is waited for then.
pub fn handle_pull_request_review(manifest: &Manifest, event: &ReviewEvent) -> (r: (
    ReviewState,
    Option<Action>,
))
    ensures
        (r.0@, next_action(r.1)) == review_start(manifest@, event@),
{
    if !same_text(event.action.as_str(), "submitted") {
        return (ReviewState::Finished, None);
    }
    if get_project_by_github_repo(manifest, event.repository_full_name.as_str()).is_none() {
        return (ReviewState::Finished, None);
    }
    let target = Target {
        repository: event.repository_full_name.clone(),
        number: event.pr_number,
    };
    let reviewer = event.reviewer.as_str();
    let verdict = event.review_state.as_str();
    if same_text(verdict, "approved") {
        if protected(event.base_branch.as_str()) {
            let body = framed_pair(
                "Thanks @",
                reviewer,
                " for reviewing. This PR is being merged into ",
                event.base_branch.as_str(),
                ", so I will not merge automatically in case this is an error.",
            );
            (ReviewState::AwaitingComment, Some(Action::CreateComment { target, body }))
        } else {
            let number = decimal_text(event.pr_number);
            let message = framed_pair(
                "🤖 Approved by ",
                reviewer,
                " and automatically merged on #",
                number.as_str(),
                ".",
            );
            let action = Action::Merge { target: target.duplicate(), message };
            (ReviewState::AwaitingMerge { target }, Some(action))
        }
    } else if same_text(verdict, "changes_requested") {
        let body = framed_pair(
            "Thanks @",
            reviewer,
            " for reviewing. @",
            event.pr_author.as_str(),
            ", make sure these changes are made and a review is requested 😄",
        );
        (ReviewState::AwaitingComment, Some(Action::CreateComment { target, body }))
    } else {
        (ReviewState::Finished, None)
    }
}

/// Goes on with the reaction to a review event after the call that was
/// asked for: tells the next call to make, if any, and what is waited for
/// then.
pub fn resume_pull_request_review(event: &ReviewEvent, state: ReviewState, reply: Reply) -> (r: (
    ReviewState,
    Option<Action>,
))
    ensures
        (r.0@, next_action(r.1)) == review_next(event@, state@, reply@),
{
    match state {
        ReviewState::AwaitingMerge { target } => match reply {
            Reply::Done => {
                let body = framed_pair(
                    "Thanks @",
                    event.reviewer.as_str(),
                    " for reviewing. This will now be automatically merged into ",
                    event.base_branch.as_str(),
                    " 😊",
                );
                (ReviewState::AwaitingComment, Some(Action::CreateComment { target, body }))
            },
            Reply::Failed => (ReviewState::Faulted(Fault::Merge), None),
            Reply::Contributors(_) => (ReviewState::Faulted(Fault::Reply), None),
        },
        ReviewState::AwaitingComment => match reply {
            Reply::Done => (ReviewState::Finished, None),
            Reply::Failed => (ReviewState::Faulted(Fault::Comment), None),
            Reply::Contributors(_) => (ReviewState::Faulted(Fault::Reply), None),
        },
        ReviewState::Finished => (ReviewState::Finished, None),
        ReviewState::Faulted(f) => (ReviewState::Faulted(f), None),
    }
}

/// No reviews are requested for a pull request into a protected branch:
/// the reaction never starts with a request, and never goes on with one
/// where the base branch is protected.
pub proof fn lemma_no_request_into_protected(
    m: ManifestView,
    ask_contributors: bool,
    e: PullRequestEventView,
    state: PullRequestStateView,
    reply: ReplyView,
)
    ensures
        !(pull_request_start(m, ask_contributors, e).1 matches Some(
            ActionView::RequestReviews { .. },
        )),
        is_protected(e.base_branch) ==> !(pull_request_next(e, state, reply).1 matches Some(
            ActionView::RequestReviews { .. },
        )),
{
}

/// No pull request into a protected branch is merged, and none is merged
/// but on an approval: only the start of the reaction ever asks for a
/// merge, and only for an approved pull request into another branch.
pub proof fn lemma_no_merge_into_protected(
    m: ManifestView,
    e: ReviewEventView,
    state: ReviewStateView,
    reply: ReplyView,
)
    ensures
        review_start(m, e).1 matches Some(ActionView::Merge { .. }) ==> !is_protected(
            e.base_branch,
        ) && e.review_state == "approved"@,
        !(review_next(e, state, reply).1 matches Some(ActionView::Merge { .. })),
{
}

/// The reaction to an opened pull request of a tracked repository where
/// every call goes through. Where the contributors are asked for, that is
/// the first call. Then the author is made the assignee. Then, for a base
/// branch that is not protected, the owners and managers other than the
/// author, those among the contributors where these were asked for, are
/// asked to review, and a comment names them; for a protected one a comment
/// says that nobody is asked. After the comment nothing is left to do.
pub proof fn lemma_pull_request_run(
    m: ManifestView,
    e: PullRequestEventView,
    contributors: Option<Seq<Seq<char>>>,
)
    requires
        asks_for_review(e.action),
        m.project_by_repo(e.repository_full_name) is Some,
    ensures
        ({
            let target = target_of(e.repository_full_name, e.pr_number);
            let project = m.project_by_repo(e.repository_full_name)->0;
            let asked = reviewers_of(
                candidates(project.project_owners, m.managers, e.pr_author),
                contributors,
            );
            let begun = pull_request_start(m, contributors is Some, e);
            let first = match contributors {
                Some(c) => pull_request_next(e, begun.0, ReplyView::Contributors(c)),
                None => begun,
            };
            let second = pull_request_next(e, first.0, ReplyView::Done);
            let third = pull_request_next(e, second.0, ReplyView::Done);
            let fourth = pull_request_next(e, third.0, ReplyView::Done);
            &&& contributors is Some ==> begun.1 == Some(
                ActionView::ListContributors { repository: e.repository_full_name },
            )
            &&& first.1 == Some(ActionView::AddAssignees { target, assignees: seq![e.pr_author] })
            &&& is_protected(e.base_branch) ==> {
                &&& second.1 == Some(
                    ActionView::CreateComment {
                        target,
                        body: not_requesting_text(e.pr_author, e.base_branch),
                    },
                )
                &&& third == (PullRequestStateView::Finished, None::<ActionView>)
            }
            &&& !is_protected(e.base_branch) ==> {
                &&& second.1 == Some(ActionView::RequestReviews { target, reviewers: asked })
                &&& third.1 == Some(
                    ActionView::CreateComment { target, body: requested_text(e.pr_author, asked) },
                )
                &&& fourth == (PullRequestStateView::Finished, None::<ActionView>)
            }
        }),
{
}

/// The reaction to an approval of a pull request of a tracked repository,
/// where every call goes through: for a base branch that is not protected
/// the pull request is merged, a comment says so, and nothing is left to
/// do; for a protected one the only call is a comment that says that the
/// pull request is not merged.
pub proof fn lemma_approval_run(m: ManifestView, e: ReviewEventView)
    requires
        e.action == "submitted"@,
        e.review_state == "approved"@,
        m.project_by_repo(e.repository_full_name) is Some,
    ensures
        ({
            let target = target_of(e.repository_full_name, e.pr_number);
            let first = review_start(m, e);
            let second = review_next(e, first.0, ReplyView::Done);
            let third = review_next(e, second.0, ReplyView::Done);
            &&& is_protected(e.base_branch) ==> {
                &&& first.1 == Some(
                    ActionView::CreateComment {
                        target,
                        body: not_merging_text(e.reviewer, e.base_branch),
                    },
                )
                &&& second == (ReviewStateView::Finished, None::<ActionView>)
            }
            &&& !is_protected(e.base_branch) ==> {
                &&& first.1 == Some(
                    ActionView::Merge { target, message: merge_message(e.reviewer, e.pr_number) },
                )
                &&& second.1 == Some(
                    ActionView::CreateComment {
                        target,
                        body: merged_text(e.reviewer, e.base_branch),
                    },
                )
                &&& third == (ReviewStateView::Finished, None::<ActionView>)
            }
        }),
{
}

} // verus!
