//! The registry: projects, profiles and managers, with the lookups over them.

use crate::search::{
    first_from, first_where, lemma_first_from_is, lemma_first_from_none, lemma_first_from_some,
    lemma_first_where_exists,
};
use crate::text::{
    chars_of, is_text, lemma_without_repeats, lemma_without_repeats_same, position_of, same_text,
    unique_texts, without_repeats,
};
use vstd::prelude::*;
use vstd::string::*;

verus! {

/// A tracked unit of work: a chat channel, an optional repository, the owners
/// who review its pull requests, and an optional issue tracker key.
#[derive(Clone, Debug)]
pub struct Project {
    pub slack_channel: String,
    pub github_repo: Option<String>,
    pub project_owners: Vec<String>,
    pub jira_project: Option<String>,
}

/// What a `Project` holds, as character sequences.
pub struct ProjectView {
    pub slack_channel: Seq<char>,
    pub github_repo: Option<Seq<char>>,
    pub project_owners: Seq<Seq<char>>,
    pub jira_project: Option<Seq<char>>,
}

impl View for Project {
    type V = ProjectView;

    open spec fn view(&self) -> ProjectView {
        ProjectView {
            slack_channel: self.slack_channel@,
            github_repo: self.github_repo.deep_view(),
            project_owners: self.project_owners.deep_view(),
            jira_project: self.jira_project.deep_view(),
        }
    }
}

/// The code host username that a chat user has linked.
#[derive(Clone, Debug)]
pub struct Profile {
    pub github_username: String,
}

/// What a `Profile` holds, as a character sequence.
pub struct ProfileView {
    pub github_username: Seq<char>,
}

impl View for Profile {
    type V = ProfileView;

    open spec fn view(&self) -> ProfileView {
        ProfileView { github_username: self.github_username@ }
    }
}

/// The registry. Projects are kept by name and profiles by chat user id, each
/// in the order in which they were first entered.
#[derive(Clone, Debug)]
pub struct Manifest {
    projects: Vec<(String, Project)>,
    managers: Vec<String>,
    configured_project: String,
    profiles: Vec<(String, Profile)>,
}

/// What a `Manifest` holds: the projects with their names and the profiles
/// with their chat user ids, in order, the managers, and the default project.
pub struct ManifestView {
    pub projects: Seq<(Seq<char>, ProjectView)>,
    pub managers: Seq<Seq<char>>,
    pub configured_project: Seq<char>,
    pub profiles: Seq<(Seq<char>, ProfileView)>,
}

/// Holds of the project called `name`.
pub open spec fn project_named(name: Seq<char>) -> spec_fn((Seq<char>, ProjectView)) -> bool {
    |e: (Seq<char>, ProjectView)| e.0 == name
}

/// Holds of the projects bound to `channel`.
pub open spec fn project_in_channel(channel: Seq<char>) -> spec_fn(
    (Seq<char>, ProjectView),
) -> bool {
    |e: (Seq<char>, ProjectView)| e.1.slack_channel == channel
}

/// Holds of the projects whose repository is `repo`.
pub open spec fn project_with_repo(repo: Seq<char>) -> spec_fn((Seq<char>, ProjectView)) -> bool {
    |e: (Seq<char>, ProjectView)| e.1.github_repo == Some(repo)
}

/// Holds of the projects whose issue tracker key is `key`.
pub open spec fn project_with_tracker(key: Seq<char>) -> spec_fn(
    (Seq<char>, ProjectView),
) -> bool {
    |e: (Seq<char>, ProjectView)| tracker_key(e.1.jira_project) == key
}

/// Holds of the profile of chat user `id`.
pub open spec fn profile_of(id: Seq<char>) -> spec_fn((Seq<char>, ProfileView)) -> bool {
    |e: (Seq<char>, ProfileView)| e.0 == id
}

/// Holds of the profiles that name `username`.
pub open spec fn profile_naming(username: Seq<char>) -> spec_fn(
    (Seq<char>, ProfileView),
) -> bool {
    |e: (Seq<char>, ProfileView)| e.1.github_username == username
}

/// Holds of the character that parts the user id from the name in a mention.
pub open spec fn is_bar() -> spec_fn(char) -> bool {
    |c: char| c == '|'
}

impl ManifestView {
    /// The project names, in order.
    pub open spec fn project_names(self) -> Seq<Seq<char>> {
        self.projects.map_values(|e: (Seq<char>, ProjectView)| e.0)
    }

    /// The chat user ids that have a profile, in order.
    pub open spec fn profile_ids(self) -> Seq<Seq<char>> {
        self.profiles.map_values(|e: (Seq<char>, ProfileView)| e.0)
    }

    /// No project name and no chat user id occurs twice, and no project
    /// lists an owner twice.
    pub open spec fn wf(self) -> bool {
        &&& self.project_names().no_duplicates()
        &&& self.profile_ids().no_duplicates()
        &&& forall|i: int|
            0 <= i < self.projects.len() ==> (#[trigger] self.projects[i]).1.project_owners.no_duplicates()
    }

    /// Where the project called `name` stands.
    pub open spec fn project_index(self, name: Seq<char>) -> Option<int> {
        first_where(self.projects, project_named(name))
    }

    /// The project called `name`.
    pub open spec fn project(self, name: Seq<char>) -> Option<ProjectView> {
        match self.project_index(name) {
            Some(i) => Some(self.projects[i].1),
            None => None,
        }
    }

    /// Whether a project is called `name`.
    pub open spec fn has_project(self, name: Seq<char>) -> bool {
        self.project_index(name) is Some
    }

    /// Where the first project bound to `channel` stands.
    pub open spec fn channel_index(self, channel: Seq<char>) -> Option<int> {
        first_where(self.projects, project_in_channel(channel))
    }

    /// The first project bound to `channel`.
    pub open spec fn project_by_channel(self, channel: Seq<char>) -> Option<ProjectView> {
        match self.channel_index(channel) {
            Some(i) => Some(self.projects[i].1),
            None => None,
        }
    }

    /// The name of the first project bound to `channel`.
    pub open spec fn project_name_by_channel(self, channel: Seq<char>) -> Option<Seq<char>> {
        match self.channel_index(channel) {
            Some(i) => Some(self.projects[i].0),
            None => None,
        }
    }

    /// The first project whose repository is `repo`. A project without a
    /// repository is never found.
    pub open spec fn project_by_repo(self, repo: Seq<char>) -> Option<ProjectView> {
        match first_where(
            self.projects,
            project_with_repo(repo),
        ) {
            Some(i) => Some(self.projects[i].1),
            None => None,
        }
    }

    /// The first project whose issue tracker key is `key`. A project without
    /// one answers to the empty key.
    pub open spec fn project_by_jira(self, key: Seq<char>) -> Option<ProjectView> {
        match first_where(
            self.projects,
            project_with_tracker(key),
        ) {
            Some(i) => Some(self.projects[i].1),
            None => None,
        }
    }

    /// Where the profile of chat user `id` stands.
    pub open spec fn profile_index(self, id: Seq<char>) -> Option<int> {
        first_where(self.profiles, profile_of(id))
    }

    /// The profile of chat user `id`.
    pub open spec fn profile(self, id: Seq<char>) -> Option<ProfileView> {
        match self.profile_index(id) {
            Some(i) => Some(self.profiles[i].1),
            None => None,
        }
    }

    /// Where the first profile that names `username` stands.
    pub open spec fn username_index(self, username: Seq<char>) -> Option<int> {
        first_where(
            self.profiles,
            profile_naming(username),
        )
    }

    /// The first profile that names `username`.
    pub open spec fn profile_by_username(self, username: Seq<char>) -> Option<ProfileView> {
        match self.username_index(username) {
            Some(i) => Some(self.profiles[i].1),
            None => None,
        }
    }

    /// The chat user of the first profile that names `username`.
    pub open spec fn chat_user_by_username(self, username: Seq<char>) -> Option<Seq<char>> {
        match self.username_index(username) {
            Some(i) => Some(self.profiles[i].0),
            None => None,
        }
    }

    /// The profile that a mention token points to.
    pub open spec fn profile_by_mention(self, token: Seq<char>) -> Option<ProfileView> {
        match mention_user_id(token) {
            Some(id) => self.profile(id),
            None => None,
        }
    }

    /// The registry with `project` entered under `name`: in the place of the
    /// project of that name if there is one, else at the end.
    pub open spec fn with_project(self, name: Seq<char>, project: ProjectView) -> ManifestView {
        match self.project_index(name) {
            Some(i) => ManifestView { projects: self.projects.update(i, (name, project)), ..self },
            None => ManifestView { projects: self.projects.push((name, project)), ..self },
        }
    }

    /// The registry without the project called `name`.
    pub open spec fn without_project(self, name: Seq<char>) -> ManifestView {
        match self.project_index(name) {
            Some(i) => ManifestView { projects: self.projects.remove(i), ..self },
            None => self,
        }
    }

    /// The registry with `profile` entered for chat user `id`: in the place
    /// of that user's profile if there is one, else at the end.
    pub open spec fn with_profile(self, id: Seq<char>, profile: ProfileView) -> ManifestView {
        match self.profile_index(id) {
            Some(i) => ManifestView { profiles: self.profiles.update(i, (id, profile)), ..self },
            None => ManifestView { profiles: self.profiles.push((id, profile)), ..self },
        }
    }
}

/// The key under which a project is found by issue tracker.
pub open spec fn tracker_key(jira_project: Option<Seq<char>>) -> Seq<char> {
    match jira_project {
        Some(k) => k,
        None => Seq::empty(),
    }
}

/// The user id inside a mention token `<@ID>` or `<@ID|name>`: what stands
/// between `<@` and the first `|`, or the closing `>` where there is no `|`.
/// A token of another shape holds none.
pub open spec fn mention_user_id(token: Seq<char>) -> Option<Seq<char>> {
    if token.len() >= 3 && token[0] == '<' && token[1] == '@' && token.last() == '>' {
        let inner = token.subrange(2, token.len() - 1);
        match first_where(inner, is_bar()) {
            Some(i) => Some(inner.take(i)),
            None => Some(inner),
        }
    } else {
        None
    }
}

/// The project `p` with each of its owners listed once, where it first
/// stands.
pub open spec fn each_owner_once(p: ProjectView) -> ProjectView {
    ProjectView { project_owners: without_repeats(p.project_owners), ..p }
}

/// `owners` without `owner`.
pub open spec fn without_owner(owners: Seq<Seq<char>>, owner: Seq<char>) -> Seq<Seq<char>> {
    match first_where(owners, is_text(owner)) {
        Some(i) => owners.remove(i),
        None => owners,
    }
}

/// The entries of a list with their keys and values as views.
pub open spec fn entry_views<T: View>(entries: Seq<(String, T)>) -> Seq<(Seq<char>, T::V)> {
    Seq::new(entries.len(), |i: int| (entries[i].0@, entries[i].1@))
}

impl View for Manifest {
    type V = ManifestView;

    closed spec fn view(&self) -> ManifestView {
        ManifestView {
            projects: entry_views(self.projects@),
            managers: self.managers.deep_view(),
            configured_project: self.configured_project@,
            profiles: entry_views(self.profiles@),
        }
    }
}

/// Where the first entry that `test` accepts stands in `entries`. What
/// `test` decides of an entry is what `p` says of its view.
fn find_entry<T: View, F: Fn(&str, &T) -> bool>(
    entries: &Vec<(String, T)>,
    test: F,
    Ghost(p): Ghost<spec_fn((Seq<char>, T::V)) -> bool>,
) -> (r: Option<usize>)
    requires
        forall|key: &str, value: &T| call_requires(test, (key, value)),
        forall|key: &str, value: &T, found: bool|
            call_ensures(test, (key, value), found) ==> found == p((key@, value@)),
    ensures
        match r {
            Some(i) => i < entries@.len() && first_where(entry_views(entries@), p) == Some(
                i as int,
            ),
            None => first_where(entry_views(entries@), p) is None,
        },
{
    let mut i: usize = 0;
    while i < entries.len()
        invariant
            i <= entries@.len(),
            forall|key: &str, value: &T| call_requires(test, (key, value)),
            forall|key: &str, value: &T, found: bool|
                call_ensures(test, (key, value), found) ==> found == p((key@, value@)),
            first_from(entry_views(entries@), p, 0) == first_from(
                entry_views(entries@),
                p,
                i as int,
            ),
        decreases entries@.len() - i,
    {
        if test(entries[i].0.as_str(), &entries[i].1) {
            return Some(i);
        }
        i += 1;
    }
    None
}

/// A project bound to `channel` that has no repository, no owner and no
/// issue tracker key yet.
pub open spec fn fresh_project(channel: Seq<char>) -> ProjectView {
    ProjectView {
        slack_channel: channel,
        github_repo: None,
        project_owners: Seq::empty(),
        jira_project: None,
    }
}

/// The registry of a first run: no project, manager or profile.
pub open spec fn fresh_manifest() -> ManifestView {
    ManifestView {
        projects: Seq::empty(),
        managers: Seq::empty(),
        configured_project: "amcwb/ctrl"@,
        profiles: Seq::empty(),
    }
}

impl Project {
    /// A project bound to `slack_channel` and nothing else.
    pub fn new(slack_channel: &str) -> (r: Project)
        ensures
            r@ == fresh_project(slack_channel@),
    {
        let r = Project {
            slack_channel: slack_channel.to_owned(),
            github_repo: None,
            project_owners: Vec::new(),
            jira_project: None,
        };
        assert(r@.project_owners =~= Seq::empty());
        r
    }
}

impl Default for Manifest {
    fn default() -> (r: Manifest)
        ensures
            r@ == fresh_manifest(),
            r.wf(),
    {
        let r = Manifest {
            projects: Vec::new(),
            managers: Vec::new(),
            configured_project: "amcwb/ctrl".to_owned(),
            profiles: Vec::new(),
        };
        assert(r@.projects =~= Seq::empty());
        assert(r@.profiles =~= Seq::empty());
        assert(r@.managers =~= Seq::empty());
        r
    }
}

impl Manifest {
    /// The invariant of the registry, see `ManifestView::wf`.
    pub open spec fn wf(&self) -> bool {
        self@.wf()
    }

    /// The managers: they review for every project, beside its own owners.
    pub fn managers(&self) -> (r: &Vec<String>)
        ensures
            r.deep_view() == self@.managers,
    {
        &self.managers
    }

    /// Replaces the managers.
    pub fn set_managers(&mut self, managers: Vec<String>)
        ensures
            final(self)@ == (ManifestView { managers: managers.deep_view(), ..old(self)@ }),
            old(self).wf() ==> final(self).wf(),
    {
        self.managers = managers;
    }

    /// The name of the default project.
    pub fn configured_project(&self) -> (r: &str)
        ensures
            r@ == self@.configured_project,
    {
        self.configured_project.as_str()
    }

    /// Replaces the name of the default project.
    pub fn set_configured_project(&mut self, name: &str)
        ensures
            final(self)@ == (ManifestView { configured_project: name@, ..old(self)@ }),
            old(self).wf() ==> final(self).wf(),
    {
        self.configured_project = name.to_owned();
    }

    /// How many projects the registry holds.
    pub fn project_count(&self) -> (r: usize)
        ensures
            r == self@.projects.len(),
    {
        self.projects.len()
    }

    /// The name of the project at `i`.
    pub fn project_name_at(&self, i: usize) -> (r: &str)
        requires
            i < self@.projects.len(),
        ensures
            r@ == self@.projects[i as int].0,
    {
        self.projects[i].0.as_str()
    }

    /// The project at `i`.
    pub fn project_at(&self, i: usize) -> (r: &Project)
        requires
            i < self@.projects.len(),
        ensures
            r@ == self@.projects[i as int].1,
    {
        &self.projects[i].1
    }

    /// How many profiles the registry holds.
    pub fn profile_count(&self) -> (r: usize)
        ensures
            r == self@.profiles.len(),
    {
        self.profiles.len()
    }

    /// The chat user id of the profile at `i`.
    pub fn profile_id_at(&self, i: usize) -> (r: &str)
        requires
            i < self@.profiles.len(),
        ensures
            r@ == self@.profiles[i as int].0,
    {
        self.profiles[i].0.as_str()
    }

    /// The profile at `i`.
    pub fn profile_at(&self, i: usize) -> (r: &Profile)
        requires
            i < self@.profiles.len(),
        ensures
            r@ == self@.profiles[i as int].1,
    {
        &self.profiles[i].1
    }

    /// Where the project called `name` stands in the list.
    fn find_project(&self, name: &str) -> (r: Option<usize>)
        ensures
            match r {
                Some(i) => self@.project_index(name@) == Some(i as int) && i < self.projects@.len(),
                None => self@.project_index(name@) is None,
            },
    {
        let by_name = |key: &str, _project: &Project| -> (found: bool)
            ensures
                found == (key@ == name@),
            {
                same_text(key, name)
            };
        find_entry(&self.projects, by_name, Ghost(project_named(name@)))
    }

    /// Where the first project bound to `channel` stands in the list.
    fn find_channel(&self, channel: &str) -> (r: Option<usize>)
        ensures
            match r {
                Some(i) => self@.channel_index(channel@) == Some(i as int) && i
                    < self.projects@.len(),
                None => self@.channel_index(channel@) is None,
            },
    {
        let in_channel = |_key: &str, project: &Project| -> (found: bool)
            ensures
                found == (project.slack_channel@ == channel@),
            {
                same_text(project.slack_channel.as_str(), channel)
            };
        find_entry(&self.projects, in_channel, Ghost(project_in_channel(channel@)))
    }

    /// Where the profile of chat user `id` stands in the list.
    fn find_profile(&self, id: &str) -> (r: Option<usize>)
        ensures
            match r {
                Some(i) => self@.profile_index(id@) == Some(i as int) && i < self.profiles@.len(),
                None => self@.profile_index(id@) is None,
            },
    {
        let by_id = |key: &str, _profile: &Profile| -> (found: bool)
            ensures
                found == (key@ == id@),
            {
                same_text(key, id)
            };
        find_entry(&self.profiles, by_id, Ghost(profile_of(id@)))
    }

    /// Where the first profile that names `username` stands in the list.
    fn find_username(&self, username: &str) -> (r: Option<usize>)
        ensures
            match r {
                Some(i) => self@.username_index(username@) == Some(i as int) && i
                    < self.profiles@.len(),
                None => self@.username_index(username@) is None,
            },
    {
        let naming = |_key: &str, profile: &Profile| -> (found: bool)
            ensures
                found == (profile.github_username@ == username@),
            {
                same_text(profile.github_username.as_str(), username)
            };
        find_entry(&self.profiles, naming, Ghost(profile_naming(username@)))
    }
}

/// The profile of the chat user `slack_id`.
pub fn get_user_by_slack_id<'a>(manifest: &'a Manifest, slack_id: &str) -> (r: Option<&'a Profile>)
    ensures
        match r {
            Some(p) => manifest@.profile(slack_id@) == Some(p@),
            None => manifest@.profile(slack_id@) is None,
        },
{
    match manifest.find_profile(slack_id) {
        Some(i) => Some(&manifest.profiles[i].1),
        None => None,
    }
}

/// The first profile that names `github_username`.
pub fn get_user_by_github_username<'a>(manifest: &'a Manifest, github_username: &str) -> (r:
    Option<&'a Profile>)
    ensures
        match r {
            Some(p) => manifest@.profile_by_username(github_username@) == Some(p@),
            None => manifest@.profile_by_username(github_username@) is None,
        },
{
    match manifest.find_username(github_username) {
        Some(i) => Some(&manifest.profiles[i].1),
        None => None,
    }
}

/// The chat user of the first profile that names `github_username`.
pub fn get_slack_by_github_username<'a>(manifest: &'a Manifest, github_username: &str) -> (r:
    Option<&'a str>)
    ensures
        match r {
            Some(id) => manifest@.chat_user_by_username(github_username@) == Some(id@),
            None => manifest@.chat_user_by_username(github_username@) is None,
        },
{
    match manifest.find_username(github_username) {
        Some(i) => Some(manifest.profiles[i].0.as_str()),
        None => None,
    }
}

/// The name of the first project bound to `slack_channel`.
pub fn get_project_name_by_slack_channel<'a>(manifest: &'a Manifest, slack_channel: &str) -> (r:
    Option<&'a str>)
    ensures
        match r {
            Some(name) => manifest@.project_name_by_channel(slack_channel@) == Some(name@),
            None => manifest@.project_name_by_channel(slack_channel@) is None,
        },
{
    match manifest.find_channel(slack_channel) {
        Some(i) => Some(manifest.projects[i].0.as_str()),
        None => None,
    }
}

/// The first project bound to `slack_channel`.
pub fn get_project_by_slack_channel<'a>(manifest: &'a Manifest, slack_channel: &str) -> (r:
    Option<&'a Project>)
    ensures
        match r {
            Some(p) => manifest@.project_by_channel(slack_channel@) == Some(p@),
            None => manifest@.project_by_channel(slack_channel@) is None,
        },
        r matches Some(p) ==> p@.slack_channel == slack_channel@,
        r is Some <==> exists|i: int|
            0 <= i < manifest@.projects.len() && (#[trigger] manifest@.projects[i]).1.slack_channel
                == slack_channel@,
{
    proof {
        lemma_project_by_channel(manifest@, slack_channel@);
    }
    match manifest.find_channel(slack_channel) {
        Some(i) => Some(&manifest.projects[i].1),
        None => None,
    }
}

/// The first project whose repository is `github_repo`.
pub fn get_project_by_github_repo<'a>(manifest: &'a Manifest, github_repo: &str) -> (r: Option<
    &'a Project,
>)
    ensures
        match r {
            Some(p) => manifest@.project_by_repo(github_repo@) == Some(p@),
            None => manifest@.project_by_repo(github_repo@) is None,
        },
{
    let with_repo = |_key: &str, project: &Project| -> (found: bool)
        ensures
            found == (project@.github_repo == Some(github_repo@)),
        {
            match &project.github_repo {
                Some(repo) => same_text(repo.as_str(), github_repo),
                None => false,
            }
        };
    match find_entry(&manifest.projects, with_repo, Ghost(project_with_repo(github_repo@))) {
        Some(i) => Some(&manifest.projects[i].1),
        None => None,
    }
}

/// The first project whose issue tracker key is `jira_project`.
pub fn get_project_by_jira_project<'a>(manifest: &'a Manifest, jira_project: &str) -> (r: Option<
    &'a Project,
>)
    ensures
        match r {
            Some(p) => manifest@.project_by_jira(jira_project@) == Some(p@),
            None => manifest@.project_by_jira(jira_project@) is None,
        },
{
    let with_tracker = |_key: &str, project: &Project| -> (found: bool)
        ensures
            found == (tracker_key(project@.jira_project) == jira_project@),
        {
            assert(jira_project@.len() == 0 <==> jira_project@ =~= Seq::<char>::empty());
            match &project.jira_project {
                Some(tracker) => same_text(tracker.as_str(), jira_project),
                None => jira_project.is_empty(),
            }
        };
    match find_entry(&manifest.projects, with_tracker, Ghost(project_with_tracker(jira_project@))) {
        Some(i) => Some(&manifest.projects[i].1),
        None => None,
    }
}

/// The project called `project_name`.
pub fn get_project_by_name<'a>(manifest: &'a Manifest, project_name: &str) -> (r: Option<
    &'a Project,
>)
    ensures
        match r {
            Some(p) => manifest@.project(project_name@) == Some(p@),
            None => manifest@.project(project_name@) is None,
        },
{
    match manifest.find_project(project_name) {
        Some(i) => Some(&manifest.projects[i].1),
        None => None,
    }
}

/// The user id inside a mention token, see `mention_user_id`.
pub fn parse_mention<'a>(token: &'a str) -> (r: Option<&'a str>)
    ensures
        match r {
            Some(id) => mention_user_id(token@) == Some(id@),
            None => mention_user_id(token@) is None,
        },
{
    let chars = chars_of(token);
    let n = chars.len();
    if n < 3 || chars[0] != '<' || chars[1] != '@' || chars[n - 1] != '>' {
        return None;
    }
    let ghost inner = token@.subrange(2, n - 1);
    let ghost p = is_bar();
    let mut end: usize = 2;
    while end < n - 1 && chars[end] != '|'
        invariant
            p == is_bar(),
            2 <= end <= n - 1,
            n == chars@.len(),
            chars@ == token@,
            inner == token@.subrange(2, n - 1),
            first_from(inner, p, 0) == first_from(inner, p, end - 2),
        decreases n - end,
    {
        end += 1;
    }
    let id = token.substring_char(2, end);
    proof {
        if end < n - 1 {
            assert(inner.take(end - 2) =~= token@.subrange(2, end as int));
        } else {
            assert(inner =~= token@.subrange(2, end as int));
        }
    }
    Some(id)
}

/// The profile that the mention token `slack_mention` points to: that of the
/// user whose id stands in the token. A token of another shape points to none.
pub fn get_user_by_slack_mention<'a>(manifest: &'a Manifest, slack_mention: &str) -> (r: Option<
    &'a Profile,
>)
    ensures
        match r {
            Some(p) => manifest@.profile_by_mention(slack_mention@) == Some(p@),
            None => manifest@.profile_by_mention(slack_mention@) is None,
        },
{
    match parse_mention(slack_mention) {
        Some(id) => get_user_by_slack_id(manifest, id),
        None => None,
    }
}

/// Links the chat user `slack_id` to `github_username`, in place of an
/// earlier link of that user.
pub fn set_user_github_username(manifest: &mut Manifest, slack_id: &str, github_username: &str)
    requires
        old(manifest).wf(),
    ensures
        final(manifest).wf(),
        final(manifest)@ == old(manifest)@.with_profile(
            slack_id@,
            ProfileView { github_username: github_username@ },
        ),
{
    let profile = Profile { github_username: github_username.to_owned() };
    let ghost entry = (slack_id@, ProfileView { github_username: github_username@ });
    match manifest.find_profile(slack_id) {
        Some(i) => {
            proof {
                lemma_first_from_some(manifest@.profiles, profile_of(slack_id@), 0);
            }
            manifest.profiles[i].1 = profile;
            assert(manifest@.profiles =~= old(manifest)@.profiles.update(i as int, entry));
        },
        None => {
            manifest.profiles.push((slack_id.to_owned(), profile));
            assert(manifest@.profiles =~= old(manifest)@.profiles.push(entry));
        },
    }
    proof {
        lemma_with_profile(old(manifest)@, entry.0, entry.1);
    }
}

impl ManifestView {
    /// The registry with `repo` as the repository of the project called `name`.
    pub open spec fn with_repo(self, name: Seq<char>, repo: Seq<char>) -> ManifestView {
        match self.project(name) {
            Some(p) => self.with_project(name, ProjectView { github_repo: Some(repo), ..p }),
            None => self,
        }
    }

    /// The registry with `owner` added at the end of the owners of the
    /// project called `name`, unless it is one of them already.
    pub open spec fn with_owner(self, name: Seq<char>, owner: Seq<char>) -> ManifestView {
        match self.project(name) {
            Some(p) => if p.project_owners.contains(owner) {
                self
            } else {
                self.with_project(
                    name,
                    ProjectView { project_owners: p.project_owners.push(owner), ..p },
                )
            },
            None => self,
        }
    }

    /// The registry with `owner` taken out of the owners of the project
    /// called `name`.
    pub open spec fn with_owner_removed(self, name: Seq<char>, owner: Seq<char>) -> ManifestView {
        match self.project(name) {
            Some(p) => if p.project_owners.contains(owner) {
                self.with_project(
                    name,
                    ProjectView { project_owners: without_owner(p.project_owners, owner), ..p },
                )
            } else {
                self
            },
            None => self,
        }
    }
}

impl Manifest {
    /// Enters `project` under `name`, in place of an earlier project of that
    /// name. An owner that the project lists more than once is entered
    /// once, where it first stands.
    pub fn insert_project(&mut self, name: &str, project: Project)
        requires
            old(self).wf(),
        ensures
            final(self).wf(),
            final(self)@ == old(self)@.with_project(name@, each_owner_once(project@)),
            project@.project_owners.no_duplicates() ==> final(self)@ == old(self)@.with_project(
                name@,
                project@,
            ),
    {
        let ghost entry = (name@, each_owner_once(project@));
        proof {
            lemma_without_repeats(project@.project_owners);
            if project@.project_owners.no_duplicates() {
                lemma_without_repeats_same(project@.project_owners);
            }
        }
        let Project { slack_channel, github_repo, project_owners, jira_project } = project;
        let project = Project {
            slack_channel,
            github_repo,
            project_owners: unique_texts(project_owners),
            jira_project,
        };
        match self.find_project(name) {
            Some(i) => {
                proof {
                    lemma_first_from_some(self@.projects, project_named(name@), 0);
                }
                self.projects[i].1 = project;
                assert(self@.projects =~= old(self)@.projects.update(i as int, entry));
            },
            None => {
                self.projects.push((name.to_owned(), project));
                assert(self@.projects =~= old(self)@.projects.push(entry));
            },
        }
        proof {
            lemma_with_project(old(self)@, entry.0, entry.1);
        }
    }

    /// Takes the project called `name` out of the registry.
    pub fn remove_project(&mut self, name: &str) -> (removed: bool)
        requires
            old(self).wf(),
        ensures
            final(self).wf(),
            removed == old(self)@.has_project(name@),
            final(self)@ == old(self)@.without_project(name@),
    {
        proof {
            lemma_without_project(old(self)@, name@);
        }
        match self.find_project(name) {
            Some(i) => {
                self.projects.remove(i);
                assert(self@.projects =~= old(self)@.projects.remove(i as int));
                true
            },
            None => false,
        }
    }

    /// Whether a project is called `name`.
    pub fn contains_project(&self, name: &str) -> (r: bool)
        ensures
            r == self@.has_project(name@),
    {
        self.find_project(name).is_some()
    }

    /// Makes `repo` the repository of the project called `name`.
    pub fn set_github_repo(&mut self, name: &str, repo: &str) -> (found: bool)
        requires
            old(self).wf(),
        ensures
            final(self).wf(),
            found == old(self)@.has_project(name@),
            final(self)@ == old(self)@.with_repo(name@, repo@),
    {
        match self.find_project(name) {
            Some(i) => {
                proof {
                    lemma_first_from_some(
                        self@.projects,
                        project_named(name@),
                        0,
                    );
                }
                self.projects[i].1.github_repo = Some(repo.to_owned());
                proof {
                    let p = old(self)@.projects[i as int].1;
                    assert(self@.projects =~= old(self)@.projects.update(
                        i as int,
                        (name@, ProjectView { github_repo: Some(repo@), ..p }),
                    ));
                    assert(self@.project_names() =~= old(self)@.project_names());
                }
                true
            },
            None => false,
        }
    }

    /// Adds `owner` to the owners of the project called `name`, unless it
    /// is one of them already.
    pub fn add_owner(&mut self, name: &str, owner: &str) -> (added: bool)
        requires
            old(self).wf(),
        ensures
            final(self).wf(),
            added == (old(self)@.project(name@) matches Some(p) && !p.project_owners.contains(
                owner@,
            )),
            final(self)@ == old(self)@.with_owner(name@, owner@),
    {
        match self.find_project(name) {
            Some(i) => {
                proof {
                    lemma_first_from_some(
                        self@.projects,
                        project_named(name@),
                        0,
                    );
                }
                if position_of(&self.projects[i].1.project_owners, owner).is_some() {
                    proof {
                        lemma_first_where_exists(
                            self@.projects[i as int].1.project_owners,
                            is_text(owner@),
                        );
                    }
                    return false;
                }
                proof {
                    lemma_first_where_exists(
                        self@.projects[i as int].1.project_owners,
                        is_text(owner@),
                    );
                }
                self.projects[i].1.project_owners.push(owner.to_owned());
                proof {
                    let p = old(self)@.projects[i as int].1;
                    assert(self@.projects[i as int].1.project_owners =~= p.project_owners.push(
                        owner@,
                    ));
                    assert(self@.projects =~= old(self)@.projects.update(
                        i as int,
                        (name@, ProjectView { project_owners: p.project_owners.push(owner@), ..p }),
                    ));
                    assert(self@.project_names() =~= old(self)@.project_names());
                }
                true
            },
            None => false,
        }
    }

    /// Takes `owner` out of the owners of the project called `name`.
    pub fn remove_owner(&mut self, name: &str, owner: &str) -> (removed: bool)
        requires
            old(self).wf(),
        ensures
            final(self).wf(),
            removed == (old(self)@.project(name@) matches Some(p) && p.project_owners.contains(
                owner@,
            )),
            final(self)@ == old(self)@.with_owner_removed(name@, owner@),
    {
        match self.find_project(name) {
            Some(i) => {
                proof {
                    lemma_first_from_some(
                        self@.projects,
                        project_named(name@),
                        0,
                    );
                    lemma_first_where_exists(
                        self@.projects[i as int].1.project_owners,
                        is_text(owner@),
                    );
                }
                match position_of(&self.projects[i].1.project_owners, owner) {
                    Some(k) => {
                        self.projects[i].1.project_owners.remove(k);
                        proof {
                            let p = old(self)@.projects[i as int].1;
                            assert(self@.projects[i as int].1.project_owners
                                =~= p.project_owners.remove(k as int));
                            assert(self@.projects =~= old(self)@.projects.update(
                                i as int,
                                (
                                    name@,
                                    ProjectView {
                                        project_owners: without_owner(p.project_owners, owner@),
                                        ..p
                                    },
                                ),
                            ));
                            assert(self@.project_names() =~= old(self)@.project_names());
                        }
                        true
                    },
                    None => false,
                }
            },
            None => false,
        }
    }
}

/// In a well-formed registry a project is found by its name where it stands.
pub proof fn lemma_project_index(m: ManifestView, i: int)
    requires
        m.wf(),
        0 <= i < m.projects.len(),
    ensures
        m.project_index(m.projects[i].0) == Some(i),
        m.project(m.projects[i].0) == Some(m.projects[i].1),
{
    let name = m.projects[i].0;
    let p = project_named(name);
    assert forall|j: int| 0 <= j < i implies !p(#[trigger] m.projects[j]) by {
        assert(m.project_names()[j] == m.projects[j].0);
        assert(m.project_names()[i] == name);
    }
    lemma_first_from_is(m.projects, p, 0, i);
}

/// In a well-formed registry a profile is found by its chat user id where it
/// stands.
pub proof fn lemma_profile_index(m: ManifestView, i: int)
    requires
        m.wf(),
        0 <= i < m.profiles.len(),
    ensures
        m.profile_index(m.profiles[i].0) == Some(i),
        m.profile(m.profiles[i].0) == Some(m.profiles[i].1),
{
    let id = m.profiles[i].0;
    let p = profile_of(id);
    assert forall|j: int| 0 <= j < i implies !p(#[trigger] m.profiles[j]) by {
        assert(m.profile_ids()[j] == m.profiles[j].0);
        assert(m.profile_ids()[i] == id);
    }
    lemma_first_from_is(m.profiles, p, 0, i);
}

/// Entering a project keeps the registry well formed, and the project is
/// then found under its name.
pub proof fn lemma_with_project(m: ManifestView, name: Seq<char>, project: ProjectView)
    requires
        m.wf(),
        project.project_owners.no_duplicates(),
    ensures
        m.with_project(name, project).wf(),
        m.with_project(name, project).project(name) == Some(project),
        m.with_project(name, project).projects.len() == if m.has_project(name) {
            m.projects.len()
        } else {
            m.projects.len() + 1
        },
{
    let after = m.with_project(name, project);
    match m.project_index(name) {
        Some(i) => {
            lemma_first_from_some(m.projects, project_named(name), 0);
            assert(after.project_names() =~= m.project_names());
            lemma_project_index(after, i);
        },
        None => {
            lemma_first_from_none(m.projects, project_named(name), 0);
            assert(after.project_names() =~= m.project_names().push(name));
            assert forall|k: int| 0 <= k < m.project_names().len() implies m.project_names()[k]
                != name by {
                assert(!project_named(name)(m.projects[k]));
            }
            lemma_project_index(after, m.projects.len() as int);
        },
    }
}

/// Taking a project out keeps the registry well formed, and no project is
/// then found under that name.
pub proof fn lemma_without_project(m: ManifestView, name: Seq<char>)
    requires
        m.wf(),
    ensures
        m.without_project(name).wf(),
        !m.without_project(name).has_project(name),
{
    let after = m.without_project(name);
    match m.project_index(name) {
        Some(i) => {
            lemma_first_from_some(m.projects, project_named(name), 0);
            assert(after.project_names() =~= m.project_names().remove(i));
            assert forall|j: int| 0 <= j < after.projects.len() implies !project_named(name)(
                #[trigger] after.projects[j],
            ) by {
                let k = if j < i {
                    j
                } else {
                    j + 1
                };
                assert(after.projects[j] == m.projects[k]);
                assert(m.project_names()[k] == m.projects[k].0);
                assert(m.project_names()[i] == name);
            }
            if after.project_index(name) is Some {
                lemma_first_from_some(after.projects, project_named(name), 0);
            }
        },
        None => {},
    }
}

/// Linking a user keeps the registry well formed, and the user's profile is
/// then the one entered.
pub proof fn lemma_with_profile(m: ManifestView, id: Seq<char>, profile: ProfileView)
    requires
        m.wf(),
    ensures
        m.with_profile(id, profile).wf(),
        m.with_profile(id, profile).profile(id) == Some(profile),
{
    let after = m.with_profile(id, profile);
    match m.profile_index(id) {
        Some(i) => {
            lemma_first_from_some(m.profiles, profile_of(id), 0);
            assert(after.profile_ids() =~= m.profile_ids());
            lemma_profile_index(after, i);
        },
        None => {
            lemma_first_from_none(m.profiles, profile_of(id), 0);
            assert(after.profile_ids() =~= m.profile_ids().push(id));
            assert forall|k: int| 0 <= k < m.profile_ids().len() implies m.profile_ids()[k]
                != id by {
                assert(!profile_of(id)(m.profiles[k]));
            }
            lemma_profile_index(after, m.profiles.len() as int);
        },
    }
}

/// Whatever channel a project is found by, it is bound to; and a channel
/// finds a project exactly when some project is bound to it.
pub proof fn lemma_project_by_channel(m: ManifestView, channel: Seq<char>)
    ensures
        m.project_by_channel(channel) matches Some(p) ==> p.slack_channel == channel,
        m.project_by_channel(channel) is Some <==> exists|i: int|
            0 <= i < m.projects.len() && (#[trigger] m.projects[i]).1.slack_channel == channel,
{
    let p = project_in_channel(channel);
    if m.channel_index(channel) is Some {
        lemma_first_from_some(m.projects, p, 0);
        let i = m.channel_index(channel)->0;
        assert(m.projects[i].1.slack_channel == channel);
    } else {
        lemma_first_from_none(m.projects, p, 0);
        assert forall|i: int| 0 <= i < m.projects.len() implies (#[trigger] m.projects[i]).1.slack_channel
            != channel by {
            assert(!p(m.projects[i]));
        }
    }
}

/// The token `<@id>` holds the user id `id`, and so does `<@id|name>`,
/// whatever `name` is, where `id` is free of `|`.
pub proof fn lemma_mention_user_id(id: Seq<char>, name: Seq<char>)
    requires
        !id.contains('|'),
    ensures
        mention_user_id(seq!['<', '@'] + id + seq!['>']) == Some(id),
        mention_user_id(seq!['<', '@'] + id + seq!['|'] + name + seq!['>']) == Some(id),
{
    let plain = seq!['<', '@'] + id + seq!['>'];
    let inner = plain.subrange(2, plain.len() - 1);
    assert(inner =~= id);
    if first_where(inner, is_bar()) is Some {
        lemma_first_from_some(inner, is_bar(), 0);
        assert(id.contains(id[first_where(inner, is_bar())->0]));
    }
    let named = seq!['<', '@'] + id + seq!['|'] + name + seq!['>'];
    let within = named.subrange(2, named.len() - 1);
    assert(within =~= id + seq!['|'] + name);
    assert forall|j: int| 0 <= j < id.len() implies !is_bar()(#[trigger] within[j]) by {
        assert(id.contains(id[j]));
    }
    lemma_first_from_is(within, is_bar(), 0, id.len() as int);
    assert(within.take(id.len() as int) =~= id);
}

/// A token that does not start with `<@` holds no user id.
pub proof fn lemma_mention_unprefixed(token: Seq<char>)
    requires
        token.len() < 2 || token[0] != '<' || token[1] != '@',
    ensures
        mention_user_id(token) is None,
{
}

/// Through the tokens `<@id>` and `<@id|name>` the profile of the chat user
/// `id` is found, and through a token that does not start with `<@` none is.
pub proof fn lemma_profile_by_mention(m: ManifestView, id: Seq<char>, name: Seq<char>, other: Seq<char>)
    requires
        !id.contains('|'),
        other.len() < 2 || other[0] != '<' || other[1] != '@',
    ensures
        m.profile_by_mention(seq!['<', '@'] + id + seq!['>']) == m.profile(id),
        m.profile_by_mention(seq!['<', '@'] + id + seq!['|'] + name + seq!['>']) == m.profile(id),
        m.profile_by_mention(other) is None,
{
    lemma_mention_user_id(id, name);
    lemma_mention_unprefixed(other);
}

/// Binding a repository to a project, adding an owner to it and taking an
/// owner out of it keep the registry well formed.
pub proof fn lemma_project_changes(
    m: ManifestView,
    name: Seq<char>,
    repo: Seq<char>,
    owner: Seq<char>,
)
    requires
        m.wf(),
    ensures
        m.with_repo(name, repo).wf(),
        m.with_owner(name, owner).wf(),
        m.with_owner_removed(name, owner).wf(),
{
    if m.project_index(name) is Some {
        lemma_first_from_some(m.projects, project_named(name), 0);
        let p = m.projects[m.project_index(name)->0].1;
        let owners = p.project_owners;
        lemma_with_project(m, name, ProjectView { github_repo: Some(repo), ..p });
        lemma_first_where_exists(owners, is_text(owner));
        if owners.contains(owner) {
            lemma_first_from_some(owners, is_text(owner), 0);
            let cut = without_owner(owners, owner);
            assert(cut.no_duplicates());
            lemma_with_project(m, name, ProjectView { project_owners: cut, ..p });
        } else {
            let more = owners.push(owner);
            assert forall|i: int, j: int| 0 <= i < j < more.len() implies more[i] != more[j] by {
                if j == owners.len() {
                    assert(owners.contains(owners[i]));
                }
            }
            lemma_with_project(m, name, ProjectView { project_owners: more, ..p });
        }
    }
}

} // verus!
