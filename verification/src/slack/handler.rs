//! What each command does to the registry and what it answers.

use crate::config::{
    fresh_project, get_project_name_by_slack_channel, get_user_by_github_username,
    get_user_by_slack_mention, lemma_project_index, lemma_with_profile, lemma_with_project,
    project_in_channel, project_named, set_user_github_username, without_owner, Manifest,
    ManifestView, ProfileView, Project, ProjectView,
};
use crate::search::{
    first_where, lemma_first_from_is, lemma_first_from_same, lemma_first_from_some,
    lemma_first_where_exists,
};
use crate::text::is_text;
use crate::slack::CommandError;
use crate::text::{framed, framed_pair, join, join_texts, joined, keep_texts, same_text};
use crate::{Button, ButtonView, Response, ResponseView, Section, SectionView};
use vstd::prelude::*;
use vstd::string::*;

verus! {

/// What carrying out a command came to.
#[derive(Debug)]
pub struct Outcome {
    /// Why the command was turned down, if it was.
    pub error: Option<CommandError>,
    /// Whether the registry changed, so that it has to be stored.
    pub persist: bool,
    /// The answer for the channel.
    pub response: Response,
}

/// What an `Outcome` holds, the answer as character sequences.
pub struct OutcomeView {
    pub error: Option<CommandError>,
    pub persist: bool,
    pub response: ResponseView,
}

impl View for Outcome {
    type V = OutcomeView;

    open spec fn view(&self) -> OutcomeView {
        OutcomeView { error: self.error, persist: self.persist, response: self.response@ }
    }
}

/// A plain text for the whole channel.
pub open spec fn text_response(text: Seq<char>) -> ResponseView {
    ResponseView::TextResponse { text, response_type: "in_channel"@ }
}

/// Sections for the whole channel.
pub open spec fn block_response(blocks: Seq<SectionView>) -> ResponseView {
    ResponseView::BlockResponse { blocks, response_type: "in_channel"@ }
}

/// The outcome of a command that changed the registry.
pub open spec fn changed(text: Seq<char>) -> OutcomeView {
    OutcomeView { error: None, persist: true, response: text_response(text) }
}

/// The outcome of a command that only reads.
pub open spec fn answered(response: ResponseView) -> OutcomeView {
    OutcomeView { error: None, persist: false, response }
}

/// The outcome of a command that was turned down.
pub open spec fn rejected(error: CommandError, text: Seq<char>) -> OutcomeView {
    OutcomeView { error: Some(error), persist: false, response: text_response(text) }
}

pub open spec fn command_not_found_text() -> Seq<char> {
    "Invalid command. Use `/ctrl help` for a list of commands."@
}

pub open spec fn project_not_found_text() -> Seq<char> {
    "Project not found. Use `/ctrl list` for a list of projects."@
}

pub open spec fn not_enough_arguments_text() -> Seq<char> {
    "Not enough arguments. Use `/ctrl help` for a list of commands."@
}

pub open spec fn user_not_linked_text() -> Seq<char> {
    "This user must link their GitHub account first. Use `/ctrl me github <github_username>`."@
}

pub open spec fn help_text() -> Seq<char> {
    "⛑️ Here's a simple help guide for all the commands available.\n\n- /ctrl help: Show this help guide.\n- /ctrl list: List all projects.\n- /ctrl create <project_name>: Create a new project, automatically assigning it to this channel and adding you as a manager.\n- /ctrl add <@user>: Add a user as a manager to this project\n- /ctrl remove <@user>: Remove a user as a manager from this project\n- /ctrl github <repo_name>: Set the GitHub repository for this project (PRs will be automatically merged, assigned, etc.).\n- /ctrl me github <github_username>: Set your GitHub username.\n"@
}

pub open spec fn project_created_text(name: Seq<char>) -> Seq<char> {
    "Project `"@ + name + "` created."@
}

pub open spec fn project_exists_text(name: Seq<char>) -> Seq<char> {
    "Project `"@ + name + "` already exists."@
}

pub open spec fn project_deleted_text(name: Seq<char>) -> Seq<char> {
    "Project `"@ + name + "` deleted."@
}

pub open spec fn project_missing_text(name: Seq<char>) -> Seq<char> {
    "Project `"@ + name + "` does not exist."@
}

pub open spec fn owner_added_text(user: Seq<char>, project: Seq<char>) -> Seq<char> {
    "User `"@ + user + "` added as a manager of `"@ + project + "`."@
}

pub open spec fn already_owner_text(user: Seq<char>, project: Seq<char>) -> Seq<char> {
    "User `"@ + user + "` is already a manager of `"@ + project + "`."@
}

pub open spec fn owner_removed_text(user: Seq<char>, project: Seq<char>) -> Seq<char> {
    "User `"@ + user + "` removed as a manager of `"@ + project + "`."@
}

pub open spec fn not_owner_text(user: Seq<char>, project: Seq<char>) -> Seq<char> {
    "User `"@ + user + "` is not a manager of `"@ + project + "`."@
}

pub open spec fn repo_set_text(repo: Seq<char>, project: Seq<char>) -> Seq<char> {
    "GitHub repository `"@ + repo + "` set for `"@ + project + "`."@
}

pub open spec fn username_set_text(username: Seq<char>) -> Seq<char> {
    "GitHub username set to `"@ + username + "`."@
}

/// A plain text for the whole channel.
fn text_reply(text: String) -> (r: Response)
    ensures
        r@ == text_response(text@),
{
    Response::TextResponse { text, response_type: "in_channel".to_owned() }
}

fn change(text: String) -> (r: Outcome)
    ensures
        r@ == changed(text@),
{
    Outcome { error: None, persist: true, response: text_reply(text) }
}

fn reject(error: CommandError, text: String) -> (r: Outcome)
    ensures
        r@ == rejected(error, text@),
{
    Outcome { error: Some(error), persist: false, response: text_reply(text) }
}

/// The answer to a text that names no command.
pub fn command_not_found() -> (r: Outcome)
    ensures
        r@ == rejected(CommandError::CommandNotFound, command_not_found_text()),
{
    reject(
        CommandError::CommandNotFound,
        "Invalid command. Use `/ctrl help` for a list of commands.".to_owned(),
    )
}

/// The answer to a command for the project of a channel that has none.
pub fn project_not_found() -> (r: Outcome)
    ensures
        r@ == rejected(CommandError::NotFound, project_not_found_text()),
{
    reject(
        CommandError::NotFound,
        "Project not found. Use `/ctrl list` for a list of projects.".to_owned(),
    )
}

/// The answer to a command that lacks an argument.
pub fn not_enough_arguments() -> (r: Outcome)
    ensures
        r@ == rejected(CommandError::NotEnoughArguments, not_enough_arguments_text()),
{
    reject(
        CommandError::NotEnoughArguments,
        "Not enough arguments. Use `/ctrl help` for a list of commands.".to_owned(),
    )
}

/// The answer to a command about a user who has linked no username.
pub fn user_not_linked() -> (r: Outcome)
    ensures
        r@ == rejected(CommandError::UserNotLinked, user_not_linked_text()),
{
    reject(
        CommandError::UserNotLinked,
        "This user must link their GitHub account first. Use `/ctrl me github <github_username>`.".to_owned(),
    )
}

/// The usage of every command.
pub fn help() -> (r: Outcome)
    ensures
        r@ == answered(text_response(help_text())),
{
    Outcome {
        error: None,
        persist: false,
        response: text_reply(
            "⛑️ Here's a simple help guide for all the commands available.\n\n- /ctrl help: Show this help guide.\n- /ctrl list: List all projects.\n- /ctrl create <project_name>: Create a new project, automatically assigning it to this channel and adding you as a manager.\n- /ctrl add <@user>: Add a user as a manager to this project\n- /ctrl remove <@user>: Remove a user as a manager from this project\n- /ctrl github <repo_name>: Set the GitHub repository for this project (PRs will be automatically merged, assigned, etc.).\n- /ctrl me github <github_username>: Set your GitHub username.\n".to_owned(),
        ),
    }
}

/// What `create` makes of a registry and what it answers: a project bound to
/// `channel` is entered under `name`, unless the name is taken.
pub open spec fn create_model(m: ManifestView, channel: Seq<char>, name: Seq<char>) -> (
    ManifestView,
    OutcomeView,
) {
    if m.has_project(name) {
        (m, rejected(CommandError::AlreadyExists, project_exists_text(name)))
    } else {
        (m.with_project(name, fresh_project(channel)), changed(project_created_text(name)))
    }
}

/// Creates the project `project_name` and binds it to the channel.
pub fn create(manifest: &mut Manifest, channel_id: &str, project_name: &str) -> (r: Outcome)
    requires
        old(manifest).wf(),
    ensures
        final(manifest).wf(),
        (final(manifest)@, r@) == create_model(old(manifest)@, channel_id@, project_name@),
{
    if manifest.contains_project(project_name) {
        return reject(
            CommandError::AlreadyExists,
            framed("Project `", project_name, "` already exists."),
        );
    }
    manifest.insert_project(project_name, Project::new(channel_id));
    change(framed("Project `", project_name, "` created."))
}

/// What `delete` makes of a registry and what it answers: the project
/// called `name` leaves, if there is one.
pub open spec fn delete_model(m: ManifestView, name: Seq<char>) -> (ManifestView, OutcomeView) {
    if m.has_project(name) {
        (m.without_project(name), changed(project_deleted_text(name)))
    } else {
        (m, rejected(CommandError::NotFound, project_missing_text(name)))
    }
}

/// Deletes the project `project_name`.
pub fn delete(manifest: &mut Manifest, project_name: &str) -> (r: Outcome)
    requires
        old(manifest).wf(),
    ensures
        final(manifest).wf(),
        (final(manifest)@, r@) == delete_model(old(manifest)@, project_name@),
{
    if manifest.remove_project(project_name) {
        change(framed("Project `", project_name, "` deleted."))
    } else {
        reject(CommandError::NotFound, framed("Project `", project_name, "` does not exist."))
    }
}

/// What `add` makes of a registry and what it answers: the user behind
/// `mention` becomes an owner of the project of `channel`.
pub open spec fn add_model(m: ManifestView, channel: Seq<char>, mention: Seq<char>) -> (
    ManifestView,
    OutcomeView,
) {
    match m.channel_index(channel) {
        None => (m, rejected(CommandError::NotFound, project_not_found_text())),
        Some(i) => match m.profile_by_mention(mention) {
            None => (m, rejected(CommandError::UserNotLinked, user_not_linked_text())),
            Some(profile) => if m.projects[i].1.project_owners.contains(profile.github_username) {
                (
                    m,
                    rejected(
                        CommandError::AlreadyOwner,
                        already_owner_text(mention, m.projects[i].0),
                    ),
                )
            } else {
                (
                    m.with_owner(m.projects[i].0, profile.github_username),
                    changed(owner_added_text(mention, m.projects[i].0)),
                )
            },
        },
    }
}

/// Makes the mentioned user an owner of the channel's project.
pub fn add(manifest: &mut Manifest, channel_id: &str, mention: &str) -> (r: Outcome)
    requires
        old(manifest).wf(),
    ensures
        final(manifest).wf(),
        (final(manifest)@, r@) == add_model(old(manifest)@, channel_id@, mention@),
{
    let name = match get_project_name_by_slack_channel(manifest, channel_id) {
        Some(name) => name.to_owned(),
        None => {
            return project_not_found();
        },
    };
    let username = match get_user_by_slack_mention(manifest, mention) {
        Some(profile) => profile.github_username.clone(),
        None => {
            return user_not_linked();
        },
    };
    proof {
        lemma_first_from_some(
            manifest@.projects,
            project_in_channel(channel_id@),
            0,
        );
        lemma_project_index(manifest@, manifest@.channel_index(channel_id@)->0);
    }
    if manifest.add_owner(name.as_str(), username.as_str()) {
        change(framed_pair("User `", mention, "` added as a manager of `", name.as_str(), "`."))
    } else {
        reject(
            CommandError::AlreadyOwner,
            framed_pair("User `", mention, "` is already a manager of `", name.as_str(), "`."),
        )
    }
}

/// What `remove` makes of a registry and what it answers: the user behind
/// `mention` stops being an owner of the project of `channel`.
pub open spec fn remove_model(m: ManifestView, channel: Seq<char>, mention: Seq<char>) -> (
    ManifestView,
    OutcomeView,
) {
    match m.channel_index(channel) {
        None => (m, rejected(CommandError::NotFound, project_not_found_text())),
        Some(i) => match m.profile_by_mention(mention) {
            None => (m, rejected(CommandError::UserNotLinked, user_not_linked_text())),
            Some(profile) => if m.projects[i].1.project_owners.contains(profile.github_username) {
                (
                    m.with_owner_removed(m.projects[i].0, profile.github_username),
                    changed(owner_removed_text(mention, m.projects[i].0)),
                )
            } else {
                (m, rejected(CommandError::NotOwner, not_owner_text(mention, m.projects[i].0)))
            },
        },
    }
}

/// Takes the mentioned user out of the owners of the channel's project.
pub fn remove(manifest: &mut Manifest, channel_id: &str, mention: &str) -> (r: Outcome)
    requires
        old(manifest).wf(),
    ensures
        final(manifest).wf(),
        (final(manifest)@, r@) == remove_model(old(manifest)@, channel_id@, mention@),
{
    let name = match get_project_name_by_slack_channel(manifest, channel_id) {
        Some(name) => name.to_owned(),
        None => {
            return project_not_found();
        },
    };
    let username = match get_user_by_slack_mention(manifest, mention) {
        Some(profile) => profile.github_username.clone(),
        None => {
            return user_not_linked();
        },
    };
    proof {
        lemma_first_from_some(
            manifest@.projects,
            project_in_channel(channel_id@),
            0,
        );
        lemma_project_index(manifest@, manifest@.channel_index(channel_id@)->0);
    }
    if manifest.remove_owner(name.as_str(), username.as_str()) {
        change(framed_pair("User `", mention, "` removed as a manager of `", name.as_str(), "`."))
    } else {
        reject(
            CommandError::NotOwner,
            framed_pair("User `", mention, "` is not a manager of `", name.as_str(), "`."),
        )
    }
}

/// What `github` makes of a registry and what it answers: `repo` becomes
/// the repository of the project of `channel`, whatever it was before.
pub open spec fn github_model(m: ManifestView, channel: Seq<char>, repo: Seq<char>) -> (
    ManifestView,
    OutcomeView,
) {
    match m.channel_index(channel) {
        None => (m, rejected(CommandError::NotFound, project_not_found_text())),
        Some(i) => (
            m.with_repo(m.projects[i].0, repo),
            changed(repo_set_text(repo, m.projects[i].0)),
        ),
    }
}

/// Binds the repository `repo_name` to the channel's project.
pub fn github(manifest: &mut Manifest, channel_id: &str, repo_name: &str) -> (r: Outcome)
    requires
        old(manifest).wf(),
    ensures
        final(manifest).wf(),
        (final(manifest)@, r@) == github_model(old(manifest)@, channel_id@, repo_name@),
{
    let name = match get_project_name_by_slack_channel(manifest, channel_id) {
        Some(name) => name.to_owned(),
        None => {
            return project_not_found();
        },
    };
    proof {
        lemma_first_from_some(
            manifest@.projects,
            project_in_channel(channel_id@),
            0,
        );
        lemma_project_index(manifest@, manifest@.channel_index(channel_id@)->0);
    }
    let found = manifest.set_github_repo(name.as_str(), repo_name);
    assert(found);
    change(framed_pair("GitHub repository `", repo_name, "` set for `", name.as_str(), "`."))
}

/// What `me` makes of a registry and what it answers: under `github` the
/// chat user `user` is linked to the username `value`.
pub open spec fn me_model(
    m: ManifestView,
    user: Seq<char>,
    subcommand: Seq<char>,
    value: Seq<char>,
) -> (ManifestView, OutcomeView) {
    if subcommand == "github"@ {
        (
            m.with_profile(user, ProfileView { github_username: value }),
            changed(username_set_text(value)),
        )
    } else {
        (m, rejected(CommandError::CommandNotFound, command_not_found_text()))
    }
}

/// Sets something of the chat user's own: under `github` the code host
/// username.
pub fn me(manifest: &mut Manifest, user_id: &str, subcommand: &str, value: &str) -> (r: Outcome)
    requires
        old(manifest).wf(),
    ensures
        final(manifest).wf(),
        (final(manifest)@, r@) == me_model(old(manifest)@, user_id@, subcommand@, value@),
{
    if same_text(subcommand, "github") {
        set_user_github_username(manifest, user_id, value);
        change(framed("GitHub username set to `", value, "`."))
    } else {
        command_not_found()
    }
}

/// Holds of the usernames that some profile of `m` names.
pub open spec fn linked(m: ManifestView) -> spec_fn(Seq<char>) -> bool {
    |username: Seq<char>| m.profile_by_username(username) is Some
}

/// The text that opens the list of projects.
pub open spec fn list_header() -> SectionView {
    SectionView { text: "Here's a list of all projects."@, accessory: None }
}

/// The link to the repository `repo` on the code host, as a button.
pub open spec fn repo_button(repo: Seq<char>) -> ButtonView {
    ButtonView { text: "GitHub"@, action_id: "github"@, url: "https://github.com/"@ + repo }
}

/// The section that shows one project: its name, its channel, and those of
/// its owners whom some profile names, in the order of the project. Beside
/// the text stands a button that leads to the repository, where the project
/// has one.
pub open spec fn project_section(m: ManifestView, name: Seq<char>, p: ProjectView) -> SectionView {
    SectionView {
        text: name + " in <#"@ + p.slack_channel + ">.\nProject owners: "@ + join(
            p.project_owners.filter(linked(m)),
            ", "@,
        ),
        accessory: match p.github_repo {
            Some(repo) => Some(repo_button(repo)),
            None => None,
        },
    }
}

/// The sections that `list` answers with: the header, then one section for
/// each project, in the order of the registry.
pub open spec fn list_sections(m: ManifestView) -> Seq<SectionView> {
    seq![list_header()] + Seq::new(
        m.projects.len(),
        |i: int| project_section(m, m.projects[i].0, m.projects[i].1),
    )
}

/// Those of `owners` whom some profile names, in order.
fn linked_owners(manifest: &Manifest, owners: &Vec<String>) -> (r: Vec<String>)
    ensures
        r.deep_view() == owners.deep_view().filter(linked(manifest@)),
{
    let is_linked = |username: &str| -> (kept: bool)
        ensures
            kept == linked(manifest@)(username@),
        {
            get_user_by_github_username(manifest, username).is_some()
        };
    keep_texts(owners, is_linked, Ghost(linked(manifest@)))
}

/// The section that shows the project `project` called `name`.
fn section_of(manifest: &Manifest, name: &str, project: &Project) -> (r: Section)
    ensures
        r@ == project_section(manifest@, name@, project@),
{
    let shown = linked_owners(manifest, &project.project_owners);
    let mut text = framed(name, " in <#", project.slack_channel.as_str());
    text.append(">.\nProject owners: ");
    text.append(join_texts(&shown, ", ").as_str());
    let accessory = match &project.github_repo {
        Some(repo) => Some(
            Button {
                text: "GitHub".to_owned(),
                action_id: "github".to_owned(),
                url: joined("https://github.com/", repo.as_str()),
            },
        ),
        None => None,
    };
    Section { text, accessory }
}

/// Lists every project of the registry.
pub fn list(manifest: &Manifest) -> (r: Outcome)
    ensures
        r@ == answered(block_response(list_sections(manifest@))),
{
    let mut blocks: Vec<Section> = Vec::new();
    blocks.push(Section { text: "Here's a list of all projects.".to_owned(), accessory: None });
    let n = manifest.project_count();
    let mut i: usize = 0;
    while i < n
        invariant
            i <= n,
            n == manifest@.projects.len(),
            blocks@.len() == i + 1,
            blocks@[0]@ == list_header(),
            forall|k: int|
                0 <= k < i ==> (#[trigger] blocks@[k + 1])@ == project_section(
                    manifest@,
                    manifest@.projects[k].0,
                    manifest@.projects[k].1,
                ),
        decreases n - i,
    {
        let section = section_of(manifest, manifest.project_name_at(i), manifest.project_at(i));
        blocks.push(section);
        i += 1;
    }
    let response = Response::BlockResponse { blocks, response_type: "in_channel".to_owned() };
    proof {
        let shown = response@->BlockResponse_blocks;
        assert(shown =~= list_sections(manifest@)) by {
            assert forall|k: int| 0 <= k < shown.len() implies shown[k] == list_sections(
                manifest@,
            )[k] by {
                if k > 0 {
                    assert(blocks@[(k - 1) + 1]@ == shown[k]);
                }
            }
        }
    }
    Outcome { error: None, persist: false, response }
}

/// Creating a project twice under one name: the second attempt is turned
/// down because the name is taken, and leaves the registry, and with it the
/// number of projects, as the first attempt left it.
pub proof fn lemma_create_twice(
    m: ManifestView,
    name: Seq<char>,
    first_channel: Seq<char>,
    second_channel: Seq<char>,
)
    requires
        m.wf(),
    ensures
        ({
            let first = create_model(m, first_channel, name);
            let second = create_model(first.0, second_channel, name);
            &&& second.1.error == Some(CommandError::AlreadyExists)
            &&& second.0 == first.0
            &&& second.0.projects.len() == first.0.projects.len()
        }),
{
    if !m.has_project(name) {
        lemma_with_project(m, name, fresh_project(first_channel));
    }
}

/// Adding a user as an owner and removing the same user again gives back
/// the registry as it was, and with it the owners of the project.
pub proof fn lemma_add_then_remove(m: ManifestView, channel: Seq<char>, mention: Seq<char>)
    requires
        m.wf(),
        add_model(m, channel, mention).1.error is None,
    ensures
        ({
            let added = add_model(m, channel, mention);
            let removed = remove_model(added.0, channel, mention);
            &&& removed.1.error is None
            &&& removed.0 == m
        }),
{
    let i = m.channel_index(channel)->0;
    lemma_first_from_some(m.projects, project_in_channel(channel), 0);
    lemma_project_index(m, i);
    let name = m.projects[i].0;
    let before = m.projects[i].1;
    let user = m.profile_by_mention(mention)->0.github_username;
    let during = ProjectView { project_owners: before.project_owners.push(user), ..before };
    let added = add_model(m, channel, mention).0;
    assert(added.projects == m.projects.update(i, (name, during)));
    lemma_first_from_same(
        m.projects,
        project_in_channel(channel),
        added.projects,
        project_in_channel(channel),
        0,
    );
    lemma_first_from_same(m.projects, project_named(name), added.projects, project_named(name), 0);
    assert(added.project(name) == Some(during));
    assert(during.project_owners.last() == user);
    assert(during.project_owners.contains(user));
    assert forall|j: int| 0 <= j < before.project_owners.len() implies !is_text(user)(
        #[trigger] during.project_owners[j],
    ) by {
        assert(before.project_owners.contains(before.project_owners[j]));
    }
    lemma_first_from_is(
        during.project_owners,
        is_text(user),
        0,
        before.project_owners.len() as int,
    );
    assert(without_owner(during.project_owners, user) =~= before.project_owners);
    let removed = remove_model(added, channel, mention).0;
    assert(removed.projects =~= m.projects);
}

/// Linking a username twice for one chat user: the second link stands in
/// place of the first, as if the first had never been made, and the
/// registry holds one profile for that user.
pub proof fn lemma_me_github_twice(
    m: ManifestView,
    user: Seq<char>,
    first: Seq<char>,
    second: Seq<char>,
)
    requires
        m.wf(),
    ensures
        ({
            let once = me_model(m, user, "github"@, first).0;
            let twice = me_model(once, user, "github"@, second).0;
            &&& twice.wf()
            &&& twice.profile(user) == Some(ProfileView { github_username: second })
            &&& twice == m.with_profile(user, ProfileView { github_username: second })
            &&& forall|i: int, j: int|
                0 <= i < twice.profiles.len() && 0 <= j < twice.profiles.len()
                    && twice.profiles[i].0 == user && twice.profiles[j].0 == user ==> i == j
        }),
{
    let earlier = ProfileView { github_username: first };
    let later = ProfileView { github_username: second };
    let once = m.with_profile(user, earlier);
    let twice = once.with_profile(user, later);
    lemma_with_profile(m, user, earlier);
    lemma_with_profile(once, user, later);
    lemma_first_from_some(once.profiles, crate::config::profile_of(user), 0);
    if m.profile_index(user) is Some {
        lemma_first_from_some(m.profiles, crate::config::profile_of(user), 0);
        lemma_first_from_same(
            m.profiles,
            crate::config::profile_of(user),
            once.profiles,
            crate::config::profile_of(user),
            0,
        );
    } else {
        crate::search::lemma_first_from_none(m.profiles, crate::config::profile_of(user), 0);
        lemma_first_from_is(
            once.profiles,
            crate::config::profile_of(user),
            0,
            m.profiles.len() as int,
        );
    }
    assert(twice.profiles =~= m.with_profile(user, later).profiles);
    assert forall|i: int, j: int|
        0 <= i < twice.profiles.len() && 0 <= j < twice.profiles.len() && twice.profiles[i].0
            == user && twice.profiles[j].0 == user implies i == j by {
        assert(twice.profile_ids()[i] == user);
        assert(twice.profile_ids()[j] == user);
    }
}

} // verus!
