//! Slash commands: reading the command text and carrying the command out.

use crate::config::{
    fresh_project, lemma_project_changes, lemma_with_profile, lemma_with_project,
    lemma_without_project, Manifest, ManifestView, ProfileView,
};
use crate::slack::handler::{
    add_model, answered, block_response, command_not_found_text, create_model, delete_model,
    github_model, help_text, list_sections, me_model, not_enough_arguments_text, rejected,
    remove_model, text_response, Outcome, OutcomeView,
};
use crate::text::{same_text, split_words, words};
use crate::Parameters;
use vstd::prelude::*;

pub mod handler;

verus! {

/// A command of the bot, with its arguments.
#[derive(Debug)]
pub enum Command {
    Help,
    List,
    Create { project_name: String },
    Delete { project_name: String },
    Add { mention: String },
    Remove { mention: String },
    Github { repo: String },
    MeGithub { username: String },
}

/// What a `Command` holds, as character sequences.
pub enum CommandView {
    Help,
    List,
    Create { project_name: Seq<char> },
    Delete { project_name: Seq<char> },
    Add { mention: Seq<char> },
    Remove { mention: Seq<char> },
    Github { repo: Seq<char> },
    MeGithub { username: Seq<char> },
}

impl View for Command {
    type V = CommandView;

    open spec fn view(&self) -> CommandView {
        match self {
            Command::Help => CommandView::Help,
            Command::List => CommandView::List,
            Command::Create { project_name } => CommandView::Create { project_name: project_name@ },
            Command::Delete { project_name } => CommandView::Delete { project_name: project_name@ },
            Command::Add { mention } => CommandView::Add { mention: mention@ },
            Command::Remove { mention } => CommandView::Remove { mention: mention@ },
            Command::Github { repo } => CommandView::Github { repo: repo@ },
            Command::MeGithub { username } => CommandView::MeGithub { username: username@ },
        }
    }
}

/// Why a command was not carried out.
#[derive(Clone, Copy, Debug, PartialEq, Eq, Structural)]
pub enum CommandError {
    /// The text names no command of the bot.
    CommandNotFound,
    /// The command lacks an argument.
    NotEnoughArguments,
    /// The project in question does not exist.
    NotFound,
    /// A project of that name exists already.
    AlreadyExists,
    /// The chat user has linked no code host username.
    UserNotLinked,
    /// The user is an owner of the project already.
    AlreadyOwner,
    /// The user is no owner of the project.
    NotOwner,
}

/// The command that the words `w` spell. The first word is the verb; words
/// after the arguments that the verb takes are ignored.
pub open spec fn command_of(w: Seq<Seq<char>>) -> Result<CommandView, CommandError> {
    if w.len() == 0 {
        Err(CommandError::NotEnoughArguments)
    } else if w[0] == "help"@ {
        Ok(CommandView::Help)
    } else if w[0] == "list"@ {
        Ok(CommandView::List)
    } else if w[0] == "create"@ {
        if w.len() < 2 {
            Err(CommandError::NotEnoughArguments)
        } else {
            Ok(CommandView::Create { project_name: w[1] })
        }
    } else if w[0] == "delete"@ {
        if w.len() < 2 {
            Err(CommandError::NotEnoughArguments)
        } else {
            Ok(CommandView::Delete { project_name: w[1] })
        }
    } else if w[0] == "add"@ {
        if w.len() < 2 {
            Err(CommandError::NotEnoughArguments)
        } else {
            Ok(CommandView::Add { mention: w[1] })
        }
    } else if w[0] == "remove"@ {
        if w.len() < 2 {
            Err(CommandError::NotEnoughArguments)
        } else {
            Ok(CommandView::Remove { mention: w[1] })
        }
    } else if w[0] == "github"@ {
        if w.len() < 2 {
            Err(CommandError::NotEnoughArguments)
        } else {
            Ok(CommandView::Github { repo: w[1] })
        }
    } else if w[0] == "me"@ {
        if w.len() < 3 {
            Err(CommandError::NotEnoughArguments)
        } else if w[1] == "github"@ {
            Ok(CommandView::MeGithub { username: w[2] })
        } else {
            Err(CommandError::CommandNotFound)
        }
    } else {
        Err(CommandError::CommandNotFound)
    }
}

/// The command that `text` spells: `command_of` its words.
pub open spec fn parsed(text: Seq<char>) -> Result<CommandView, CommandError> {
    command_of(words(text))
}

/// Reads a command from the text that follows the command prefix.
pub fn parse_command(text: &str) -> (r: Result<Command, CommandError>)
    ensures
        match r {
            Ok(c) => parsed(text@) == Ok::<CommandView, CommandError>(c@),
            Err(e) => parsed(text@) == Err::<CommandView, CommandError>(e),
        },
{
    let w = split_words(text);
    if w.len() == 0 {
        return Err(CommandError::NotEnoughArguments);
    }
    let verb = w[0];
    if same_text(verb, "help") {
        Ok(Command::Help)
    } else if same_text(verb, "list") {
        Ok(Command::List)
    } else if same_text(verb, "create") {
        if w.len() < 2 {
            Err(CommandError::NotEnoughArguments)
        } else {
            Ok(Command::Create { project_name: w[1].to_owned() })
        }
    } else if same_text(verb, "delete") {
        if w.len() < 2 {
            Err(CommandError::NotEnoughArguments)
        } else {
            Ok(Command::Delete { project_name: w[1].to_owned() })
        }
    } else if same_text(verb, "add") {
        if w.len() < 2 {
            Err(CommandError::NotEnoughArguments)
        } else {
            Ok(Command::Add { mention: w[1].to_owned() })
        }
    } else if same_text(verb, "remove") {
        if w.len() < 2 {
            Err(CommandError::NotEnoughArguments)
        } else {
            Ok(Command::Remove { mention: w[1].to_owned() })
        }
    } else if same_text(verb, "github") {
        if w.len() < 2 {
            Err(CommandError::NotEnoughArguments)
        } else {
            Ok(Command::Github { repo: w[1].to_owned() })
        }
    } else if same_text(verb, "me") {
        if w.len() < 3 {
            Err(CommandError::NotEnoughArguments)
        } else if same_text(w[1], "github") {
            Ok(Command::MeGithub { username: w[2].to_owned() })
        } else {
            Err(CommandError::CommandNotFound)
        }
    } else {
        Err(CommandError::CommandNotFound)
    }
}

/// What carrying out `command` makes of a registry and what it answers,
/// for the chat user `user` in the channel `channel`.
pub open spec fn execute_model(
    m: ManifestView,
    channel: Seq<char>,
    user: Seq<char>,
    command: CommandView,
) -> (ManifestView, OutcomeView) {
    match command {
        CommandView::Help => (m, answered(text_response(help_text()))),
        CommandView::List => (m, answered(block_response(list_sections(m)))),
        CommandView::Create { project_name } => create_model(m, channel, project_name),
        CommandView::Delete { project_name } => delete_model(m, project_name),
        CommandView::Add { mention } => add_model(m, channel, mention),
        CommandView::Remove { mention } => remove_model(m, channel, mention),
        CommandView::Github { repo } => github_model(m, channel, repo),
        CommandView::MeGithub { username } => me_model(m, user, "github"@, username),
    }
}

/// What the command text `text` makes of a registry and what it answers. A
/// text that spells no command leaves the registry as it is.
pub open spec fn run_model(m: ManifestView, channel: Seq<char>, user: Seq<char>, text: Seq<char>) -> (
    ManifestView,
    OutcomeView,
) {
    match parsed(text) {
        Ok(command) => execute_model(m, channel, user, command),
        Err(error) => (
            m,
            rejected(
                error,
                if error == CommandError::NotEnoughArguments {
                    not_enough_arguments_text()
                } else {
                    command_not_found_text()
                },
            ),
        ),
    }
}

/// Carries out `command` for the chat user `user_id` in the channel
/// `channel_id`.
pub fn execute(manifest: &mut Manifest, channel_id: &str, user_id: &str, command: &Command) -> (r:
    Outcome)
    requires
        old(manifest).wf(),
    ensures
        final(manifest).wf(),
        (final(manifest)@, r@) == execute_model(old(manifest)@, channel_id@, user_id@, command@),
{
    match command {
        Command::Help => crate::slack::handler::help(),
        Command::List => crate::slack::handler::list(manifest),
        Command::Create { project_name } => crate::slack::handler::create(
            manifest,
            channel_id,
            project_name.as_str(),
        ),
        Command::Delete { project_name } => crate::slack::handler::delete(
            manifest,
            project_name.as_str(),
        ),
        Command::Add { mention } => crate::slack::handler::add(
            manifest,
            channel_id,
            mention.as_str(),
        ),
        Command::Remove { mention } => crate::slack::handler::remove(
            manifest,
            channel_id,
            mention.as_str(),
        ),
        Command::Github { repo } => crate::slack::handler::github(
            manifest,
            channel_id,
            repo.as_str(),
        ),
        Command::MeGithub { username } => crate::slack::handler::me(
            manifest,
            user_id,
            "github",
            username.as_str(),
        ),
    }
}

/// Receives the slash commands.
pub struct Handler;

impl Handler {
    /// Reads the command in `parameters` and carries it out on `manifest`.
    pub fn on_slash_commands(&self, manifest: &mut Manifest, parameters: &Parameters) -> (r:
        Outcome)
        requires
            old(manifest).wf(),
        ensures
            final(manifest).wf(),
            (final(manifest)@, r@) == run_model(
                old(manifest)@,
                parameters.channel_id@,
                parameters.user_id@,
                parameters.text@,
            ),
    {
        match parse_command(parameters.text.as_str()) {
            Ok(command) => execute(
                manifest,
                parameters.channel_id.as_str(),
                parameters.user_id.as_str(),
                &command,
            ),
            Err(CommandError::NotEnoughArguments) => crate::slack::handler::not_enough_arguments(),
            Err(_) => crate::slack::handler::command_not_found(),
        }
    }
}

/// A command that is turned down changes nothing, and neither does one
/// that tells no need to store the registry.
pub proof fn lemma_rejected_changes_nothing(
    m: ManifestView,
    channel: Seq<char>,
    user: Seq<char>,
    text: Seq<char>,
)
    ensures
        run_model(m, channel, user, text).1.error is Some ==> run_model(m, channel, user, text).0
            == m,
        !run_model(m, channel, user, text).1.persist ==> run_model(m, channel, user, text).0 == m,
        run_model(m, channel, user, text).1.error is Some ==> !run_model(
            m,
            channel,
            user,
            text,
        ).1.persist,
{
}

/// Whatever the command text, a well-formed registry stays well formed: no
/// command enters a second project under a name, a second profile for a
/// chat user, or an owner twice.
pub proof fn lemma_run_keeps_wf(m: ManifestView, channel: Seq<char>, user: Seq<char>, text: Seq<char>)
    requires
        m.wf(),
    ensures
        run_model(m, channel, user, text).0.wf(),
{
    match parsed(text) {
        Ok(CommandView::Create { project_name }) => {
            lemma_with_project(m, project_name, fresh_project(channel));
        },
        Ok(CommandView::Delete { project_name }) => {
            lemma_without_project(m, project_name);
        },
        Ok(CommandView::Add { mention }) => {
            if m.channel_index(channel) is Some && m.profile_by_mention(mention) is Some {
                lemma_project_changes(
                    m,
                    m.projects[m.channel_index(channel)->0].0,
                    Seq::empty(),
                    m.profile_by_mention(mention)->0.github_username,
                );
            }
        },
        Ok(CommandView::Remove { mention }) => {
            if m.channel_index(channel) is Some && m.profile_by_mention(mention) is Some {
                lemma_project_changes(
                    m,
                    m.projects[m.channel_index(channel)->0].0,
                    Seq::empty(),
                    m.profile_by_mention(mention)->0.github_username,
                );
            }
        },
        Ok(CommandView::Github { repo }) => {
            if m.channel_index(channel) is Some {
                lemma_project_changes(
                    m,
                    m.projects[m.channel_index(channel)->0].0,
                    repo,
                    Seq::empty(),
                );
            }
        },
        Ok(CommandView::MeGithub { username }) => {
            lemma_with_profile(m, user, ProfileView { github_username: username });
        },
        _ => {},
    }
}

} // verus!
