use ctrl::config::{get_project_by_name, get_user_by_slack_id, set_user_github_username, Manifest};
use ctrl::slack::handler::{
    add, command_not_found, create, delete, github, help, list, me, not_enough_arguments,
    project_not_found, remove, user_not_linked, Outcome,
};
use ctrl::slack::{execute, parse_command, Command, CommandError, Handler};
use ctrl::{Parameters, Response};

fn text_of(outcome: &Outcome) -> &str {
    match &outcome.response {
        Response::TextResponse { text, response_type } => {
            assert_eq!(response_type, "in_channel");
            text.as_str()
        }
        Response::BlockResponse { .. } => panic!("a text was expected"),
    }
}

fn parameters(channel: &str, user: &str, text: &str) -> Parameters {
    Parameters {
        token: String::new(),
        team_id: "T1".to_string(),
        team_domain: "team".to_string(),
        channel_id: channel.to_string(),
        channel_name: "general".to_string(),
        user_id: user.to_string(),
        user_name: "someone".to_string(),
        command: "/ctrl".to_string(),
        text: text.to_string(),
        response_url: String::new(),
        trigger_id: String::new(),
        api_app_id: String::new(),
    }
}

fn owners(m: &Manifest, name: &str) -> Vec<String> {
    get_project_by_name(m, name).unwrap().project_owners.clone()
}

#[test]
fn parse_verbs_without_arguments() {
    assert!(matches!(parse_command("help"), Ok(Command::Help)));
    assert!(matches!(parse_command("  list  "), Ok(Command::List)));
    assert!(matches!(parse_command("help me please"), Ok(Command::Help)));
}

#[test]
fn parse_verbs_with_one_argument() {
    match parse_command("create proj1") {
        Ok(Command::Create { project_name }) => assert_eq!(project_name, "proj1"),
        _ => panic!("create was expected"),
    }
    match parse_command("delete proj1 now") {
        Ok(Command::Delete { project_name }) => assert_eq!(project_name, "proj1"),
        _ => panic!("delete was expected"),
    }
    match parse_command("add <@U1|ann>") {
        Ok(Command::Add { mention }) => assert_eq!(mention, "<@U1|ann>"),
        _ => panic!("add was expected"),
    }
    match parse_command("remove\t<@U1>") {
        Ok(Command::Remove { mention }) => assert_eq!(mention, "<@U1>"),
        _ => panic!("remove was expected"),
    }
    match parse_command("github org/repo") {
        Ok(Command::Github { repo }) => assert_eq!(repo, "org/repo"),
        _ => panic!("github was expected"),
    }
}

#[test]
fn parse_me_github() {
    match parse_command("me github octo") {
        Ok(Command::MeGithub { username }) => assert_eq!(username, "octo"),
        _ => panic!("me github was expected"),
    }
    assert!(matches!(parse_command("me gitlab octo"), Err(CommandError::CommandNotFound)));
    assert!(matches!(parse_command("me github"), Err(CommandError::NotEnoughArguments)));
    assert!(matches!(parse_command("me gitlab"), Err(CommandError::NotEnoughArguments)));
    assert!(matches!(parse_command("me"), Err(CommandError::NotEnoughArguments)));
}

#[test]
fn parse_errors() {
    assert!(matches!(parse_command(""), Err(CommandError::NotEnoughArguments)));
    assert!(matches!(parse_command("   "), Err(CommandError::NotEnoughArguments)));
    assert!(matches!(parse_command("create"), Err(CommandError::NotEnoughArguments)));
    assert!(matches!(parse_command("delete "), Err(CommandError::NotEnoughArguments)));
    assert!(matches!(parse_command("add"), Err(CommandError::NotEnoughArguments)));
    assert!(matches!(parse_command("remove"), Err(CommandError::NotEnoughArguments)));
    assert!(matches!(parse_command("github"), Err(CommandError::NotEnoughArguments)));
    assert!(matches!(parse_command("project"), Err(CommandError::CommandNotFound)));
    assert!(matches!(parse_command("Help"), Err(CommandError::CommandNotFound)));
    assert!(matches!(parse_command("helpme"), Err(CommandError::CommandNotFound)));
}

#[test]
fn fixed_answers() {
    let r = command_not_found();
    assert_eq!(r.error, Some(CommandError::CommandNotFound));
    assert!(!r.persist);
    assert_eq!(text_of(&r), "Invalid command. Use `/ctrl help` for a list of commands.");
    let r = project_not_found();
    assert_eq!(r.error, Some(CommandError::NotFound));
    assert_eq!(text_of(&r), "Project not found. Use `/ctrl list` for a list of projects.");
    let r = not_enough_arguments();
    assert_eq!(r.error, Some(CommandError::NotEnoughArguments));
    assert_eq!(text_of(&r), "Not enough arguments. Use `/ctrl help` for a list of commands.");
    let r = user_not_linked();
    assert_eq!(r.error, Some(CommandError::UserNotLinked));
    assert_eq!(
        text_of(&r),
        "This user must link their GitHub account first. Use `/ctrl me github <github_username>`."
    );
}

#[test]
fn help_lists_every_command() {
    let r = help();
    assert_eq!(r.error, None);
    assert!(!r.persist);
    let text = text_of(&r);
    assert!(text.starts_with("⛑️ Here's a simple help guide for all the commands available.\n\n- /ctrl help: "));
    assert!(text.ends_with("- /ctrl me github <github_username>: Set your GitHub username.\n"));
    assert_eq!(text.lines().count(), 9);
    for verb in ["help", "list", "create", "add", "remove", "github", "me github"] {
        assert!(text.contains(&format!("- /ctrl {}", verb)));
    }
}

#[test]
fn create_then_create_again() {
    let mut m = Manifest::default();
    let first = create(&mut m, "C1", "proj1");
    assert_eq!(first.error, None);
    assert!(first.persist);
    assert_eq!(text_of(&first), "Project `proj1` created.");
    assert_eq!(m.project_count(), 1);
    let p = get_project_by_name(&m, "proj1").unwrap();
    assert_eq!(p.slack_channel, "C1");
    assert!(p.github_repo.is_none() && p.project_owners.is_empty() && p.jira_project.is_none());
    let second = create(&mut m, "C2", "proj1");
    assert_eq!(second.error, Some(CommandError::AlreadyExists));
    assert!(!second.persist);
    assert_eq!(text_of(&second), "Project `proj1` already exists.");
    assert_eq!(m.project_count(), 1);
    assert_eq!(get_project_by_name(&m, "proj1").unwrap().slack_channel, "C1");
}

#[test]
fn delete_removes_or_reports() {
    let mut m = Manifest::default();
    create(&mut m, "C1", "proj1");
    create(&mut m, "C2", "proj2");
    let gone = delete(&mut m, "proj1");
    assert_eq!(gone.error, None);
    assert!(gone.persist);
    assert_eq!(text_of(&gone), "Project `proj1` deleted.");
    assert_eq!(m.project_count(), 1);
    assert_eq!(m.project_name_at(0), "proj2");
    let again = delete(&mut m, "proj1");
    assert_eq!(again.error, Some(CommandError::NotFound));
    assert!(!again.persist);
    assert_eq!(text_of(&again), "Project `proj1` does not exist.");
    assert_eq!(m.project_count(), 1);
}

#[test]
fn add_checks_project_then_user_then_owners() {
    let mut m = Manifest::default();
    let r = add(&mut m, "C1", "<@U1>");
    assert_eq!(r.error, Some(CommandError::NotFound));
    assert_eq!(text_of(&r), "Project not found. Use `/ctrl list` for a list of projects.");
    create(&mut m, "C1", "proj1");
    let r = add(&mut m, "C1", "<@U1>");
    assert_eq!(r.error, Some(CommandError::UserNotLinked));
    assert!(!r.persist);
    let r = add(&mut m, "C1", "U1");
    assert_eq!(r.error, Some(CommandError::UserNotLinked));
    set_user_github_username(&mut m, "U1", "ann");
    let r = add(&mut m, "C1", "U1");
    assert_eq!(r.error, Some(CommandError::UserNotLinked));
    let r = add(&mut m, "C1", "<@U1|ann>");
    assert_eq!(r.error, None);
    assert!(r.persist);
    assert_eq!(text_of(&r), "User `<@U1|ann>` added as a manager of `proj1`.");
    assert_eq!(owners(&m, "proj1"), vec!["ann".to_string()]);
    let r = add(&mut m, "C1", "<@U1>");
    assert_eq!(r.error, Some(CommandError::AlreadyOwner));
    assert!(!r.persist);
    assert_eq!(text_of(&r), "User `<@U1>` is already a manager of `proj1`.");
    assert_eq!(owners(&m, "proj1"), vec!["ann".to_string()]);
}

#[test]
fn add_then_remove_restores_the_owners() {
    let mut m = Manifest::default();
    create(&mut m, "C1", "proj1");
    set_user_github_username(&mut m, "U1", "ann");
    set_user_github_username(&mut m, "U2", "bob");
    set_user_github_username(&mut m, "U3", "cat");
    add(&mut m, "C1", "<@U1>");
    add(&mut m, "C1", "<@U2>");
    let before = owners(&m, "proj1");
    assert_eq!(before, vec!["ann".to_string(), "bob".to_string()]);
    assert_eq!(add(&mut m, "C1", "<@U3|cat>").error, None);
    assert_eq!(owners(&m, "proj1"), vec!["ann".to_string(), "bob".to_string(), "cat".to_string()]);
    let r = remove(&mut m, "C1", "<@U3|cat>");
    assert_eq!(r.error, None);
    assert!(r.persist);
    assert_eq!(text_of(&r), "User `<@U3|cat>` removed as a manager of `proj1`.");
    assert_eq!(owners(&m, "proj1"), before);
}

#[test]
fn remove_checks_project_then_user_then_owners() {
    let mut m = Manifest::default();
    assert_eq!(remove(&mut m, "C1", "<@U1>").error, Some(CommandError::NotFound));
    create(&mut m, "C1", "proj1");
    assert_eq!(remove(&mut m, "C1", "<@U1>").error, Some(CommandError::UserNotLinked));
    set_user_github_username(&mut m, "U1", "ann");
    set_user_github_username(&mut m, "U2", "bob");
    add(&mut m, "C1", "<@U1>");
    let r = remove(&mut m, "C1", "<@U2>");
    assert_eq!(r.error, Some(CommandError::NotOwner));
    assert!(!r.persist);
    assert_eq!(text_of(&r), "User `<@U2>` is not a manager of `proj1`.");
    assert_eq!(owners(&m, "proj1"), vec!["ann".to_string()]);
    assert_eq!(remove(&mut m, "C1", "<@U1>").error, None);
    assert!(owners(&m, "proj1").is_empty());
}

#[test]
fn github_binds_and_overwrites() {
    let mut m = Manifest::default();
    let r = github(&mut m, "C1", "org/repo");
    assert_eq!(r.error, Some(CommandError::NotFound));
    assert_eq!(text_of(&r), "Project not found. Use `/ctrl list` for a list of projects.");
    create(&mut m, "C1", "proj1");
    let r = github(&mut m, "C1", "repo-org/repo-name");
    assert_eq!(r.error, None);
    assert!(r.persist);
    assert_eq!(text_of(&r), "GitHub repository `repo-org/repo-name` set for `proj1`.");
    assert_eq!(
        get_project_by_name(&m, "proj1").unwrap().github_repo.as_deref(),
        Some("repo-org/repo-name")
    );
    github(&mut m, "C1", "org/other");
    assert_eq!(get_project_by_name(&m, "proj1").unwrap().github_repo.as_deref(), Some("org/other"));
}

#[test]
fn me_github_links_and_relinks() {
    let mut m = Manifest::default();
    let r = me(&mut m, "U1", "github", "u1");
    assert_eq!(r.error, None);
    assert!(r.persist);
    assert_eq!(text_of(&r), "GitHub username set to `u1`.");
    let r = me(&mut m, "U1", "github", "u2");
    assert_eq!(text_of(&r), "GitHub username set to `u2`.");
    assert_eq!(m.profile_count(), 1);
    assert_eq!(get_user_by_slack_id(&m, "U1").unwrap().github_username, "u2");
    let r = me(&mut m, "U1", "gitlab", "u3");
    assert_eq!(r.error, Some(CommandError::CommandNotFound));
    assert!(!r.persist);
    assert_eq!(text_of(&r), "Invalid command. Use `/ctrl help` for a list of commands.");
    assert_eq!(get_user_by_slack_id(&m, "U1").unwrap().github_username, "u2");
}

#[test]
fn list_shows_each_project_in_order() {
    let mut m = Manifest::default();
    create(&mut m, "C1", "proj1");
    create(&mut m, "C2", "proj2");
    create(&mut m, "C3", "proj3");
    github(&mut m, "C1", "org/one");
    github(&mut m, "C3", "org/three");
    set_user_github_username(&mut m, "U1", "ann");
    set_user_github_username(&mut m, "U2", "bob");
    add(&mut m, "C1", "<@U1>");
    add(&mut m, "C1", "<@U2>");
    add(&mut m, "C2", "<@U1>");
    assert!(m.add_owner("proj1", "ghost"));
    assert!(m.add_owner("proj2", "nobody"));
    let r = list(&m);
    assert_eq!(r.error, None);
    assert!(!r.persist);
    let blocks = match r.response {
        Response::BlockResponse { blocks, response_type } => {
            assert_eq!(response_type, "in_channel");
            blocks
        }
        Response::TextResponse { .. } => panic!("sections were expected"),
    };
    assert_eq!(blocks.len(), 4);
    assert_eq!(blocks[0].text, "Here's a list of all projects.");
    assert!(blocks[0].accessory.is_none());
    assert_eq!(blocks[1].text, "proj1 in <#C1>.\nProject owners: ann, bob");
    let button = blocks[1].accessory.as_ref().unwrap();
    assert_eq!(button.text, "GitHub");
    assert_eq!(button.action_id, "github");
    assert_eq!(button.url, "https://github.com/org/one");
    assert_eq!(blocks[2].text, "proj2 in <#C2>.\nProject owners: ann");
    assert!(blocks[2].accessory.is_none());
    assert_eq!(blocks[3].text, "proj3 in <#C3>.\nProject owners: ");
    assert_eq!(blocks[3].accessory.as_ref().unwrap().url, "https://github.com/org/three");
}

#[test]
fn list_of_an_empty_registry_is_the_header() {
    let r = list(&Manifest::default());
    match r.response {
        Response::BlockResponse { blocks, .. } => {
            assert_eq!(blocks.len(), 1);
            assert_eq!(blocks[0].text, "Here's a list of all projects.");
        }
        Response::TextResponse { .. } => panic!("sections were expected"),
    }
}

#[test]
fn execute_carries_out_each_command() {
    let mut m = Manifest::default();
    let r = execute(&mut m, "C1", "U1", &Command::Create { project_name: "p".to_string() });
    assert_eq!(text_of(&r), "Project `p` created.");
    let r = execute(&mut m, "C1", "U1", &Command::MeGithub { username: "ann".to_string() });
    assert_eq!(text_of(&r), "GitHub username set to `ann`.");
    let r = execute(&mut m, "C1", "U9", &Command::Add { mention: "<@U1>".to_string() });
    assert_eq!(text_of(&r), "User `<@U1>` added as a manager of `p`.");
    let r = execute(&mut m, "C1", "U9", &Command::Github { repo: "o/r".to_string() });
    assert_eq!(text_of(&r), "GitHub repository `o/r` set for `p`.");
    let r = execute(&mut m, "C1", "U9", &Command::Remove { mention: "<@U1>".to_string() });
    assert_eq!(text_of(&r), "User `<@U1>` removed as a manager of `p`.");
    let r = execute(&mut m, "C1", "U9", &Command::List);
    assert!(matches!(r.response, Response::BlockResponse { .. }));
    let r = execute(&mut m, "C1", "U9", &Command::Help);
    assert!(text_of(&r).starts_with("⛑️"));
    let r = execute(&mut m, "C7", "U9", &Command::Delete { project_name: "p".to_string() });
    assert_eq!(text_of(&r), "Project `p` deleted.");
    assert_eq!(m.project_count(), 0);
}

#[test]
fn slash_commands_from_text_to_answer() {
    let mut m = Manifest::default();
    let h = Handler;
    let r = h.on_slash_commands(&mut m, &parameters("C1", "U1", ""));
    assert_eq!(r.error, Some(CommandError::NotEnoughArguments));
    assert_eq!(text_of(&r), "Not enough arguments. Use `/ctrl help` for a list of commands.");
    let r = h.on_slash_commands(&mut m, &parameters("C1", "U1", "frobnicate now"));
    assert_eq!(r.error, Some(CommandError::CommandNotFound));
    assert_eq!(text_of(&r), "Invalid command. Use `/ctrl help` for a list of commands.");
    let r = h.on_slash_commands(&mut m, &parameters("C1", "U1", "create"));
    assert_eq!(r.error, Some(CommandError::NotEnoughArguments));
    assert_eq!(m.project_count(), 0);
    let r = h.on_slash_commands(&mut m, &parameters("C1", "U1", "create proj1"));
    assert!(r.persist);
    assert_eq!(text_of(&r), "Project `proj1` created.");
    let r = h.on_slash_commands(&mut m, &parameters("C1", "U1", " me  github  ann "));
    assert!(r.persist);
    assert_eq!(get_user_by_slack_id(&m, "U1").unwrap().github_username, "ann");
    let r = h.on_slash_commands(&mut m, &parameters("C1", "U2", "add <@U1|ann>"));
    assert_eq!(r.error, None);
    assert_eq!(owners(&m, "proj1"), vec!["ann".to_string()]);
    let r = h.on_slash_commands(&mut m, &parameters("C2", "U2", "add <@U1|ann>"));
    assert_eq!(r.error, Some(CommandError::NotFound));
    let r = h.on_slash_commands(&mut m, &parameters("C2", "U2", "list"));
    assert!(!r.persist);
    assert!(matches!(r.response, Response::BlockResponse { .. }));
}
