use persona_mind::command::{
    CommandArgument, DaemonCommand, MindAction, OptionParser, SubmissionCommand,
};
use persona_mind::error::Error;
use persona_mind::MindCommand;

fn arguments(texts: &[&str]) -> Vec<CommandArgument> {
    texts
        .iter()
        .map(|text| CommandArgument::new(Some(text.to_string()), format!("{text:?}")))
        .collect()
}

#[test]
fn daemon_command_reads_socket_and_store() {
    let command = MindCommand::from_arguments(arguments(&[
        "daemon",
        "--socket",
        "/run/mind.sock",
        "--store",
        "/var/mind.redb",
    ]));
    let Ok(MindAction::Daemon(daemon)) = command.into_action() else {
        panic!("expected daemon action");
    };
    assert_eq!(daemon.endpoint().as_path(), "/run/mind.sock");
    assert_eq!(daemon.store().as_path(), "/var/mind.redb");
}

#[test]
fn submission_reads_socket_actor_and_one_request() {
    let command = MindCommand::from_arguments(arguments(&[
        "--socket",
        "/run/mind.sock",
        "(RoleObservation)",
        "--actor",
        "operator",
    ]));
    let Ok(MindAction::Submit(submission)) = command.into_action() else {
        panic!("expected submission");
    };
    assert_eq!(submission.endpoint().as_path(), "/run/mind.sock");
    assert_eq!(submission.actor(), "operator");
    assert_eq!(submission.request(), "(RoleObservation)");
}

#[test]
fn the_last_value_of_an_option_wins() {
    let mut parser = OptionParser::new(arguments(&[
        "--socket", "/first", "--socket", "/second", "--store", "/s", "--actor", "a",
    ]));
    let options = parser.parse().expect("options parse");
    assert_eq!(options.endpoint().expect("socket").as_path(), "/second");
    assert_eq!(options.store().expect("store").as_path(), "/s");
    assert_eq!(options.actor().expect("actor"), "a");
    assert_eq!(
        options.request(),
        Err(Error::WrongRequestArgumentCount { count: 0 })
    );
}

#[test]
fn empty_command_line_is_refused() {
    let command = MindCommand::from_arguments(Vec::new());
    assert!(matches!(command.into_action(), Err(Error::MissingCommandInput)));
}

#[test]
fn unknown_option_is_refused() {
    let refused = DaemonCommand::from_arguments(arguments(&["--verbose"]));
    assert!(matches!(
        refused,
        Err(Error::UnknownCommandLineOption { option }) if option == "--verbose"
    ));
}

#[test]
fn option_without_value_is_refused() {
    let refused = DaemonCommand::from_arguments(arguments(&["--store", "/s", "--socket"]));
    assert!(matches!(
        refused,
        Err(Error::MissingCommandLineOptionValue { option }) if option == "--socket"
    ));
}

#[test]
fn argument_that_is_not_unicode_is_refused() {
    let mut given = arguments(&["--socket", "/s"]);
    given.push(CommandArgument::new(None, "\"\\xFF\"".to_string()));
    let refused = SubmissionCommand::from_arguments(given);
    assert!(matches!(
        refused,
        Err(Error::InvalidCommandLineArgument { argument }) if argument == "\"\\xFF\""
    ));
}

#[test]
fn missing_socket_store_and_actor_are_refused_in_order() {
    assert!(matches!(
        DaemonCommand::from_arguments(arguments(&["--store", "/s"])),
        Err(Error::MissingSocketPath)
    ));
    assert!(matches!(
        DaemonCommand::from_arguments(arguments(&["--socket", "/s"])),
        Err(Error::MissingStorePath)
    ));
    assert!(matches!(
        SubmissionCommand::from_arguments(arguments(&["--socket", "/s", "(RoleObservation)"])),
        Err(Error::MissingActorName)
    ));
    assert!(matches!(
        SubmissionCommand::from_arguments(arguments(&["--actor", "a", "(RoleObservation)"])),
        Err(Error::MissingSocketPath)
    ));
}

#[test]
fn a_submission_needs_exactly_one_request() {
    assert!(matches!(
        SubmissionCommand::from_arguments(arguments(&["--socket", "/s", "--actor", "a"])),
        Err(Error::WrongRequestArgumentCount { count: 0 })
    ));
    assert!(matches!(
        SubmissionCommand::from_arguments(arguments(&[
            "--socket", "/s", "--actor", "a", "(One)", "(Two)"
        ])),
        Err(Error::WrongRequestArgumentCount { count: 2 })
    ));
}

#[test]
fn command_arguments_answer_their_questions() {
    let flag = CommandArgument::new(Some("--store".to_string()), "\"--store\"".to_string());
    assert!(flag.matches("--store"));
    assert!(!flag.matches("--socket"));
    assert!(flag.starts_with_option());
    assert_eq!(flag.into_string(), Ok("--store".to_string()));
    let single = CommandArgument::new(Some("-x".to_string()), "\"-x\"".to_string());
    assert!(!single.starts_with_option());
}

#[test]
fn a_refused_request_text_is_reported_before_a_missing_socket() {
    let refuse = |_text: String| Err(Error::Nota("unexpected token".to_string()));
    let accept = |_text: String| Ok(());
    let line = || MindCommand::from_arguments(arguments(&["--actor", "operator", "(Bad"]));
    assert_eq!(
        line().into_action_checking(refuse).err(),
        Some(Error::Nota("unexpected token".to_string()))
    );
    assert_eq!(line().into_action_checking(accept).err(), Some(Error::MissingSocketPath));
    let counted = MindCommand::from_arguments(arguments(&["--socket", "/s", "a", "b"]));
    assert_eq!(
        counted.into_action_checking(refuse).err(),
        Some(Error::WrongRequestArgumentCount { count: 2 })
    );
    let seen = std::cell::RefCell::new(Vec::new());
    let record = |text: String| {
        seen.borrow_mut().push(text);
        Ok(())
    };
    let submission = SubmissionCommand::from_arguments_checking(
        arguments(&["--socket", "/s", "--actor", "operator", "(RoleObservation)"]),
        record,
    )
    .expect("submission parses");
    assert_eq!(submission.request(), "(RoleObservation)");
    assert_eq!(seen.into_inner(), vec!["(RoleObservation)".to_string()]);
}
