//! Command line options.
use kokuban::launch_options::{parse, LaunchAction, LaunchError, LaunchOptions, OptionName};

fn arguments(words: &[&str]) -> Vec<Vec<u8>> {
    words.iter().map(|word| word.as_bytes().to_vec()).collect()
}

fn run(words: &[&str]) -> LaunchOptions {
    match parse(&arguments(words)).unwrap() {
        LaunchAction::Run(options) => options,
        action => panic!("expected launch, got {action:?}"),
    }
}

#[test]
fn supports_omarchy_tui_launch_and_preserves_arguments() {
    let options = run(&[
        "--app-id=org.omarchy.test",
        "--dir",
        "/tmp/a b",
        "-e",
        "sh",
        "-c",
        "printf '%s' \"$1\"",
        "sh",
        "a b;$(false)",
        "--title=child",
    ]);
    assert_eq!(options.app_id.as_deref(), Some("org.omarchy.test"));
    assert_eq!(options.working_directory, Some("/tmp/a b".into()));
    assert_eq!(
        options.command,
        arguments(&[
            "sh",
            "-c",
            "printf '%s' \"$1\"",
            "sh",
            "a b;$(false)",
            "--title=child"
        ])
    );
}

#[test]
fn supports_separate_and_inline_window_options() {
    let options = run(&[
        "--working-directory=/tmp",
        "--title",
        "Terminal title",
        "--app-id",
        "org.omarchy.test",
    ]);
    assert_eq!(options.working_directory, Some("/tmp".into()));
    assert_eq!(options.title.as_deref(), Some("Terminal title"));
    assert_eq!(options.app_id.as_deref(), Some("org.omarchy.test"));
}

#[test]
fn preserves_non_utf8_paths_and_command_arguments() {
    let path = b"/tmp/\xff".to_vec();
    let argument = b"\xfe".to_vec();
    let parsed = parse(&vec![
        b"--dir".to_vec(),
        path.clone(),
        b"--".to_vec(),
        b"printf".to_vec(),
        argument.clone(),
    ])
    .unwrap();
    let LaunchAction::Run(options) = parsed else {
        panic!("expected launch")
    };
    assert_eq!(options.working_directory, Some(path));
    assert_eq!(options.command, vec![b"printf".to_vec(), argument]);
}

#[test]
fn rejects_invalid_launches_instead_of_silently_opening_a_shell() {
    for words in [
        vec!["-e"],
        vec!["--"],
        vec!["--execute", ""],
        vec!["--dir"],
        vec!["--app-id="],
        vec!["--unknown"],
        vec!["--title=a\nb"],
    ] {
        assert!(parse(&arguments(&words)).is_err());
    }
}

#[test]
fn defaults_to_login_shell_and_prints_help_without_launching() {
    let options = run(&[]);
    assert!(options.command.is_empty());
    assert_eq!(options.working_directory, None);
    assert_eq!(options.app_id, None);
    assert_eq!(options.title, None);
    assert!(matches!(parse(&arguments(&["--help"])), Ok(LaunchAction::Help)));
    assert!(matches!(parse(&arguments(&["--version"])), Ok(LaunchAction::Version)));
    assert_eq!(
        run(&["--execute", "printf", "--help"]).command,
        arguments(&["printf", "--help"])
    );
}

#[test]
fn every_refusal_names_its_reason() {
    let refused = |words: &[&str]| parse(&arguments(words)).unwrap_err();
    assert_eq!(refused(&["-e"]), LaunchError::MissingCommand);
    assert_eq!(refused(&["--title", "a", "--unknown"]), LaunchError::UnknownOption(2));
    assert_eq!(refused(&["--dir"]), LaunchError::MissingValue(OptionName::Dir));
    assert_eq!(refused(&["--app-id="]), LaunchError::MissingValue(OptionName::AppId));
    assert_eq!(refused(&["--title=a\nb"]), LaunchError::HasControls(OptionName::Title));
    assert_eq!(
        parse(&vec![b"--title".to_vec(), b"\xff".to_vec()]).unwrap_err(),
        LaunchError::NotUtf8(OptionName::Title)
    );
    assert_eq!(OptionName::WorkingDirectory.text(), "--working-directory");
}
