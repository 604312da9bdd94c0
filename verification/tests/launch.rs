//! The launch contract.

use phoxal_simulator_webots_controller::launch::Cli;

fn argv(arguments: &[&str]) -> Vec<String> {
    arguments.iter().map(|argument| argument.to_string()).collect()
}

#[test]
fn the_launch_contract_is_exactly_bundle_root_and_connect() {
    let cli = Cli::try_parse_from(argv(&[
        "phoxal-simulator-webots-controller",
        "--bundle-root",
        "/srv/robot/bundle",
        "--connect",
        "tcp/127.0.0.1:7447",
    ]))
    .expect("the documented argv must parse");
    assert_eq!(cli.bundle_root, "/srv/robot/bundle");
    assert_eq!(cli.connect, "tcp/127.0.0.1:7447");
}

#[test]
fn both_arguments_are_required() {
    assert!(Cli::try_parse_from(argv(&[
        "phoxal-simulator-webots-controller",
        "--bundle-root",
        "/srv/robot/bundle",
    ]))
    .is_err());
    assert!(Cli::try_parse_from(argv(&[
        "phoxal-simulator-webots-controller",
        "--connect",
        "tcp/127.0.0.1:7447",
    ]))
    .is_err());
}

#[test]
fn the_participant_launch_arguments_are_refused() {
    for argument in [
        "--participant-id=front_left_drive",
        "--execution-id=1",
        "--execution-origin=0",
        "--simulation",
    ] {
        assert!(
            Cli::try_parse_from(argv(&[
                "phoxal-simulator-webots-controller",
                "--bundle-root",
                "/srv/robot/bundle",
                "--connect",
                "tcp/127.0.0.1:7447",
                argument,
            ]))
            .is_err(),
            "{argument} must be refused"
        );
    }
}

#[test]
fn the_command_definition_is_internally_consistent() {
    Cli::command().debug_assert();
}

#[test]
fn misuse_is_told_on_standard_error_and_ends_in_two() {
    let answer = Cli::try_parse_from(argv(&["controller"])).unwrap_err();
    assert_eq!(answer.exit_code, 2);
    assert!(answer.to_stderr());
    assert!(answer.text.contains("--bundle-root <DIR>"));
    assert!(answer.text.contains("--connect <ENDPOINT>"));
    let empty = Cli::try_parse_from(argv(&[
        "controller",
        "--bundle-root",
        "",
        "--connect",
        "tcp/127.0.0.1:7447",
    ]));
    assert!(empty.is_err());
}

#[test]
fn help_and_version_are_no_misuse() {
    let version = Cli::try_parse_from(argv(&["controller", "--version"])).unwrap_err();
    assert_eq!(version.exit_code, 0);
    assert!(!version.to_stderr());
    assert_eq!(version.text, "phoxal-simulator-webots-controller 0.1.0\n");
    let help = Cli::try_parse_from(argv(&["controller", "--help"])).unwrap_err();
    assert_eq!(help.exit_code, 0);
    assert!(help.text.starts_with(
        "phoxal-simulator-webots-controller - the Phoxal Webots controller\n\nWebots launches"
    ));
    let short = Cli::try_parse_from(argv(&["controller", "-h"])).unwrap_err();
    assert!(!short.text.contains("Webots launches"));
}

#[test]
fn values_and_answers_are_handed_on() {
    let cli = Cli::from_values(Ok(("/bundle".to_owned(), "tcp/host:1".to_owned()))).unwrap();
    assert_eq!(cli.bundle_root, "/bundle");
    assert_eq!(cli.connect, "tcp/host:1");
    let answer = Cli::from_values(Err(("usage".to_owned(), 2))).unwrap_err();
    assert_eq!(answer.text, "usage");
}
