//! The controller's complete launch contract. Everything else it needs is in
//! the bundle or on the bus.
//!
//! No execution id (learned from the router), no participant id (this process
//! stands for all of them), and no simulation flag (this binary *is* the
//! simulation).

use vstd::prelude::*;

verus! {

/// One option that takes a value.
#[derive(Clone, Copy, Debug, PartialEq, Eq)]
pub struct OptionDefinition {
    pub id: &'static str,
    pub long: &'static str,
    pub value_name: &'static str,
    pub help: &'static str,
    pub required: bool,
}

/// A command line: one option whose value is a path, and one whose value is
/// text.
#[derive(Clone, Copy, Debug, PartialEq, Eq)]
pub struct CommandDefinition {
    pub name: &'static str,
    pub version: &'static str,
    pub about: &'static str,
    pub long_about: &'static str,
    pub path: OptionDefinition,
    pub text: OptionDefinition,
}

/// What an [`OptionDefinition`] says.
pub ghost struct OptionView {
    pub id: Seq<char>,
    pub long: Seq<char>,
    pub value_name: Seq<char>,
    pub help: Seq<char>,
    pub required: bool,
}

/// What a [`CommandDefinition`] says.
pub ghost struct CommandView {
    pub name: Seq<char>,
    pub version: Seq<char>,
    pub about: Seq<char>,
    pub long_about: Seq<char>,
    pub path: OptionView,
    pub text: OptionView,
}

impl View for OptionDefinition {
    type V = OptionView;

    open spec fn view(&self) -> OptionView {
        OptionView {
            id: self.id@,
            long: self.long@,
            value_name: self.value_name@,
            help: self.help@,
            required: self.required,
        }
    }
}

impl View for CommandDefinition {
    type V = CommandView;

    open spec fn view(&self) -> CommandView {
        CommandView {
            name: self.name@,
            version: self.version@,
            about: self.about@,
            long_about: self.long_about@,
            path: self.path@,
            text: self.text@,
        }
    }
}

/// A command line as clap holds it.
#[verifier::external_type_specification]
#[verifier::external_body]
pub struct ExCommand(clap::Command);

/// What a clap command was told to accept.
pub uninterp spec fn described_by(command: clap::Command) -> CommandView;

/// What `argv` comes to on a command line: the values of the path option and of
/// the text option, or the text that answers it and the process's exit code.
pub uninterp spec fn values_given(definition: CommandView, argv: Seq<Seq<char>>) -> Result<
    (Seq<char>, Seq<char>),
    (Seq<char>, i32),
>;

/// The clap command of a definition.
///
/// Calls `clap::Command::new` and the setters of `clap::Command` and
/// `clap::Arg`, each of which stores what it is given.
#[verifier::external_body]
fn command_of(definition: &CommandDefinition) -> (command: clap::Command)
    ensures
        described_by(command) == definition@,
{
    let path = clap::Arg::new(definition.path.id)
        .long(definition.path.long)
        .value_name(definition.path.value_name)
        .help(definition.path.help)
        .required(definition.path.required)
        .value_parser(clap::builder::PathBufValueParser::new());
    let text = clap::Arg::new(definition.text.id)
        .long(definition.text.long)
        .value_name(definition.text.value_name)
        .help(definition.text.help)
        .required(definition.text.required);
    let command = clap::Command::new(definition.name).version(definition.version);
    command.about(definition.about).long_about(definition.long_about).arg(path).arg(text)
}

/// The values `argv` gives to the launch options of `command`, or clap's answer
/// and the exit code that goes with it.
///
/// Calls `clap::Command::try_get_matches_from`. Of a match it takes the two
/// options' values by `clap::ArgMatches::remove_one`; both are required, so a
/// match holds a value of each, and values taken out of text are text. Of an
/// error it takes the text by `clap::Error::render` and the code by
/// `clap::Error::exit_code`, which is two for what belongs on standard error
/// and zero for the rest.
#[verifier::external_body]
fn matches(
    command: clap::Command,
    argv: Vec<String>,
    path_id: &'static str,
    text_id: &'static str,
) -> (values: Result<(String, String), (String, i32)>)
    requires
        described_by(command) == launch_definition(),
        path_id@ == launch_definition().path.id,
        text_id@ == launch_definition().text.id,
    ensures
        match values {
            Ok((path, text)) => values_given(
                launch_definition(),
                argv@.map_values(|argument: String| argument@),
            ) == Ok::<_, (Seq<char>, i32)>((path@, text@)),
            Err((answer, exit_code)) => values_given(
                launch_definition(),
                argv@.map_values(|argument: String| argument@),
            ) == Err::<(Seq<char>, Seq<char>), _>((answer@, exit_code)) && (exit_code == 0
                || exit_code == 2),
        },
{
    match command.try_get_matches_from(argv) {
        Ok(mut given) => {
            let path = given.remove_one::<std::path::PathBuf>(path_id).expect("it is required");
            let text = given.remove_one::<String>(text_id).expect("it is required");
            Ok((path.into_os_string().into_string().expect("it came out of text"), text))
        },
        Err(error) => Err((error.render().to_string(), error.exit_code())),
    }
}

/// The launch contract: the bundle root and the endpoint, both required, and
/// nothing else.
pub open spec fn launch_definition() -> CommandView {
    CommandView {
        name: "phoxal-simulator-webots-controller"@,
        version: "0.1.0"@,
        about: "phoxal-simulator-webots-controller - the Phoxal Webots controller"@,
        long_about: LONG_ABOUT@,
        path: OptionView {
            id: "bundle_root"@,
            long: "bundle-root"@,
            value_name: "DIR"@,
            help: "The installed bundle directory to read the manifest from"@,
            required: true,
        },
        text: OptionView {
            id: "connect"@,
            long: "connect"@,
            value_name: "ENDPOINT"@,
            help: "The supervisor router endpoint to connect to"@,
            required: true,
        },
    }
}

/// What `--help` says before the options.
pub const LONG_ABOUT: &'static str = "\
phoxal-simulator-webots-controller - the Phoxal Webots controller

Webots launches this process for the robot it is the controller of, passing
these arguments through the robot's `controllerArgs`. It is an external
simulator host, not a Phoxal participant: it reads the robot out of the bundle's
manifest, attaches to the supervisor's execution, and simulates every
component the robot mounts - publishing their samples, subscribing their
setpoints, and publishing the authoritative world clock.

The execution id is not an argument. A router's session id IS the execution, so
this process asks the router at --connect rather than being told, and refuses to
start when that endpoint reports anything other than exactly one execution.

--version reports this package's own version. Compatibility with a bundle is the
framework contract train, never this diagnostic product version.";

/// The process ends without running: it was misused, or asked for its help or
/// version.
#[derive(Debug, PartialEq, Eq)]
pub struct LaunchAnswer {
    pub text: String,
    pub exit_code: i32,
}

impl LaunchAnswer {
    /// A process ends in zero, or in two when it was misused.
    pub open spec fn well_formed(self) -> bool {
        self.exit_code == 0 || self.exit_code == 2
    }

    /// Misuse is told on standard error; help and version are not.
    pub fn to_stderr(&self) -> (to_stderr: bool)
        ensures
            to_stderr == (self.exit_code != 0),
    {
        self.exit_code != 0
    }
}

/// The values the controller was launched with.
#[derive(Debug, PartialEq, Eq)]
pub struct Cli {
    /// The installed bundle directory to read the manifest from.
    pub bundle_root: String,
    /// The supervisor router endpoint to connect to.
    pub connect: String,
}

impl Cli {
    fn definition() -> (definition: CommandDefinition)
        ensures
            definition@ == launch_definition(),
    {
        CommandDefinition {
            name: "phoxal-simulator-webots-controller",
            version: "0.1.0",
            about: "phoxal-simulator-webots-controller - the Phoxal Webots controller",
            long_about: LONG_ABOUT,
            path: OptionDefinition {
                id: "bundle_root",
                long: "bundle-root",
                value_name: "DIR",
                help: "The installed bundle directory to read the manifest from",
                required: true,
            },
            text: OptionDefinition {
                id: "connect",
                long: "connect",
                value_name: "ENDPOINT",
                help: "The supervisor router endpoint to connect to",
                required: true,
            },
        }
    }

    /// The command line this binary answers to.
    pub fn command() -> (command: clap::Command)
        ensures
            described_by(command) == launch_definition(),
    {
        command_of(&Self::definition())
    }

    /// What the launch values, or clap's answer in place of them, come to.
    pub fn from_values(values: Result<(String, String), (String, i32)>) -> (result: Result<
        Cli,
        LaunchAnswer,
    >)
        ensures
            match values {
                Ok((bundle_root, connect)) => result == Ok::<_, LaunchAnswer>(
                    Cli { bundle_root, connect },
                ),
                Err((text, exit_code)) => result == Err::<Cli, _>(LaunchAnswer { text, exit_code }),
            },
    {
        match values {
            Ok((bundle_root, connect)) => Ok(Cli { bundle_root, connect }),
            Err((text, exit_code)) => Err(LaunchAnswer { text, exit_code }),
        }
    }

    /// Take the launch values out of the process's arguments, the first of
    /// which is the program's own name.
    pub fn try_parse_from(argv: Vec<String>) -> (result: Result<Cli, LaunchAnswer>)
        ensures
            match values_given(
                launch_definition(),
                argv@.map_values(|argument: String| argument@),
            ) {
                Ok((bundle_root, connect)) => result matches Ok(cli) && cli.bundle_root@
                    == bundle_root && cli.connect@ == connect,
                Err((text, exit_code)) => result matches Err(answer) && answer.text@ == text
                    && answer.exit_code == exit_code && answer.well_formed(),
            },
    {
        let definition = Self::definition();
        Self::from_values(
            matches(Self::command(), argv, definition.path.id, definition.text.id),
        )
    }
}

/// The launch contract is two options, told apart by their names, and neither
/// may be left out.
pub proof fn law_both_launch_options_are_required()
    ensures
        launch_definition().path.required,
        launch_definition().text.required,
        launch_definition().path.long == "bundle-root"@,
        launch_definition().text.long == "connect"@,
        launch_definition().path.id != launch_definition().text.id,
        launch_definition().path.long != launch_definition().text.long,
{
    reveal_strlit("bundle_root");
    reveal_strlit("bundle-root");
    reveal_strlit("connect");
    assert("bundle_root"@.len() != "connect"@.len());
    assert("bundle-root"@.len() != "connect"@.len());
}

} // verus!
