//! The mind's command line: `daemon --socket PATH --store PATH` runs the daemon; any
//! other command line submits one request to it, `--socket PATH --actor NAME REQUEST`.

use vstd::prelude::*;

use crate::error::Error;
use crate::memory::StoreLocation;
use crate::path::has_prefix;
use crate::path::same_text;
use crate::transport::MindDaemonEndpoint;

verus! {

/// One command-line argument: its text when it is valid Unicode, and how it prints
/// in an error.
#[derive(Debug, Clone, PartialEq, Eq)]
pub struct CommandArgument {
    pub text: Option<String>,
    pub rendering: String,
}

/// The argument's text, if it has one.
pub open spec fn argument_text(argument: CommandArgument) -> Option<Seq<char>> {
    match argument.text {
        Some(text) => Some(text@),
        None => None,
    }
}

/// The argument is the flag `flag`.
pub open spec fn is_flag(argument: CommandArgument, flag: Seq<char>) -> bool {
    argument_text(argument) == Some(flag)
}

/// The argument starts with `--`.
pub open spec fn is_option(argument: CommandArgument) -> bool {
    match argument.text {
        Some(text) => "--"@.len() <= text@.len() && text@.subrange(0, "--"@.len() as int) == "--"@,
        None => false,
    }
}

impl CommandArgument {
    pub fn new(text: Option<String>, rendering: String) -> (argument: Self)
        ensures
            argument.text == text,
            argument.rendering == rendering,
    {
        CommandArgument { text, rendering }
    }

    /// Whether the argument is the text `expected`.
    pub fn matches(&self, expected: &str) -> (result: bool)
        ensures
            result == (argument_text(*self) == Some(expected@)),
    {
        match &self.text {
            Some(text) => same_text(text.as_str(), expected),
            None => false,
        }
    }

    /// Whether the argument starts with `--`.
    pub fn starts_with_option(&self) -> (result: bool)
        ensures
            result == is_option(*self),
    {
        match &self.text {
            Some(text) => has_prefix(text.as_str(), "--"),
            None => false,
        }
    }

    /// The argument's text; an argument that is not valid Unicode is refused.
    pub fn into_string(&self) -> (text: Result<String, Error>)
        ensures
            match self.text {
                Some(argument) => text matches Ok(copy) && copy@ == argument@,
                None => text matches Err(Error::InvalidCommandLineArgument { argument }) && argument@
                    == self.rendering@,
            },
    {
        match &self.text {
            Some(text) => Ok(text.clone()),
            None => Err(Error::InvalidCommandLineArgument { argument: self.rendering.clone() }),
        }
    }
}

/// What the options say: the socket, the store, the actor, and the other arguments in
/// order.
pub struct OptionsModel {
    pub socket: Option<Seq<char>>,
    pub store: Option<Seq<char>>,
    pub actor: Option<Seq<char>>,
    pub requests: Seq<Seq<char>>,
}

/// How reading the options ends.
pub enum ParseOutcome {
    Parsed(OptionsModel),
    UnknownOption(Seq<char>),
    MissingValue(Seq<char>),
    InvalidArgument(Seq<char>),
}

pub open spec fn no_options() -> OptionsModel {
    OptionsModel { socket: None, store: None, actor: None, requests: Seq::empty() }
}

/// Reads the options from `index` on, with `options` read so far: each of `--socket`,
/// `--store` and `--actor` takes the next argument as its value, the last one given
/// wins; any other argument that starts with `--` is an unknown option; every other
/// argument is a request. The first problem ends the reading.
pub open spec fn parse_from(arguments: Seq<CommandArgument>, index: int, options: OptionsModel) -> ParseOutcome
    decreases arguments.len() - index,
{
    if index < 0 || index >= arguments.len() {
        ParseOutcome::Parsed(options)
    } else {
        let argument = arguments[index];
        if is_flag(argument, "--socket"@) || is_flag(argument, "--store"@) || is_flag(argument, "--actor"@) {
            let flag = argument_text(argument)->0;
            if index + 1 >= arguments.len() {
                ParseOutcome::MissingValue(flag)
            } else {
                match argument_text(arguments[index + 1]) {
                    None => ParseOutcome::InvalidArgument(arguments[index + 1].rendering@),
                    Some(value) => parse_from(
                        arguments,
                        index + 2,
                        if flag == "--socket"@ {
                            OptionsModel { socket: Some(value), ..options }
                        } else if flag == "--store"@ {
                            OptionsModel { store: Some(value), ..options }
                        } else {
                            OptionsModel { actor: Some(value), ..options }
                        },
                    ),
                }
            }
        } else if is_option(argument) {
            ParseOutcome::UnknownOption(argument_text(argument)->0)
        } else {
            match argument_text(argument) {
                None => ParseOutcome::InvalidArgument(argument.rendering@),
                Some(text) => parse_from(
                    arguments,
                    index + 1,
                    OptionsModel { requests: options.requests.push(text), ..options },
                ),
            }
        }
    }
}

/// The options of a whole command line.
pub open spec fn parsed(arguments: Seq<CommandArgument>) -> ParseOutcome {
    parse_from(arguments, 0, no_options())
}

/// The options the command line gave.
pub struct ParsedOptions {
    socket: Option<String>,
    store: Option<StoreLocation>,
    actor: Option<String>,
    requests: Vec<String>,
}

impl ParsedOptions {
    pub closed spec fn model(&self) -> OptionsModel {
        OptionsModel {
            socket: match self.socket {
                Some(socket) => Some(socket@),
                None => None,
            },
            store: match self.store {
                Some(store) => Some(store.path()),
                None => None,
            },
            actor: match self.actor {
                Some(actor) => Some(actor@),
                None => None,
            },
            requests: self.requests@.map_values(|request: String| request@),
        }
    }

    /// The daemon's socket; `MissingSocketPath` when none was given.
    pub fn endpoint(&self) -> (endpoint: Result<MindDaemonEndpoint, Error>)
        ensures
            match self.model().socket {
                Some(socket) => endpoint matches Ok(made) && made.path() == socket,
                None => endpoint == Err::<MindDaemonEndpoint, Error>(Error::MissingSocketPath),
            },
    {
        match &self.socket {
            Some(socket) => Ok(MindDaemonEndpoint::new(socket.clone())),
            None => Err(Error::MissingSocketPath),
        }
    }

    /// The store; `MissingStorePath` when none was given.
    pub fn store(&self) -> (store: Result<StoreLocation, Error>)
        ensures
            match self.model().store {
                Some(path) => store matches Ok(made) && made.path() == path,
                None => store == Err::<StoreLocation, Error>(Error::MissingStorePath),
            },
    {
        match &self.store {
            Some(store) => Ok(store.duplicate()),
            None => Err(Error::MissingStorePath),
        }
    }

    /// The actor's name; `MissingActorName` when none was given.
    pub fn actor(&self) -> (actor: Result<String, Error>)
        ensures
            match self.model().actor {
                Some(name) => actor matches Ok(made) && made@ == name,
                None => actor == Err::<String, Error>(Error::MissingActorName),
            },
    {
        match &self.actor {
            Some(actor) => Ok(actor.clone()),
            None => Err(Error::MissingActorName),
        }
    }

    /// The one request; `WrongRequestArgumentCount` when there is not exactly one.
    pub fn request(&self) -> (request: Result<String, Error>)
        ensures
            self.model().requests.len() == 1 ==> (request matches Ok(made) && made@
                == self.model().requests[0]),
            self.model().requests.len() != 1 ==> request == Err::<String, Error>(
                Error::WrongRequestArgumentCount { count: self.model().requests.len() as usize },
            ),
            self.model().requests.len() <= usize::MAX,
    {
        let count = self.requests.len();
        if self.requests.len() == 1 {
            Ok(self.requests[0].clone())
        } else {
            Err(Error::WrongRequestArgumentCount { count: self.requests.len() })
        }
    }
}

/// `result` is how reading the options ended: the options, or the error for the
/// first problem.
pub open spec fn parse_result_matches(result: Result<ParsedOptions, Error>, outcome: ParseOutcome) -> bool {
    match outcome {
        ParseOutcome::Parsed(model) => result matches Ok(options) && options.model() == model,
        ParseOutcome::UnknownOption(option) => result matches Err(
            Error::UnknownCommandLineOption { option: found },
        ) && found@ == option,
        ParseOutcome::MissingValue(option) => result matches Err(
            Error::MissingCommandLineOptionValue { option: found },
        ) && found@ == option,
        ParseOutcome::InvalidArgument(rendering) => result matches Err(
            Error::InvalidCommandLineArgument { argument },
        ) && argument@ == rendering,
    }
}

/// Reads options from command-line arguments.
pub struct OptionParser {
    arguments: Vec<CommandArgument>,
}

impl OptionParser {
    pub closed spec fn spec_arguments(&self) -> Seq<CommandArgument> {
        self.arguments@
    }

    pub fn new(arguments: Vec<CommandArgument>) -> (parser: Self)
        ensures
            parser.spec_arguments() == arguments@,
    {
        OptionParser { arguments }
    }

    /// Reads every argument (see `parse_from`).
    pub fn parse(&mut self) -> (options: Result<ParsedOptions, Error>)
        ensures
            parse_result_matches(options, parsed(old(self).spec_arguments())),
            final(self).spec_arguments() == old(self).spec_arguments(),
    {
        let ghost arguments = self.arguments@;
        let mut socket: Option<String> = None;
        let mut store: Option<StoreLocation> = None;
        let mut actor: Option<String> = None;
        let mut requests: Vec<String> = Vec::new();
        let mut index: usize = 0;
        assert((ParsedOptions { socket, store, actor, requests }).model().requests =~= Seq::<
            Seq<char>,
        >::empty());
        while index < self.arguments.len()
            invariant
                arguments == self.arguments@,
                index <= self.arguments.len(),
                parsed(arguments) == parse_from(
                    arguments,
                    index as int,
                    (ParsedOptions { socket, store, actor, requests }).model(),
                ),
            decreases self.arguments.len() - index,
        {
            let ghost before = (ParsedOptions { socket, store, actor, requests }).model();
            let argument = &self.arguments[index];
            if argument.matches("--socket") || argument.matches("--store") || argument.matches("--actor") {
                let is_socket = argument.matches("--socket");
                let is_store = argument.matches("--store");
                let flag: &str = if is_socket {
                    "--socket"
                } else if is_store {
                    "--store"
                } else {
                    "--actor"
                };
                let value = match self.option_value(index, flag) {
                    Ok(value) => value,
                    Err(error) => {
                        return Err(error);
                    },
                };
                if is_socket {
                    socket = Some(value);
                } else if is_store {
                    store = Some(StoreLocation::new(value.as_str()));
                } else {
                    actor = Some(value);
                }
                assert((ParsedOptions { socket, store, actor, requests }).model().requests
                    =~= before.requests);
                index = index + 2;
            } else if argument.starts_with_option() {
                return match argument.into_string() {
                    Ok(option) => Err(Error::UnknownCommandLineOption { option }),
                    Err(error) => Err(error),
                };
            } else {
                let text = match argument.into_string() {
                    Ok(text) => text,
                    Err(error) => {
                        return Err(error);
                    },
                };
                let ghost pushed = text@;
                requests.push(text);
                assert((ParsedOptions { socket, store, actor, requests }).model().requests
                    =~= before.requests.push(pushed));
                index = index + 1;
            }
        }
        Ok(ParsedOptions { socket, store, actor, requests })
    }

    /// The value after the option at `option_index`; `MissingCommandLineOptionValue`
    /// when the option is the last argument.
    fn option_value(&self, option_index: usize, option: &str) -> (value: Result<String, Error>)
        requires
            option_index < self.arguments@.len(),
        ensures
            option_index + 1 >= self.arguments@.len() ==> (value matches Err(
                Error::MissingCommandLineOptionValue { option: found },
            ) && found@ == option@),
            option_index + 1 < self.arguments@.len() ==> match argument_text(
                self.arguments@[option_index + 1],
            ) {
                Some(text) => value matches Ok(made) && made@ == text,
                None => value matches Err(Error::InvalidCommandLineArgument { argument }) && argument@
                    == self.arguments@[option_index + 1].rendering@,
            },
    {
        let last = self.arguments.len() - 1;
        if option_index >= last {
            return Err(Error::MissingCommandLineOptionValue { option: String::from_str(option) });
        }
        self.arguments[option_index + 1].into_string()
    }
}

/// The daemon command: where to listen and where the store is.
pub struct DaemonCommand {
    endpoint: MindDaemonEndpoint,
    store: StoreLocation,
}

/// `result` is the daemon command that the arguments give: the socket first, then
/// the store, each refused when missing.
pub open spec fn daemon_from(arguments: Seq<CommandArgument>, result: Result<DaemonCommand, Error>) -> bool {
    match parsed(arguments) {
        ParseOutcome::Parsed(options) => match (options.socket, options.store) {
            (None, _) => result == Err::<DaemonCommand, Error>(Error::MissingSocketPath),
            (Some(_), None) => result == Err::<DaemonCommand, Error>(Error::MissingStorePath),
            (Some(socket), Some(store)) => result matches Ok(command) && command.socket() == socket
                && command.location() == store,
        },
        _ => match result {
            Ok(_) => false,
            Err(error) => parse_result_matches(Err(error), parsed(arguments)),
        },
    }
}

impl DaemonCommand {
    pub closed spec fn socket(&self) -> Seq<char> {
        self.endpoint.path()
    }

    pub closed spec fn location(&self) -> Seq<char> {
        self.store.path()
    }

    pub fn from_arguments(arguments: Vec<CommandArgument>) -> (command: Result<Self, Error>)
        ensures
            daemon_from(arguments@, command),
    {
        let mut parser = OptionParser::new(arguments);
        let options = match parser.parse() {
            Ok(options) => options,
            Err(error) => {
                return Err(error);
            },
        };
        let endpoint = match options.endpoint() {
            Ok(endpoint) => endpoint,
            Err(error) => {
                return Err(error);
            },
        };
        let store = match options.store() {
            Ok(store) => store,
            Err(error) => {
                return Err(error);
            },
        };
        Ok(DaemonCommand { endpoint, store })
    }

    pub fn endpoint(&self) -> (endpoint: &MindDaemonEndpoint)
        ensures
            endpoint.path() == self.socket(),
    {
        &self.endpoint
    }

    pub fn store(&self) -> (store: &StoreLocation)
        ensures
            store.path() == self.location(),
    {
        &self.store
    }
}

/// A request to submit: the daemon's socket, the actor it comes from, and the
/// request as written.
pub struct SubmissionCommand {
    endpoint: MindDaemonEndpoint,
    actor: String,
    request: String,
}

/// `result` is the submission that the arguments give: exactly one request first,
/// then the socket, then the actor, each refused when missing.
pub open spec fn submission_from(arguments: Seq<CommandArgument>, result: Result<SubmissionCommand, Error>) -> bool {
    match parsed(arguments) {
        ParseOutcome::Parsed(options) => if options.requests.len() != 1 {
            result matches Err(Error::WrongRequestArgumentCount { count }) && count
                == options.requests.len()
        } else {
            match (options.socket, options.actor) {
                (None, _) => result == Err::<SubmissionCommand, Error>(Error::MissingSocketPath),
                (Some(_), None) => result == Err::<SubmissionCommand, Error>(Error::MissingActorName),
                (Some(socket), Some(actor)) => result matches Ok(command) && command.socket() == socket
                    && command.actor_name() == actor && command.request_text() == options.requests[0],
            }
        },
        _ => match result {
            Ok(_) => false,
            Err(error) => parse_result_matches(Err(error), parsed(arguments)),
        },
    }
}

/// `result` is the submission that the arguments give when the request text is
/// checked as soon as there is exactly one: an outcome that `check` gives for that
/// text decides; a refusal is the answer, and an accepted text goes on as in
/// `submission_from`.
pub open spec fn submission_checked<F: Fn(String) -> Result<(), Error>>(
    arguments: Seq<CommandArgument>,
    check: F,
    result: Result<SubmissionCommand, Error>,
) -> bool {
    match parsed(arguments) {
        ParseOutcome::Parsed(options) => if options.requests.len() != 1 {
            submission_from(arguments, result)
        } else {
            exists|text: String, outcome: Result<(), Error>|
                #![trigger check.ensures((text,), outcome)]
                text@ == options.requests[0] && check.ensures((text,), outcome) && match outcome {
                    Err(error) => result == Err::<SubmissionCommand, Error>(error),
                    Ok(()) => submission_from(arguments, result),
                }
        },
        _ => submission_from(arguments, result),
    }
}

impl SubmissionCommand {
    pub closed spec fn socket(&self) -> Seq<char> {
        self.endpoint.path()
    }

    pub closed spec fn actor_name(&self) -> Seq<char> {
        self.actor@
    }

    pub closed spec fn request_text(&self) -> Seq<char> {
        self.request@
    }

    pub fn from_arguments(arguments: Vec<CommandArgument>) -> (command: Result<Self, Error>)
        ensures
            submission_from(arguments@, command),
    {
        let mut parser = OptionParser::new(arguments);
        let options = match parser.parse() {
            Ok(options) => options,
            Err(error) => {
                return Err(error);
            },
        };
        proof {
            assert(options.model().requests.len() == options.requests@.len());
        }
        let request = match options.request() {
            Ok(request) => request,
            Err(error) => {
                return Err(error);
            },
        };
        let endpoint = match options.endpoint() {
            Ok(endpoint) => endpoint,
            Err(error) => {
                return Err(error);
            },
        };
        let actor = match options.actor() {
            Ok(actor) => actor,
            Err(error) => {
                return Err(error);
            },
        };
        Ok(SubmissionCommand { endpoint, actor, request })
    }

    /// The submission that the arguments give, with its request text checked by
    /// `check` (decoding the request) as soon as there is exactly one: a refused text
    /// is refused before the socket and the actor are looked for; otherwise as
    /// `from_arguments`.
    pub fn from_arguments_checking<F: Fn(String) -> Result<(), Error>>(
        arguments: Vec<CommandArgument>,
        check: F,
    ) -> (command: Result<Self, Error>)
        requires
            forall|text: String| #[trigger] check.requires((text,)),
        ensures
            submission_checked(arguments@, check, command),
    {
        let ghost all = arguments@;
        let mut parser = OptionParser::new(arguments);
        let options = match parser.parse() {
            Ok(options) => options,
            Err(error) => {
                return Err(error);
            },
        };
        proof {
            assert(options.model().requests.len() == options.requests@.len());
        }
        let request = match options.request() {
            Ok(request) => request,
            Err(error) => {
                return Err(error);
            },
        };
        let text = request.clone();
        let ghost given = text;
        let checked = check(text);
        proof {
            assert(given@ == options.model().requests[0]);
            assert(check.ensures((given,), checked));
        }
        match checked {
            Err(error) => {
                return Err(error);
            },
            Ok(()) => {},
        }
        let endpoint = match options.endpoint() {
            Ok(endpoint) => endpoint,
            Err(error) => {
                return Err(error);
            },
        };
        let actor = match options.actor() {
            Ok(actor) => actor,
            Err(error) => {
                return Err(error);
            },
        };
        Ok(SubmissionCommand { endpoint, actor, request })
    }

    pub fn endpoint(&self) -> (endpoint: &MindDaemonEndpoint)
        ensures
            endpoint.path() == self.socket(),
    {
        &self.endpoint
    }

    pub fn actor(&self) -> (actor: &String)
        ensures
            actor@ == self.actor_name(),
    {
        &self.actor
    }

    pub fn request(&self) -> (request: &String)
        ensures
            request@ == self.request_text(),
    {
        &self.request
    }
}

/// What a command line asks for.
pub enum MindAction {
    Daemon(DaemonCommand),
    Submit(SubmissionCommand),
}

/// The mind's command line.
pub struct MindCommand {
    arguments: Vec<CommandArgument>,
}

impl MindCommand {
    pub closed spec fn spec_arguments(&self) -> Seq<CommandArgument> {
        self.arguments@
    }

    pub fn from_arguments(arguments: Vec<CommandArgument>) -> (command: Self)
        ensures
            command.spec_arguments() == arguments@,
    {
        MindCommand { arguments }
    }

    /// `daemon` and its options run the daemon; any other command line submits a
    /// request. An empty command line is refused.
    pub fn into_action(self) -> (action: Result<MindAction, Error>)
        ensures
            self.spec_arguments().len() == 0 ==> action == Err::<MindAction, Error>(Error::MissingCommandInput),
            self.spec_arguments().len() > 0 && is_flag(self.spec_arguments()[0], "daemon"@) ==> match action {
                Ok(MindAction::Daemon(daemon)) => daemon_from(self.spec_arguments().drop_first(), Ok(daemon)),
                Ok(MindAction::Submit(_)) => false,
                Err(error) => daemon_from(self.spec_arguments().drop_first(), Err(error)),
            },
            self.spec_arguments().len() > 0 && !is_flag(self.spec_arguments()[0], "daemon"@) ==> match action {
                Ok(MindAction::Submit(submission)) => submission_from(self.spec_arguments(), Ok(submission)),
                Ok(MindAction::Daemon(_)) => false,
                Err(error) => submission_from(self.spec_arguments(), Err(error)),
            },
    {
        if self.arguments.len() == 0 {
            return Err(Error::MissingCommandInput);
        }
        if self.arguments[0].matches("daemon") {
            let mut rest = self.arguments;
            let _first = rest.remove(0);
            match DaemonCommand::from_arguments(rest) {
                Ok(daemon) => Ok(MindAction::Daemon(daemon)),
                Err(error) => Err(error),
            }
        } else {
            match SubmissionCommand::from_arguments(self.arguments) {
                Ok(submission) => Ok(MindAction::Submit(submission)),
                Err(error) => Err(error),
            }
        }
    }

    /// As `into_action`, with a submission's request text checked by `check`
    /// (decoding the request) as soon as there is exactly one (see
    /// `submission_checked`).
    pub fn into_action_checking<F: Fn(String) -> Result<(), Error>>(self, check: F) -> (action: Result<
        MindAction,
        Error,
    >)
        requires
            forall|text: String| #[trigger] check.requires((text,)),
        ensures
            self.spec_arguments().len() == 0 ==> action == Err::<MindAction, Error>(Error::MissingCommandInput),
            self.spec_arguments().len() > 0 && is_flag(self.spec_arguments()[0], "daemon"@) ==> match action {
                Ok(MindAction::Daemon(daemon)) => daemon_from(self.spec_arguments().drop_first(), Ok(daemon)),
                Ok(MindAction::Submit(_)) => false,
                Err(error) => daemon_from(self.spec_arguments().drop_first(), Err(error)),
            },
            self.spec_arguments().len() > 0 && !is_flag(self.spec_arguments()[0], "daemon"@) ==> match action {
                Ok(MindAction::Submit(submission)) => submission_checked(self.spec_arguments(), check, Ok(submission)),
                Ok(MindAction::Daemon(_)) => false,
                Err(error) => submission_checked(self.spec_arguments(), check, Err(error)),
            },
    {
        if self.arguments.len() == 0 {
            return Err(Error::MissingCommandInput);
        }
        if self.arguments[0].matches("daemon") {
            let mut rest = self.arguments;
            let _first = rest.remove(0);
            match DaemonCommand::from_arguments(rest) {
                Ok(daemon) => Ok(MindAction::Daemon(daemon)),
                Err(error) => Err(error),
            }
        } else {
            match SubmissionCommand::from_arguments_checking(self.arguments, check) {
                Ok(submission) => Ok(MindAction::Submit(submission)),
                Err(error) => Err(error),
            }
        }
    }
}

} // verus!
