use vstd::prelude::*;
use crate::headers::{lowercase_of, to_lowercase};
use crate::number::{parse_number, parsed_number};
use crate::policy::{CheckPolicy, CheckPolicyView, HeaderAssertion, HeaderAssertionView};
use crate::text::{
    chars_of, find_char, first_index_of, same_text, string_from, texts, trim_bounds, trimmed,
};

verus! {

/// The options that take a value.
#[derive(Debug, Clone, Copy, PartialEq, Eq, Structural)]
pub enum Flag {
    File,
    Workers,
    Timeout,
    Retries,
    Period,
    AssertHeader,
}

/// How an option is written on the command line.
pub open spec fn flag_text(flag: Flag) -> Seq<char> {
    match flag {
        Flag::File => "--file"@,
        Flag::Workers => "--workers"@,
        Flag::Timeout => "--timeout"@,
        Flag::Retries => "--retries"@,
        Flag::Period => "--period"@,
        Flag::AssertHeader => "--assert-header"@,
    }
}

/// Why a command line or a header assertion is refused.
#[derive(Debug)]
pub enum ConfigError {
    /// The option stands last, without its value.
    MissingArgument(Flag),
    /// The option's value, given here, is not a number that the option can take.
    InvalidNumber(Flag, String),
    /// The option's value is zero, and the option needs at least one.
    BelowMinimum(Flag),
    /// An argument begins with two hyphens and is no known option.
    UnknownOption(String),
    /// The header assertion has no colon between name and value.
    AssertionWithoutColon,
    /// The header assertion has an empty name or an empty value.
    AssertionPartEmpty,
}

/// The mathematical value of a [`ConfigError`].
pub enum ConfigErrorView {
    MissingArgument(Flag),
    InvalidNumber(Flag, Seq<char>),
    BelowMinimum(Flag),
    UnknownOption(Seq<char>),
    AssertionWithoutColon,
    AssertionPartEmpty,
}

impl View for ConfigError {
    type V = ConfigErrorView;

    open spec fn view(&self) -> ConfigErrorView {
        match self {
            ConfigError::MissingArgument(flag) => ConfigErrorView::MissingArgument(*flag),
            ConfigError::InvalidNumber(flag, text) => ConfigErrorView::InvalidNumber(*flag, text@),
            ConfigError::BelowMinimum(flag) => ConfigErrorView::BelowMinimum(*flag),
            ConfigError::UnknownOption(text) => ConfigErrorView::UnknownOption(text@),
            ConfigError::AssertionWithoutColon => ConfigErrorView::AssertionWithoutColon,
            ConfigError::AssertionPartEmpty => ConfigErrorView::AssertionPartEmpty,
        }
    }
}

/// What the operator is told about an error.
pub open spec fn error_text(error: ConfigErrorView) -> Seq<char> {
    match error {
        ConfigErrorView::MissingArgument(flag) => if flag == Flag::AssertHeader {
            flag_text(flag) + " requires an argument in 'Name: Value' format"@
        } else {
            flag_text(flag) + " requires an argument"@
        },
        ConfigErrorView::InvalidNumber(flag, text) => "Invalid number for "@ + flag_text(flag)
            + ": "@ + text,
        ConfigErrorView::BelowMinimum(flag) => if flag == Flag::Workers {
            flag_text(flag) + " must be at least 1"@
        } else {
            flag_text(flag) + " must be at least 1 second"@
        },
        ConfigErrorView::UnknownOption(text) => "Unknown option: "@ + text,
        ConfigErrorView::AssertionWithoutColon =>
            "Invalid format for --assert-header. Use 'Header-Name: Expected Value'"@,
        ConfigErrorView::AssertionPartEmpty =>
            "Invalid format for --assert-header: Name and Value cannot be empty. Use 'Header-Name: Expected Value'"@,
    }
}

/// How an option is written on the command line.
pub fn flag_name(flag: Flag) -> (name: &'static str)
    ensures
        name@ == flag_text(flag),
{
    match flag {
        Flag::File => "--file",
        Flag::Workers => "--workers",
        Flag::Timeout => "--timeout",
        Flag::Retries => "--retries",
        Flag::Period => "--period",
        Flag::AssertHeader => "--assert-header",
    }
}

impl ConfigError {
    /// What the operator is told about this error.
    pub fn message(&self) -> (text: String)
        ensures
            text@ == error_text(self@),
    {
        match self {
            ConfigError::MissingArgument(flag) => {
                let mut text = String::from_str(flag_name(*flag));
                match flag {
                    Flag::AssertHeader => text.append(
                        " requires an argument in 'Name: Value' format",
                    ),
                    _ => text.append(" requires an argument"),
                }
                text
            },
            ConfigError::InvalidNumber(flag, given) => {
                let mut text = String::from_str("Invalid number for ");
                text.append(flag_name(*flag));
                text.append(": ");
                text.append(given.as_str());
                text
            },
            ConfigError::BelowMinimum(flag) => {
                let mut text = String::from_str(flag_name(*flag));
                match flag {
                    Flag::Workers => text.append(" must be at least 1"),
                    _ => text.append(" must be at least 1 second"),
                }
                text
            },
            ConfigError::UnknownOption(given) => {
                let mut text = String::from_str("Unknown option: ");
                text.append(given.as_str());
                text
            },
            ConfigError::AssertionWithoutColon => String::from_str(
                "Invalid format for --assert-header. Use 'Header-Name: Expected Value'",
            ),
            ConfigError::AssertionPartEmpty => String::from_str(
                "Invalid format for --assert-header: Name and Value cannot be empty. Use 'Header-Name: Expected Value'",
            ),
        }
    }
}

/// What a header assertion written as `Name: Value` asserts. Name and value
/// are parted by the first colon and stripped of the whitespace around them;
/// neither may be empty. The name is kept in lower case, the value as it is.
pub open spec fn parsed_assertion(text: Seq<char>) -> Result<HeaderAssertionView, ConfigErrorView> {
    let colon = first_index_of(text, ':') as int;
    if colon >= text.len() {
        Err(ConfigErrorView::AssertionWithoutColon)
    } else {
        let name = trimmed(text.take(colon));
        let value = trimmed(text.skip(colon + 1));
        if name.len() == 0 || value.len() == 0 {
            Err(ConfigErrorView::AssertionPartEmpty)
        } else {
            Ok(HeaderAssertionView { name: lowercase_of(name), value })
        }
    }
}

/// The view of what `parse_header_assertion` returns.
pub open spec fn assertion_result_view(result: Result<HeaderAssertion, ConfigError>) -> Result<
    HeaderAssertionView,
    ConfigErrorView,
> {
    match result {
        Ok(assertion) => Ok(assertion@),
        Err(error) => Err(error@),
    }
}

/// Reads a header assertion written as `Name: Value`.
pub fn parse_header_assertion(text: &str) -> (result: Result<HeaderAssertion, ConfigError>)
    ensures
        assertion_result_view(result) == parsed_assertion(text@),
{
    let chars = chars_of(text);
    assert(chars@.subrange(0, chars.len() as int) == text@);
    let colon = find_char(&chars, ':', 0, chars.len());
    if colon >= chars.len() {
        return Err(ConfigError::AssertionWithoutColon);
    }
    assert(chars@.subrange(0, colon as int) == text@.take(colon as int));
    assert(chars@.subrange(colon + 1, chars.len() as int) == text@.skip(colon + 1));
    let (name_from, name_to) = trim_bounds(&chars, 0, colon);
    let (value_from, value_to) = trim_bounds(&chars, colon + 1, chars.len());
    if name_from == name_to || value_from == value_to {
        return Err(ConfigError::AssertionPartEmpty);
    }
    let name = string_from(&chars, name_from, name_to);
    let value = string_from(&chars, value_from, value_to);
    Ok(HeaderAssertion { name: to_lowercase(name.as_str()), value })
}

/// What a command line asks for, as mathematical values.
pub struct Settings {
    /// The URLs given as arguments, in their order.
    pub urls: Seq<Seq<char>>,
    /// The file to read more URLs from.
    pub file_path: Option<Seq<char>>,
    pub workers: usize,
    pub timeout_seconds: u64,
    pub retries: u32,
    pub period_seconds: Option<u64>,
    /// The header assertion as it was written.
    pub assertion: Option<Seq<char>>,
}

/// The settings of a command line that gives nothing: one round, attempts of
/// five seconds, no retry, no header assertion.
pub open spec fn default_settings(workers: usize) -> Settings {
    Settings {
        urls: Seq::empty(),
        file_path: None,
        workers,
        timeout_seconds: 5,
        retries: 0,
        period_seconds: None,
        assertion: None,
    }
}

/// What the reading of a command line has come to.
pub enum Scanned {
    /// The settings read so far.
    Settings(Settings),
    /// The operator asked for the usage text.
    Help,
    /// The command line is refused.
    Refused(ConfigErrorView),
}

/// The option that an argument names, if it names one that takes a value.
pub open spec fn flag_of(arg: Seq<char>) -> Option<Flag> {
    if arg == flag_text(Flag::File) {
        Some(Flag::File)
    } else if arg == flag_text(Flag::Workers) {
        Some(Flag::Workers)
    } else if arg == flag_text(Flag::Timeout) {
        Some(Flag::Timeout)
    } else if arg == flag_text(Flag::Retries) {
        Some(Flag::Retries)
    } else if arg == flag_text(Flag::Period) {
        Some(Flag::Period)
    } else if arg == flag_text(Flag::AssertHeader) {
        Some(Flag::AssertHeader)
    } else {
        None
    }
}

/// True when the argument asks for the usage text.
pub open spec fn asks_help(arg: Seq<char>) -> bool {
    arg == "-h"@ || arg == "--help"@
}

/// True when the argument begins with two hyphens.
pub open spec fn looks_like_option(arg: Seq<char>) -> bool {
    arg.len() >= 2 && arg[0] == '-' && arg[1] == '-'
}

/// The greatest number that an option can take.
pub open spec fn flag_max(flag: Flag) -> nat {
    match flag {
        Flag::Workers => usize::MAX as nat,
        Flag::Retries => u32::MAX as nat,
        _ => u64::MAX as nat,
    }
}

/// The least number that an option can take.
pub open spec fn flag_min(flag: Flag) -> nat {
    match flag {
        Flag::Retries => 0,
        _ => 1,
    }
}

/// The number that `value` gives to `flag`, or the reason why it gives none.
pub open spec fn number_for(flag: Flag, value: Seq<char>) -> Result<nat, ConfigErrorView> {
    match parsed_number(value, flag_max(flag)) {
        None => Err(ConfigErrorView::InvalidNumber(flag, value)),
        Some(n) => if n < flag_min(flag) {
            Err(ConfigErrorView::BelowMinimum(flag))
        } else {
            Ok(n)
        },
    }
}

/// The settings after the option `flag` was given `value`. A later option
/// replaces an earlier one of the same kind.
pub open spec fn with_value(settings: Settings, flag: Flag, value: Seq<char>) -> Scanned {
    match flag {
        Flag::File => Scanned::Settings(Settings { file_path: Some(value), ..settings }),
        Flag::AssertHeader => Scanned::Settings(Settings { assertion: Some(value), ..settings }),
        _ => match number_for(flag, value) {
            Err(error) => Scanned::Refused(error),
            Ok(n) => Scanned::Settings(
                match flag {
                    Flag::Workers => Settings { workers: n as usize, ..settings },
                    Flag::Timeout => Settings { timeout_seconds: n as u64, ..settings },
                    Flag::Retries => Settings { retries: n as u32, ..settings },
                    _ => Settings { period_seconds: Some(n as u64), ..settings },
                },
            ),
        },
    }
}

/// The reading of the arguments from index `i` on, with `settings` read
/// before. An option takes the argument after it as its value; a request for
/// help ends the reading; an unknown option is refused; anything else is a
/// URL.
pub open spec fn scanned(args: Seq<Seq<char>>, i: int, settings: Settings) -> Scanned
    decreases args.len() - i,
{
    if i < 0 || i >= args.len() {
        Scanned::Settings(settings)
    } else {
        match flag_of(args[i]) {
            Some(flag) => if i + 1 >= args.len() {
                Scanned::Refused(ConfigErrorView::MissingArgument(flag))
            } else {
                match with_value(settings, flag, args[i + 1]) {
                    Scanned::Settings(next) => scanned(args, i + 2, next),
                    other => other,
                }
            },
            None => if asks_help(args[i]) {
                Scanned::Help
            } else if looks_like_option(args[i]) {
                Scanned::Refused(ConfigErrorView::UnknownOption(args[i]))
            } else {
                scanned(args, i + 1, Settings { urls: settings.urls.push(args[i]), ..settings })
            },
        }
    }
}

/// What a command line asks for.
#[derive(Debug)]
pub struct Options {
    /// The URLs given as arguments, in their order.
    pub urls: Vec<String>,
    /// The file to read more URLs from.
    pub file_path: Option<String>,
    pub workers: usize,
    pub policy: CheckPolicy,
    /// The pause between rounds in seconds; `None` for a single round.
    pub period_seconds: Option<u64>,
}

/// The mathematical value of [`Options`].
pub struct OptionsView {
    pub urls: Seq<Seq<char>>,
    pub file_path: Option<Seq<char>>,
    pub workers: usize,
    pub policy: CheckPolicyView,
    pub period_seconds: Option<u64>,
}

impl View for Options {
    type V = OptionsView;

    open spec fn view(&self) -> OptionsView {
        OptionsView {
            urls: texts(self.urls@),
            file_path: match self.file_path {
                Some(path) => Some(path@),
                None => None,
            },
            workers: self.workers,
            policy: self.policy@,
            period_seconds: self.period_seconds,
        }
    }
}

/// What the program was called for.
#[derive(Debug)]
pub enum Invocation {
    /// To show the usage text.
    Help,
    /// To check URLs.
    Run(Options),
}

/// The mathematical value of an [`Invocation`].
pub enum InvocationView {
    Help,
    Run(OptionsView),
}

impl View for Invocation {
    type V = InvocationView;

    open spec fn view(&self) -> InvocationView {
        match self {
            Invocation::Help => InvocationView::Help,
            Invocation::Run(options) => InvocationView::Run(options@),
        }
    }
}

/// The options that settings stand for, with the header assertion read.
pub open spec fn options_of(settings: Settings, assertion: Option<HeaderAssertionView>) -> OptionsView {
    OptionsView {
        urls: settings.urls,
        file_path: settings.file_path,
        workers: settings.workers,
        policy: CheckPolicyView {
            timeout_seconds: settings.timeout_seconds,
            retries: settings.retries,
            header_assertion: assertion,
        },
        period_seconds: settings.period_seconds,
    }
}

/// What a command line asks for. `args[0]` is the program's name and is not
/// read. The arguments are read first; the header assertion, where one was
/// given, is read after them.
pub open spec fn parsed_args(args: Seq<Seq<char>>, default_workers: usize) -> Result<
    InvocationView,
    ConfigErrorView,
> {
    match scanned(args, 1, default_settings(default_workers)) {
        Scanned::Help => Ok(InvocationView::Help),
        Scanned::Refused(error) => Err(error),
        Scanned::Settings(settings) => match settings.assertion {
            None => Ok(InvocationView::Run(options_of(settings, None))),
            Some(text) => match parsed_assertion(text) {
                Err(error) => Err(error),
                Ok(assertion) => Ok(InvocationView::Run(options_of(settings, Some(assertion)))),
            },
        },
    }
}

/// The view of what `parse_args` returns.
pub open spec fn invocation_result_view(result: Result<Invocation, ConfigError>) -> Result<
    InvocationView,
    ConfigErrorView,
> {
    match result {
        Ok(invocation) => Ok(invocation@),
        Err(error) => Err(error@),
    }
}

/// The settings read so far.
struct Draft {
    urls: Vec<String>,
    file_path: Option<String>,
    workers: usize,
    timeout_seconds: u64,
    retries: u32,
    period_seconds: Option<u64>,
    assertion: Option<String>,
}

impl View for Draft {
    type V = Settings;

    closed spec fn view(&self) -> Settings {
        Settings {
            urls: texts(self.urls@),
            file_path: match self.file_path {
                Some(path) => Some(path@),
                None => None,
            },
            workers: self.workers,
            timeout_seconds: self.timeout_seconds,
            retries: self.retries,
            period_seconds: self.period_seconds,
            assertion: match self.assertion {
                Some(text) => Some(text@),
                None => None,
            },
        }
    }
}

fn read_flag(arg: &str) -> (flag: Option<Flag>)
    ensures
        flag == flag_of(arg@),
{
    if same_text(arg, "--file") {
        Some(Flag::File)
    } else if same_text(arg, "--workers") {
        Some(Flag::Workers)
    } else if same_text(arg, "--timeout") {
        Some(Flag::Timeout)
    } else if same_text(arg, "--retries") {
        Some(Flag::Retries)
    } else if same_text(arg, "--period") {
        Some(Flag::Period)
    } else if same_text(arg, "--assert-header") {
        Some(Flag::AssertHeader)
    } else {
        None
    }
}

fn begins_with_two_hyphens(arg: &str) -> (yes: bool)
    ensures
        yes == looks_like_option(arg@),
{
    let chars = chars_of(arg);
    chars.len() >= 2 && chars[0] == '-' && chars[1] == '-'
}

fn read_number(flag: Flag, value: &String) -> (result: Result<u64, ConfigError>)
    requires
        flag != Flag::File,
        flag != Flag::AssertHeader,
    ensures
        match result {
            Ok(n) => number_for(flag, value@) == Ok::<nat, ConfigErrorView>(n as nat),
            Err(error) => number_for(flag, value@) == Err::<nat, ConfigErrorView>(error@),
        },
{
    let max: u64 = match flag {
        Flag::Workers => usize::MAX as u64,
        Flag::Retries => u32::MAX as u64,
        _ => u64::MAX,
    };
    let min: u64 = match flag {
        Flag::Retries => 0,
        _ => 1,
    };
    match parse_number(value.as_str(), max) {
        None => Err(ConfigError::InvalidNumber(flag, value.clone())),
        Some(n) => if n < min {
            Err(ConfigError::BelowMinimum(flag))
        } else {
            Ok(n)
        },
    }
}

/// Reads the command line. `args[0]` is the program's name; `default_workers`
/// is the number of workers where the command line gives none.
pub fn parse_args(args: &Vec<String>, default_workers: usize) -> (result: Result<
    Invocation,
    ConfigError,
>)
    ensures
        invocation_result_view(result) == parsed_args(texts(args@), default_workers),
{
    let ghost all = texts(args@);
    let mut draft = Draft {
        urls: Vec::new(),
        file_path: None,
        workers: default_workers,
        timeout_seconds: 5,
        retries: 0,
        period_seconds: None,
        assertion: None,
    };
    assert(draft@.urls =~= Seq::empty());
    let mut i: usize = 1;
    while i < args.len()
        invariant
            1 <= i,
            all == texts(args@),
            scanned(all, 1, default_settings(default_workers)) == scanned(all, i as int, draft@),
        decreases args.len() - i,
    {
        let arg = &args[i];
        assert(all[i as int] == arg@);
        match read_flag(arg.as_str()) {
            Some(flag) => {
                if i + 1 >= args.len() {
                    return Err(ConfigError::MissingArgument(flag));
                }
                let value = &args[i + 1];
                assert(all[i + 1] == value@);
                match flag {
                    Flag::File => {
                        draft.file_path = Some(value.clone());
                    },
                    Flag::AssertHeader => {
                        draft.assertion = Some(value.clone());
                    },
                    Flag::Workers => match read_number(flag, value) {
                        Ok(n) => {
                            draft.workers = n as usize;
                        },
                        Err(error) => {
                            return Err(error);
                        },
                    },
                    Flag::Timeout => match read_number(flag, value) {
                        Ok(n) => {
                            draft.timeout_seconds = n;
                        },
                        Err(error) => {
                            return Err(error);
                        },
                    },
                    Flag::Retries => match read_number(flag, value) {
                        Ok(n) => {
                            draft.retries = n as u32;
                        },
                        Err(error) => {
                            return Err(error);
                        },
                    },
                    Flag::Period => match read_number(flag, value) {
                        Ok(n) => {
                            draft.period_seconds = Some(n);
                        },
                        Err(error) => {
                            return Err(error);
                        },
                    },
                }
                i += 2;
            },
            None => {
                if same_text(arg.as_str(), "-h") || same_text(arg.as_str(), "--help") {
                    return Ok(Invocation::Help);
                }
                if begins_with_two_hyphens(arg.as_str()) {
                    return Err(ConfigError::UnknownOption(arg.clone()));
                }
                let ghost before = draft@.urls;
                draft.urls.push(arg.clone());
                assert(draft@.urls =~= before.push(arg@));
                i += 1;
            },
        }
    }
    let Draft { urls, file_path, workers, timeout_seconds, retries, period_seconds, assertion } =
        draft;
    let header_assertion = match assertion {
        None => None,
        Some(text) => match parse_header_assertion(text.as_str()) {
            Ok(assertion) => Some(assertion),
            Err(error) => {
                return Err(error);
            },
        },
    };
    Ok(
        Invocation::Run(
            Options {
                urls,
                file_path,
                workers,
                policy: CheckPolicy { timeout_seconds, retries, header_assertion },
                period_seconds,
            },
        ),
    )
}

} // verus!
