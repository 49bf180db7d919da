//! The command line: targets, options, and the command to start afterwards.

use crate::target::{target_of, Target, ToCheck};
use crate::text::{decimal_of, parse_decimal, same_text};
use vstd::prelude::*;
use vstd::string::*;

verus! {

/// What a command line asks for.
#[derive(PartialEq, Debug)]
pub struct Options {
    /// The targets, in the order given.
    pub to_check: Vec<ToCheck>,
    /// The overall timeout in milliseconds, if one was given.
    pub timeout: Option<u64>,
    /// The command to start when every target is ready, with its arguments.
    pub command: Option<Vec<String>>,
    /// Whether output is suppressed.
    pub silent: bool,
}

/// What to do instead, where a command line gives no `Options`.
#[derive(PartialEq, Debug)]
pub enum Action {
    /// Show the help text.
    Help,
    /// Show the version.
    Version,
    /// Show this message and the help text, and fail.
    Failed(String),
}

/// `Options` as a mathematical value.
pub struct OptionsView {
    pub to_check: Seq<Target>,
    pub timeout: Option<u64>,
    pub command: Option<Seq<Seq<char>>>,
    pub silent: bool,
}

/// `Action` as a mathematical value.
pub enum ActionView {
    Help,
    Version,
    Failed(Seq<char>),
}

/// The targets of `v` as mathematical values.
pub open spec fn targets_view(v: Seq<ToCheck>) -> Seq<Target> {
    v.map_values(|t: ToCheck| t@)
}

/// The texts of `v`.
pub open spec fn texts_view(v: Seq<String>) -> Seq<Seq<char>> {
    v.map_values(|s: String| s@)
}

impl View for Options {
    type V = OptionsView;

    open spec fn view(&self) -> OptionsView {
        OptionsView {
            to_check: targets_view(self.to_check@),
            timeout: self.timeout,
            command: match self.command {
                Some(words) => Some(texts_view(words@)),
                None => None,
            },
            silent: self.silent,
        }
    }
}

impl View for Action {
    type V = ActionView;

    open spec fn view(&self) -> ActionView {
        match self {
            Action::Help => ActionView::Help,
            Action::Version => ActionView::Version,
            Action::Failed(message) => ActionView::Failed(message@),
        }
    }
}

impl OptionsView {
    /// No target, no timeout, no command, not silent.
    pub open spec fn empty() -> OptionsView {
        OptionsView { to_check: Seq::empty(), timeout: None, command: None, silent: false }
    }
}

impl Default for Options {
    fn default() -> (r: Options)
        ensures
            r@ == OptionsView::empty(),
    {
        let r = Options { to_check: Vec::new(), timeout: None, command: None, silent: false };
        assert(r@.to_check =~= Seq::empty());
        r
    }
}

/// What the next argument is read as.
pub enum ParseState {
    /// A target or an option.
    Host,
    /// The value of the timeout option.
    Timeout,
    /// A word of the command.
    Command,
}

/// The message for a timeout that is not a number.
pub open spec fn timeout_error() -> Seq<char> {
    "Failed to parse timeout"@
}

/// The message for a command line without a target.
pub open spec fn no_target_error() -> Seq<char> {
    "You need to set at least one item to verify"@
}

/// Reads one argument: the next state and the options so far, or what to do
/// instead of going on.
pub open spec fn take_arg(state: ParseState, acc: OptionsView, arg: Seq<char>) -> Result<
    (ParseState, OptionsView),
    ActionView,
> {
    match state {
        ParseState::Command => {
            let words = match acc.command {
                Some(words) => words,
                None => Seq::empty(),
            };
            Ok((ParseState::Command, OptionsView { command: Some(words.push(arg)), ..acc }))
        },
        ParseState::Timeout => match decimal_of(arg, u64::MAX as nat) {
            Ok(millis) => Ok(
                (ParseState::Host, OptionsView { timeout: Some(millis as u64), ..acc }),
            ),
            Err(_) => Err(ActionView::Failed(timeout_error())),
        },
        ParseState::Host => if arg == "-t"@ || arg == "--timeout"@ {
            Ok((ParseState::Timeout, acc))
        } else if arg == "-s"@ || arg == "--silent"@ {
            Ok((ParseState::Host, OptionsView { silent: true, ..acc }))
        } else if arg == "-v"@ || arg == "--version"@ {
            Err(ActionView::Version)
        } else if arg == "-h"@ || arg == "--help"@ {
            Err(ActionView::Help)
        } else if arg == "--"@ {
            Ok((ParseState::Command, acc))
        } else {
            match target_of(arg) {
                Ok(target) => Ok(
                    (ParseState::Host, OptionsView { to_check: acc.to_check.push(target), ..acc }),
                ),
                Err(message) => Err(ActionView::Failed(message)),
            }
        },
    }
}

/// Reads the arguments from left to right and stops at the first that says
/// what to do instead. Without a target at the end, the command line fails.
pub open spec fn parse_from(args: Seq<Seq<char>>, state: ParseState, acc: OptionsView) -> Result<
    OptionsView,
    ActionView,
>
    decreases args.len(),
{
    if args.len() == 0 {
        if acc.to_check.len() == 0 {
            Err(ActionView::Failed(no_target_error()))
        } else {
            Ok(acc)
        }
    } else {
        match take_arg(state, acc, args[0]) {
            Err(action) => Err(action),
            Ok((next, options)) => parse_from(args.drop_first(), next, options),
        }
    }
}

/// What a command line means.
pub open spec fn parsed(args: Seq<Seq<char>>) -> Result<OptionsView, ActionView> {
    parse_from(args, ParseState::Host, OptionsView::empty())
}

/// Reads a command line, without the program's name.
///
/// Before `--` an argument is an option or a target: `-t` or `--timeout` takes
/// the next argument as milliseconds, `-s` or `--silent` suppresses output,
/// `-v` or `--version` and `-h` or `--help` end the reading. After `--` every
/// argument is a word of the command.
pub fn parse(args: Vec<String>) -> (r: Result<Options, Action>)
    ensures
        match r {
            Ok(options) => parsed(texts_view(args@)) == Ok::<OptionsView, ActionView>(options@),
            Err(action) => parsed(texts_view(args@)) == Err::<OptionsView, ActionView>(action@),
        },
        r matches Ok(options) ==> options.to_check@.len() > 0 && forall|i: int|
            0 <= i < options.to_check@.len() ==> (#[trigger] options.to_check@[i])@.valid(),
{
    let ghost texts = texts_view(args@);
    let mut options: Options = Options::default();
    let mut state: ParseState = ParseState::Host;
    let n: usize = args.len();
    let mut i: usize = 0;
    assert(texts.subrange(0, n as int) =~= texts);
    while i < n
        invariant
            i <= n == args@.len(),
            texts == texts_view(args@),
            parse_from(texts.subrange(i as int, n as int), state, options@) == parsed(texts),
            forall|k: int|
                0 <= k < options.to_check@.len() ==> (#[trigger] options.to_check@[k])@.valid(),
        decreases n - i,
    {
        let arg: &str = args[i].as_str();
        let ghost rest = texts.subrange(i as int, n as int);
        let ghost before = options@;
        proof {
            assert(rest[0] == arg@);
            assert(rest.drop_first() =~= texts.subrange(i + 1, n as int));
        }
        match state {
            ParseState::Command => {
                let mut words: Vec<String> = match options.command {
                    Some(words) => words,
                    None => Vec::new(),
                };
                proof {
                    if before.command is None {
                        assert(texts_view(words@) =~= Seq::empty());
                    }
                }
                let ghost old_words = words@;
                words.push(args[i].clone());
                assert(texts_view(words@) =~= texts_view(old_words).push(arg@));
                options.command = Some(words);
            },
            ParseState::Timeout => {
                match parse_decimal(arg, u64::MAX) {
                    Ok(millis) => {
                        options.timeout = Some(millis);
                        state = ParseState::Host;
                    },
                    Err(_) => {
                        return Err(Action::Failed(String::from_str("Failed to parse timeout")));
                    },
                }
            },
            ParseState::Host => {
                if same_text(arg, "-t") || same_text(arg, "--timeout") {
                    state = ParseState::Timeout;
                } else if same_text(arg, "-s") || same_text(arg, "--silent") {
                    options.silent = true;
                } else if same_text(arg, "-v") || same_text(arg, "--version") {
                    return Err(Action::Version);
                } else if same_text(arg, "-h") || same_text(arg, "--help") {
                    return Err(Action::Help);
                } else if same_text(arg, "--") {
                    state = ParseState::Command;
                } else {
                    match ToCheck::from_str(arg) {
                        Ok(target) => {
                            let ghost old_targets = options.to_check@;
                            options.to_check.push(target);
                            assert(targets_view(options.to_check@) =~= targets_view(
                                old_targets,
                            ).push(target@));
                        },
                        Err(message) => {
                            return Err(Action::Failed(message));
                        },
                    }
                }
            },
        }
        i = i + 1;
    }
    if options.to_check.len() == 0 {
        Err(Action::Failed(String::from_str("You need to set at least one item to verify")))
    } else {
        Ok(options)
    }
}

} // verus!
