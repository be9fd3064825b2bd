//! The command line: which runtime, how many samples, which benchmarks.

use crate::result::SampleCount;
use crate::text::{push_char, same_text, texts_of, NumberError};
use vstd::prelude::*;
use vstd::string::*;

verus! {

/// `lexopt::Parser`, of which nothing is seen from here but what `unread` names.
#[verifier::external_type_specification]
#[verifier::external_body]
pub struct ExParser(lexopt::Parser);

/// `lexopt::Error`, which `explain` takes apart.
#[verifier::external_type_specification]
#[verifier::external_body]
pub struct ExLexError(lexopt::Error);

/// What is printed when help is asked for.
pub const HELP_MESSAGE: &'static str = "\
tachyobench
Benchmark runner for Tachyonix

USAGE:
    tachyobench [OPTIONS] <BENCHNAME>

ARGS:
    <BENCHNAME>    If specified, only run benches containing this string in their names

OPTIONS:
    -h, --help             Print help information
    -l, --list             List available benches
    -s, --samples SAMPLES  Repeat benches SAMPLES times and average the result
    -o, --output FILE      Save the results to FILE
    -e, --exec EXECUTOR    Run the bench with the EXECUTOR runtime;
                           possible values:
                               tokio [default],
                               nexosim,
                               smol,
                               smolscale";

/// The task-scheduling runtimes a benchmark can be bound to.
#[derive(Clone, Copy, PartialEq, Eq, Debug, Structural)]
pub enum ExecutorId {
    Tokio,
    Nexosim,
    Smol,
    SmolScale,
}

impl ExecutorId {
    /// The name by which the command line selects this runtime.
    pub open spec fn spec_name(self) -> Seq<char> {
        match self {
            ExecutorId::Tokio => "tokio"@,
            ExecutorId::Nexosim => "nexosim"@,
            ExecutorId::Smol => "smol"@,
            ExecutorId::SmolScale => "smolscale"@,
        }
    }

    /// The runtime that a name selects, if any.
    pub open spec fn named(name: Seq<char>) -> Option<ExecutorId> {
        if name == "tokio"@ {
            Some(ExecutorId::Tokio)
        } else if name == "nexosim"@ {
            Some(ExecutorId::Nexosim)
        } else if name == "smol"@ {
            Some(ExecutorId::Smol)
        } else if name == "smolscale"@ {
            Some(ExecutorId::SmolScale)
        } else {
            None
        }
    }

    /// Looks a runtime up by its name; a name that belongs to no runtime is an error.
    pub fn new(name: &str) -> (r: Result<ExecutorId, ()>)
        ensures
            match r {
                Ok(id) => Self::named(name@) == Some(id),
                Err(_) => Self::named(name@) is None,
            },
    {
        if same_text(name, "tokio") {
            Ok(ExecutorId::Tokio)
        } else if same_text(name, "nexosim") {
            Ok(ExecutorId::Nexosim)
        } else if same_text(name, "smol") {
            Ok(ExecutorId::Smol)
        } else if same_text(name, "smolscale") {
            Ok(ExecutorId::SmolScale)
        } else {
            Err(())
        }
    }

    /// The name of this runtime.
    pub fn name(&self) -> (s: &'static str)
        ensures
            s@ == self.spec_name(),
    {
        match self {
            ExecutorId::Tokio => "tokio",
            ExecutorId::Nexosim => "nexosim",
            ExecutorId::Smol => "smol",
            ExecutorId::SmolScale => "smolscale",
        }
    }
}

/// One item of a command line, as the lexer hands it out.
#[derive(Clone, Debug, PartialEq, Eq)]
pub enum Token {
    /// An option of one character, without its dash.
    Short(char),
    /// An option with a long name, without its two dashes.
    Long(String),
    /// An argument that is no option.
    Value(String),
}

/// The settings that take a value.
#[derive(Clone, Copy, Debug, PartialEq, Eq, Structural)]
pub enum Setting {
    Samples,
    Output,
    Exec,
}

/// The options of the command line.
#[derive(Clone, Copy, Debug, PartialEq, Eq, Structural)]
pub enum Flag {
    Help,
    List,
    Takes(Setting),
}

/// A token as plain values.
pub enum TokenView {
    Short(char),
    Long(Seq<char>),
    Value(Seq<char>),
}

impl View for Token {
    type V = TokenView;

    open spec fn view(&self) -> TokenView {
        match self {
            Token::Short(c) => TokenView::Short(*c),
            Token::Long(name) => TokenView::Long(name@),
            Token::Value(text) => TokenView::Value(text@),
        }
    }
}

impl TokenView {
    /// The option that a token names; none for a free argument and for an unknown option.
    pub open spec fn flag(self) -> Option<Flag> {
        match self {
            TokenView::Short(c) => if c == 'h' {
                Some(Flag::Help)
            } else if c == 'l' {
                Some(Flag::List)
            } else if c == 's' {
                Some(Flag::Takes(Setting::Samples))
            } else if c == 'o' {
                Some(Flag::Takes(Setting::Output))
            } else if c == 'e' {
                Some(Flag::Takes(Setting::Exec))
            } else {
                None
            },
            TokenView::Long(name) => if name == "help"@ {
                Some(Flag::Help)
            } else if name == "list"@ {
                Some(Flag::List)
            } else if name == "samples"@ {
                Some(Flag::Takes(Setting::Samples))
            } else if name == "output"@ {
                Some(Flag::Takes(Setting::Output))
            } else if name == "exec"@ {
                Some(Flag::Takes(Setting::Exec))
            } else {
                None
            },
            TokenView::Value(_) => None,
        }
    }

    /// How a token is written on the command line, dashes included: the text that the
    /// error for an unknown option quotes.
    pub open spec fn written(self) -> Seq<char> {
        match self {
            TokenView::Short(c) => seq!['-', c],
            TokenView::Long(name) => seq!['-', '-'] + name,
            TokenView::Value(text) => text,
        }
    }
}

impl Token {
    /// The option that a token names; none for a free argument and for an unknown option.
    pub open spec fn flag(&self) -> Option<Flag> {
        self@.flag()
    }

    /// How a token is written on the command line, dashes included.
    pub open spec fn written(&self) -> Seq<char> {
        self@.written()
    }

    /// Computes `flag`.
    pub fn option(&self) -> (r: Option<Flag>)
        ensures
            r == self.flag(),
    {
        match self {
            Token::Short(c) => {
                let c = *c;
                if c == 'h' {
                    Some(Flag::Help)
                } else if c == 'l' {
                    Some(Flag::List)
                } else if c == 's' {
                    Some(Flag::Takes(Setting::Samples))
                } else if c == 'o' {
                    Some(Flag::Takes(Setting::Output))
                } else if c == 'e' {
                    Some(Flag::Takes(Setting::Exec))
                } else {
                    None
                }
            },
            Token::Long(name) => {
                if same_text(name.as_str(), "help") {
                    Some(Flag::Help)
                } else if same_text(name.as_str(), "list") {
                    Some(Flag::List)
                } else if same_text(name.as_str(), "samples") {
                    Some(Flag::Takes(Setting::Samples))
                } else if same_text(name.as_str(), "output") {
                    Some(Flag::Takes(Setting::Output))
                } else if same_text(name.as_str(), "exec") {
                    Some(Flag::Takes(Setting::Exec))
                } else {
                    None
                }
            },
            Token::Value(_) => None,
        }
    }

    /// The error for a token that the command line has no use for.
    pub fn unexpected(self) -> (e: ArgError)
        ensures
            match self {
                Token::Value(_) => e matches ArgError::UnexpectedArgument(text) && text@
                    == self.written(),
                _ => e matches ArgError::UnexpectedOption(text) && text@ == self.written(),
            },
    {
        match self {
            Token::Short(c) => {
                let mut text = String::new();
                push_char(&mut text, '-');
                push_char(&mut text, c);
                assert(text@ == seq!['-', c]);
                ArgError::UnexpectedOption(text)
            },
            Token::Long(name) => {
                let mut text = String::new();
                push_char(&mut text, '-');
                push_char(&mut text, '-');
                text.append(name.as_str());
                assert(text@ == seq!['-', '-'] + name@);
                ArgError::UnexpectedOption(text)
            },
            Token::Value(text) => ArgError::UnexpectedArgument(text),
        }
    }
}

/// Why a command line is refused.
#[derive(Clone, Debug, PartialEq, Eq)]
pub enum ArgError {
    /// An option wants a value and the command line ends.
    MissingValue { last_option: Option<String> },
    /// An option that the command line does not know.
    UnexpectedOption(String),
    /// A free argument where none is taken.
    UnexpectedArgument(String),
    /// A value for an option that takes none, or a value that the option cannot use.
    UnexpectedValue { option: String, value: String },
    /// A value that is no number of the kind the option wants.
    ParsingFailed { value: String, error: NumberError },
    /// A value that is no Unicode text.
    NonUnicodeValue(String),
    /// Anything else, by its message.
    Custom(String),
}

/// What a run was asked to do.
#[derive(Clone, Debug, PartialEq, Eq)]
pub struct BenchArgs {
    /// Run the benchmarks whose names hold one of these texts; all of them if there is none.
    pub bench_substrings: Vec<String>,
    /// The runtime to bind the benchmarks to.
    pub executor: ExecutorId,
    /// How often each measurement is repeated.
    pub samples: SampleCount,
    /// Where to save the table of results, if anywhere.
    pub output: Option<String>,
}

/// What a run was asked to do, as plain values.
pub struct BenchArgsView {
    pub bench_substrings: Seq<Seq<char>>,
    pub executor: ExecutorId,
    pub samples: nat,
    pub output: Option<Seq<char>>,
}

impl View for BenchArgs {
    type V = BenchArgsView;

    open spec fn view(&self) -> BenchArgsView {
        BenchArgsView {
            bench_substrings: texts_of(self.bench_substrings@),
            executor: self.executor,
            samples: self.samples@,
            output: match self.output {
                Some(path) => Some(path@),
                None => None,
            },
        }
    }
}

impl BenchArgsView {
    /// What holds before any argument is read: every benchmark, on `tokio`, one sample, no
    /// file.
    pub open spec fn initial() -> BenchArgsView {
        BenchArgsView {
            bench_substrings: Seq::empty(),
            executor: ExecutorId::Tokio,
            samples: 1,
            output: None,
        }
    }

    /// The settings after an option was given a value; none where the option cannot use
    /// the value.
    pub open spec fn with(self, setting: Setting, value: Seq<char>) -> Option<BenchArgsView> {
        match setting {
            Setting::Samples => match SampleCount::of_text(value) {
                Ok(samples) => Some(BenchArgsView { samples, ..self }),
                Err(_) => None,
            },
            Setting::Output => Some(BenchArgsView { output: Some(value), ..self }),
            Setting::Exec => match ExecutorId::named(value) {
                Some(executor) => Some(BenchArgsView { executor, ..self }),
                None => None,
            },
        }
    }

    /// The settings after one more free argument.
    pub open spec fn with_filter(self, text: Seq<char>) -> BenchArgsView {
        BenchArgsView { bench_substrings: self.bench_substrings.push(text), ..self }
    }
}

impl BenchArgs {
    /// The settings of a command line without arguments.
    pub fn new() -> (args: BenchArgs)
        ensures
            args@ == BenchArgsView::initial(),
    {
        let args = BenchArgs {
            bench_substrings: Vec::new(),
            executor: ExecutorId::Tokio,
            samples: SampleCount::one(),
            output: None,
        };
        assert(args@.bench_substrings =~= Seq::empty());
        args
    }

    /// Gives an option its value. A sample count that is no positive number of 32 bits is
    /// refused as a parsing failure, with the text and the kind of failure; a runtime that
    /// does not exist is refused as an unexpected value of `exec`. A refusal changes nothing.
    pub fn set(&mut self, setting: Setting, value: String) -> (r: Result<(), ArgError>)
        ensures
            match old(self)@.with(setting, value@) {
                Some(after) => r is Ok && final(self)@ == after,
                None => r is Err && final(self)@ == old(self)@,
            },
            setting == Setting::Samples ==> match SampleCount::of_text(value@) {
                Ok(_) => r is Ok,
                Err(kind) => r matches Err(ArgError::ParsingFailed { value: quoted, error })
                    && quoted@ == value@ && error == kind,
            },
            setting == Setting::Exec && r is Err ==> (r matches Err(
                ArgError::UnexpectedValue { option, value: quoted },
            ) && option@ == "exec"@ && quoted@ == value@),
    {
        match setting {
            Setting::Samples => match SampleCount::parse(value.as_str()) {
                Ok(samples) => {
                    self.samples = samples;
                    Ok(())
                },
                Err(error) => Err(ArgError::ParsingFailed { value, error }),
            },
            Setting::Output => {
                self.output = Some(value);
                Ok(())
            },
            Setting::Exec => match ExecutorId::new(value.as_str()) {
                Ok(executor) => {
                    self.executor = executor;
                    Ok(())
                },
                Err(_) => Err(
                    ArgError::UnexpectedValue { option: "exec".to_owned(), value },
                ),
            },
        }
    }

    /// Takes one more free argument as a filter on the names of the benchmarks.
    pub fn add_filter(&mut self, text: String)
        ensures
            final(self)@ == old(self)@.with_filter(text@),
    {
        self.bench_substrings.push(text);
        assert(texts_of(self.bench_substrings@) =~= texts_of(old(self).bench_substrings@).push(
            text@,
        ));
    }
}

/// What a command line asks for.
#[derive(Clone, Debug, PartialEq, Eq)]
pub enum Command {
    /// Print the help text and run nothing.
    Help,
    /// Print the names of the benchmarks and run nothing.
    List,
    /// Run benchmarks.
    Run(BenchArgs),
}

/// The arguments that a parser has not begun, in their order.
pub uninterp spec fn pending(parser: lexopt::Parser) -> Seq<Seq<char>>;

/// Whether a parser is in the middle of an argument: it has handed out an option, and
/// more of the same argument is left, be it further options or a value.
pub uninterp spec fn midway(parser: lexopt::Parser) -> bool;

/// What is left of the argument that a parser is in the middle of, as a value: what
/// stands behind the `=` of a long option, or what stands behind the short option that
/// was handed out last, without a `=` in front of it.
pub uninterp spec fn leftover(parser: lexopt::Parser) -> Seq<char>;

/// Whether a parser has seen the argument `--`, after which everything is a free argument.
pub uninterp spec fn options_done(parser: lexopt::Parser) -> bool;

/// Whether a parser stands between two arguments and may still find options.
pub open spec fn idle(parser: lexopt::Parser) -> bool {
    !midway(parser) && !options_done(parser)
}

/// Whether an argument is the one that ends the options.
pub open spec fn is_separator(arg: Seq<char>) -> bool {
    arg == seq!['-', '-']
}

/// Whether an argument begins with two dashes.
pub open spec fn is_long(arg: Seq<char>) -> bool {
    arg.len() >= 2 && arg[0] == '-' && arg[1] == '-'
}

/// Whether an argument is a dash and at least one character that is no dash.
pub open spec fn is_short(arg: Seq<char>) -> bool {
    arg.len() >= 2 && arg[0] == '-' && arg[1] != '-'
}

/// Where `mark` stands first in a text; the length of the text if it stands nowhere.
pub open spec fn first_place(text: Seq<char>, mark: char) -> int
    decreases text.len(),
{
    if text.len() == 0 || text[0] == mark {
        0
    } else {
        1 + first_place(text.drop_first(), mark)
    }
}

/// What the lexer hands out first of an argument that is not `--`, where options may
/// still come: of two dashes and more, the long option whose name ends before the first
/// `=`; of a dash and more, the short option of the first character behind the dash; of
/// anything else, the argument itself as a free argument.
pub open spec fn token_of(arg: Seq<char>) -> TokenView {
    if is_long(arg) {
        TokenView::Long(arg.subrange(2, first_place(arg, '=')))
    } else if is_short(arg) {
        TokenView::Short(arg[1])
    } else {
        TokenView::Value(arg)
    }
}

/// The value that is written in one argument with its option, if there is one: behind the
/// first `=` of a long option; behind a short option, without a `=` in front of it.
pub open spec fn joined_of(arg: Seq<char>) -> Option<Seq<char>> {
    if is_long(arg) {
        if first_place(arg, '=') < arg.len() {
            Some(arg.subrange(first_place(arg, '=') + 1, arg.len() as int))
        } else {
            None
        }
    } else if is_short(arg) && arg.len() > 2 {
        if arg[2] == '=' {
            Some(arg.subrange(3, arg.len() as int))
        } else {
            Some(arg.subrange(2, arg.len() as int))
        }
    } else {
        None
    }
}

/// `lexopt::Parser::from_args`: a parser over arguments that do not begin with the name of
/// the program. It has begun none of them.
#[verifier::external_body]
fn parser_over(args: Vec<String>) -> (parser: lexopt::Parser)
    ensures
        pending(parser) == texts_of(args@),
        idle(parser),
{
    lexopt::Parser::from_args(args)
}

/// `lexopt::Parser::next`: the next option or free argument, none at the end of the command
/// line, or the error for a value that an option was given and nobody took. A free argument
/// is decoded with `lexopt::ValueExt::string`.
///
/// The parser takes up arguments in their order and never gives one back. Where it is not
/// in the middle of an argument, an item that it hands out costs at least one argument, and
/// with no argument left it reports the end. After a free argument it is not in the middle
/// of an argument.
///
/// Where it stands between two arguments and may still find options: an argument that is
/// not `--` is taken up and `token_of` is handed out; if `joined_of` finds a value in the
/// argument, the parser is then in the middle of it with that value left over, and else it
/// stands behind the argument. The argument `--` is taken up together with the argument
/// behind it, which is handed out as a free argument; without one the end is reported.
/// From then on the parser has seen `--`, and every argument is handed out as a free
/// argument.
#[verifier::external_body]
fn next_token(parser: &mut lexopt::Parser) -> (r: Result<Option<Token>, lexopt::Error>)
    ensures
        pending(*final(parser)).len() <= pending(*old(parser)).len(),
        !midway(*old(parser)) && (r matches Ok(Some(_))) ==> pending(*final(parser)).len()
            < pending(*old(parser)).len(),
        !midway(*old(parser)) && pending(*old(parser)).len() == 0 ==> r matches Ok(None),
        r matches Ok(Some(Token::Value(_))) ==> !midway(*final(parser)),
        idle(*old(parser)) && pending(*old(parser)).len() > 0 && !is_separator(
            pending(*old(parser))[0],
        ) ==> {
            &&& (r matches Ok(Some(token)) && token@ == token_of(pending(*old(parser))[0]))
            &&& pending(*final(parser)) == pending(*old(parser)).drop_first()
            &&& !options_done(*final(parser))
            &&& match joined_of(pending(*old(parser))[0]) {
                Some(value) => midway(*final(parser)) && leftover(*final(parser)) == value,
                None => !midway(*final(parser)),
            }
        },
        idle(*old(parser)) && pending(*old(parser)).len() > 0 && is_separator(
            pending(*old(parser))[0],
        ) ==> {
            &&& options_done(*final(parser))
            &&& !midway(*final(parser))
            &&& if pending(*old(parser)).len() == 1 {
                (r matches Ok(None)) && pending(*final(parser)).len() == 0
            } else {
                &&& (r matches Ok(Some(Token::Value(text))) && text@ == pending(*old(parser))[1])
                &&& pending(*final(parser)) == pending(*old(parser)).subrange(
                    2,
                    pending(*old(parser)).len() as int,
                )
            }
        },
        options_done(*old(parser)) && !midway(*old(parser)) && pending(*old(parser)).len() > 0
            ==> {
            &&& (r matches Ok(Some(Token::Value(text))) && text@ == pending(*old(parser))[0])
            &&& pending(*final(parser)) == pending(*old(parser)).drop_first()
            &&& options_done(*final(parser))
        },
{
    Ok(
        match parser.next()? {
            None => None,
            Some(lexopt::Arg::Short(c)) => Some(Token::Short(c)),
            Some(lexopt::Arg::Long(name)) => Some(Token::Long(name.to_owned())),
            Some(lexopt::Arg::Value(value)) => Some(
                Token::Value(lexopt::ValueExt::string(value)?),
            ),
        },
    )
}

/// Why an option got no value.
pub enum ValueFailure {
    /// The command line ends; the lexer names the option that wants the value.
    Missing(Option<String>),
    /// Another error of the lexer.
    Other(lexopt::Error),
}

/// `lexopt::Parser::value`: the value of the option handed out last, which is the rest of
/// its argument or else the whole next argument; at the end of the command line, the error
/// for a missing value. The value is decoded with `lexopt::ValueExt::string`.
///
/// The parser never gives an argument back, and after the call it is not in the middle of
/// an argument; whether it has seen `--` does not change. Where it was in the middle of an
/// argument the value is what was left over of it, and no argument is taken up. Where it
/// was not, the value is the next argument, and without one the value is missing.
#[verifier::external_body]
fn option_value(parser: &mut lexopt::Parser) -> (r: Result<String, ValueFailure>)
    ensures
        pending(*final(parser)).len() <= pending(*old(parser)).len(),
        !midway(*final(parser)),
        options_done(*final(parser)) == options_done(*old(parser)),
        midway(*old(parser)) ==> {
            &&& (r matches Ok(value) && value@ == leftover(*old(parser)))
            &&& pending(*final(parser)) == pending(*old(parser))
        },
        !midway(*old(parser)) && pending(*old(parser)).len() > 0 ==> {
            &&& (r matches Ok(value) && value@ == pending(*old(parser))[0])
            &&& pending(*final(parser)) == pending(*old(parser)).drop_first()
        },
        !midway(*old(parser)) && pending(*old(parser)).len() == 0 ==> r matches Err(
            ValueFailure::Missing(_),
        ),
{
    match parser.value() {
        Ok(value) => lexopt::ValueExt::string(value).map_err(ValueFailure::Other),
        Err(lexopt::Error::MissingValue { option }) => Err(ValueFailure::Missing(option)),
        Err(other) => Err(ValueFailure::Other(other)),
    }
}

/// Takes an error of `lexopt` apart, variant by variant. Text that is not Unicode is kept
/// with replacement characters; an error that is held as a trait object, by its message.
#[verifier::external_body]
fn explain(error: lexopt::Error) -> ArgError {
    match error {
        lexopt::Error::MissingValue { option } => ArgError::MissingValue { last_option: option },
        lexopt::Error::UnexpectedOption(option) => ArgError::UnexpectedOption(option),
        lexopt::Error::UnexpectedArgument(v) => ArgError::UnexpectedArgument(
            v.to_string_lossy().into_owned(),
        ),
        lexopt::Error::UnexpectedValue { option, value } => ArgError::UnexpectedValue {
            option,
            value: value.to_string_lossy().into_owned(),
        },
        lexopt::Error::NonUnicodeValue(v) => ArgError::NonUnicodeValue(
            v.to_string_lossy().into_owned(),
        ),
        other => ArgError::Custom(other.to_string()),
    }
}

/// What a command line comes to.
pub enum Reading {
    /// The help text is asked for.
    Help,
    /// The list of benchmarks is asked for.
    List,
    /// A run with these settings is asked for.
    Run(BenchArgsView),
    /// An option is not known; this is how it is written.
    UnknownOption(Seq<char>),
    /// A setting cannot use the value it is given.
    BadValue { setting: Setting, value: Seq<char> },
    /// The command line ends where a setting wants its value.
    MissingValue,
}

/// What a command line comes to. The arguments are taken from left to right on top of
/// the settings so far. Once `--` is behind, every argument is one more filter. Before
/// that, a free argument is one more filter; a setting takes as its value what is written
/// with it in one argument, or else the argument behind it; and a request for help or for
/// the list, an unknown option, a value that cannot be used or the want of a value ends the
/// reading, whatever follows.
pub open spec fn reading(args: Seq<Seq<char>>, settings: BenchArgsView, done: bool) -> Reading
    decreases args.len(),
{
    if args.len() == 0 {
        Reading::Run(settings)
    } else if done {
        reading(args.drop_first(), settings.with_filter(args[0]), true)
    } else if is_separator(args[0]) {
        reading(args.drop_first(), settings, true)
    } else {
        match token_of(args[0]) {
            TokenView::Value(text) => reading(
                args.drop_first(),
                settings.with_filter(text),
                false,
            ),
            token => match token.flag() {
                None => Reading::UnknownOption(token.written()),
                Some(Flag::Help) => Reading::Help,
                Some(Flag::List) => Reading::List,
                Some(Flag::Takes(setting)) => match joined_of(args[0]) {
                    Some(value) => match settings.with(setting, value) {
                        Some(next) => reading(args.drop_first(), next, false),
                        None => Reading::BadValue { setting, value },
                    },
                    None => if args.len() == 1 {
                        Reading::MissingValue
                    } else {
                        match settings.with(setting, args[1]) {
                            Some(next) => reading(
                                args.subrange(2, args.len() as int),
                                next,
                                false,
                            ),
                            None => Reading::BadValue { setting, value: args[1] },
                        }
                    },
                },
            },
        }
    }
}

/// Whether a result is what a command line comes to. An unknown option is quoted as it
/// is written; a sample count that cannot be used is a parsing failure with the text and
/// the kind of failure; a runtime that does not exist is an unexpected value of `exec`;
/// the want of a value is a missing value, for the option that the lexer names.
pub open spec fn agrees(r: Result<Command, ArgError>, reading: Reading) -> bool {
    match reading {
        Reading::Help => r matches Ok(Command::Help),
        Reading::List => r matches Ok(Command::List),
        Reading::Run(settings) => r matches Ok(Command::Run(found)) && found@ == settings,
        Reading::UnknownOption(text) => r matches Err(ArgError::UnexpectedOption(quoted))
            && quoted@ == text,
        Reading::BadValue { setting, value } => match setting {
            Setting::Samples => r matches Err(ArgError::ParsingFailed { value: quoted, error })
                && quoted@ == value && SampleCount::of_text(value) == Err::<nat, NumberError>(
                error,
            ),
            Setting::Exec => r matches Err(ArgError::UnexpectedValue { option, value: quoted })
                && option@ == "exec"@ && quoted@ == value,
            Setting::Output => false,
        },
        Reading::MissingValue => r matches Err(ArgError::MissingValue { .. }),
    }
}

/// Reads a command line, the name of the program left out, and comes to what `reading`
/// says of it.
pub fn parse_args(args: Vec<String>) -> (r: Result<Command, ArgError>)
    ensures
        r matches Ok(Command::Run(settings)) ==> settings@.samples >= 1,
        agrees(r, reading(texts_of(args@), BenchArgsView::initial(), false)),
{
    let ghost expected = reading(texts_of(args@), BenchArgsView::initial(), false);
    let mut parser = parser_over(args);
    let mut settings = BenchArgs::new();
    loop
        invariant
            expected == reading(texts_of(args@), BenchArgsView::initial(), false),
            !midway(parser),
            reading(pending(parser), settings@, options_done(parser)) == expected,
        decreases pending(parser).len(),
    {
        let ghost rest = pending(parser);
        proof {
            reveal_with_fuel(reading, 3);
            if rest.len() >= 2 {
                assert(rest.drop_first().drop_first() =~= rest.subrange(2, rest.len() as int));
                assert(rest.drop_first()[0] == rest[1]);
            }
        }
        let token = match next_token(&mut parser) {
            Ok(Some(token)) => token,
            Ok(None) => {
                let _ = settings.samples.get();
                return Ok(Command::Run(settings));
            },
            Err(error) => {
                return Err(explain(error));
            },
        };
        match token.option() {
            Some(Flag::Help) => {
                return Ok(Command::Help);
            },
            Some(Flag::List) => {
                return Ok(Command::List);
            },
            Some(Flag::Takes(setting)) => {
                let value = match option_value(&mut parser) {
                    Ok(value) => value,
                    Err(ValueFailure::Missing(last_option)) => {
                        return Err(ArgError::MissingValue { last_option });
                    },
                    Err(ValueFailure::Other(error)) => {
                        return Err(explain(error));
                    },
                };
                match settings.set(setting, value) {
                    Ok(()) => {},
                    Err(error) => {
                        return Err(error);
                    },
                }
            },
            None => {
                match token {
                    Token::Value(text) => {
                        settings.add_filter(text);
                    },
                    other => {
                        return Err(other.unexpected());
                    },
                }
            },
        }
    }
}

} // verus!
