use tachyobench::cli::{
    parse_args, ArgError, BenchArgs, Command, ExecutorId, Flag, Setting, Token, HELP_MESSAGE,
};
use tachyobench::result::SampleCount;
use tachyobench::text::NumberError;

fn args(words: &[&str]) -> Vec<String> {
    words.iter().map(|word| word.to_string()).collect()
}

fn settings(words: &[&str]) -> BenchArgs {
    match parse_args(args(words)) {
        Ok(Command::Run(settings)) => settings,
        other => panic!("no run: {:?}", other),
    }
}

#[test]
fn every_runtime_is_found_by_its_name() {
    for id in [ExecutorId::Tokio, ExecutorId::Nexosim, ExecutorId::Smol, ExecutorId::SmolScale] {
        assert_eq!(ExecutorId::new(id.name()), Ok(id));
    }
    assert_eq!(ExecutorId::Tokio.name(), "tokio");
    assert_eq!(ExecutorId::Nexosim.name(), "nexosim");
    assert_eq!(ExecutorId::Smol.name(), "smol");
    assert_eq!(ExecutorId::SmolScale.name(), "smolscale");
}

#[test]
fn an_unknown_runtime_is_an_error() {
    assert_eq!(ExecutorId::new("Tokio"), Err(()));
    assert_eq!(ExecutorId::new(""), Err(()));
    assert_eq!(ExecutorId::new("smolscal"), Err(()));
    assert_eq!(ExecutorId::new("tokio "), Err(()));
}

#[test]
fn an_empty_command_line_runs_everything_once_on_tokio() {
    let run = settings(&[]);
    assert!(run.bench_substrings.is_empty());
    assert_eq!(run.executor, ExecutorId::Tokio);
    assert_eq!(run.samples.get(), 1);
    assert_eq!(run.output, None);
}

#[test]
fn samples_are_read_in_every_spelling() {
    assert_eq!(settings(&["-s", "5"]).samples.get(), 5);
    assert_eq!(settings(&["-s5"]).samples.get(), 5);
    assert_eq!(settings(&["-s=5"]).samples.get(), 5);
    assert_eq!(settings(&["--samples", "12"]).samples.get(), 12);
    assert_eq!(settings(&["--samples=4294967295"]).samples.get(), u32::MAX);
    assert_eq!(settings(&["-s", "+7"]).samples.get(), 7);
    assert_eq!(settings(&["-s", "007"]).samples.get(), 7);
    assert_eq!(settings(&["-s", "3", "-s", "9"]).samples.get(), 9);
}

#[test]
fn a_bad_sample_count_is_a_parsing_failure() {
    let failure = |text: &str, error: NumberError| {
        Err(ArgError::ParsingFailed { value: text.to_string(), error })
    };
    assert_eq!(parse_args(args(&["-s", "abc"])), failure("abc", NumberError::InvalidDigit));
    assert_eq!(parse_args(args(&["-s", "0"])), failure("0", NumberError::Zero));
    assert_eq!(parse_args(args(&["-s", "000"])), failure("000", NumberError::Zero));
    assert_eq!(parse_args(args(&["-s", ""])), failure("", NumberError::Empty));
    assert_eq!(parse_args(args(&["-s", "+"])), failure("+", NumberError::InvalidDigit));
    assert_eq!(parse_args(args(&["-s", "-3"])), failure("-3", NumberError::InvalidDigit));
    assert_eq!(parse_args(args(&["-s", "3 "])), failure("3 ", NumberError::InvalidDigit));
    assert_eq!(
        parse_args(args(&["-s", "4294967296"])),
        failure("4294967296", NumberError::TooLarge)
    );
    assert_eq!(
        parse_args(args(&["-s", "99999999999x"])),
        failure("99999999999x", NumberError::TooLarge)
    );
    assert_eq!(parse_args(args(&["-s", "9x99999999999"])), failure(
        "9x99999999999",
        NumberError::InvalidDigit
    ));
}

#[test]
fn the_runtime_is_chosen_by_name() {
    assert_eq!(settings(&["-e", "smol"]).executor, ExecutorId::Smol);
    assert_eq!(settings(&["--exec", "nexosim"]).executor, ExecutorId::Nexosim);
    assert_eq!(settings(&["--exec=smolscale"]).executor, ExecutorId::SmolScale);
    assert_eq!(settings(&["-etokio"]).executor, ExecutorId::Tokio);
}

#[test]
fn an_unknown_runtime_on_the_command_line_is_a_user_error() {
    assert_eq!(
        parse_args(args(&["-e", "bogus"])),
        Err(ArgError::UnexpectedValue { option: "exec".to_string(), value: "bogus".to_string() })
    );
    assert_eq!(
        parse_args(args(&["--exec=", "tokio"])),
        Err(ArgError::UnexpectedValue { option: "exec".to_string(), value: String::new() })
    );
}

#[test]
fn the_output_file_is_kept_as_given() {
    assert_eq!(settings(&["-o", "out.txt"]).output, Some("out.txt".to_string()));
    assert_eq!(settings(&["--output=a b/c"]).output, Some("a b/c".to_string()));
    assert_eq!(settings(&["-o", "-s"]).output, Some("-s".to_string()));
}

#[test]
fn free_arguments_are_filters_in_their_order() {
    let run = settings(&["funnel", "-s", "2", "pinball-tokio", "--", "-e"]);
    assert_eq!(run.bench_substrings, args(&["funnel", "pinball-tokio", "-e"]));
    assert_eq!(run.samples.get(), 2);
    assert_eq!(settings(&["-"]).bench_substrings, args(&["-"]));
}

#[test]
fn help_and_list_end_the_reading() {
    assert_eq!(parse_args(args(&["-h"])), Ok(Command::Help));
    assert_eq!(parse_args(args(&["--help"])), Ok(Command::Help));
    assert_eq!(parse_args(args(&["-l"])), Ok(Command::List));
    assert_eq!(parse_args(args(&["--list"])), Ok(Command::List));
    assert_eq!(parse_args(args(&["-s", "3", "-h", "-s", "nonsense"])), Ok(Command::Help));
    assert_eq!(parse_args(args(&["-lx"])), Ok(Command::List));
    assert_eq!(
        parse_args(args(&["-s", "nonsense", "-h"])),
        Err(ArgError::ParsingFailed {
            value: "nonsense".to_string(),
            error: NumberError::InvalidDigit
        })
    );
}

#[test]
fn a_missing_value_names_the_option() {
    assert_eq!(
        parse_args(args(&["-s"])),
        Err(ArgError::MissingValue { last_option: Some("-s".to_string()) })
    );
    assert_eq!(
        parse_args(args(&["funnel", "--output"])),
        Err(ArgError::MissingValue { last_option: Some("--output".to_string()) })
    );
}

#[test]
fn unknown_options_are_refused_as_written() {
    assert_eq!(parse_args(args(&["-x"])), Err(ArgError::UnexpectedOption("-x".to_string())));
    assert_eq!(
        parse_args(args(&["--bogus"])),
        Err(ArgError::UnexpectedOption("--bogus".to_string()))
    );
    assert_eq!(
        parse_args(args(&["--bogus=1"])),
        Err(ArgError::UnexpectedOption("--bogus".to_string()))
    );
    assert_eq!(parse_args(args(&["-S", "3"])), Err(ArgError::UnexpectedOption("-S".to_string())));
}

#[test]
fn everything_behind_two_dashes_is_a_filter() {
    let run = settings(&["-s", "3", "--", "-h", "--list", "--", "x"]);
    assert_eq!(run.bench_substrings, args(&["-h", "--list", "--", "x"]));
    assert_eq!(run.samples.get(), 3);
    assert!(settings(&["--"]).bench_substrings.is_empty());
}

#[test]
fn a_simple_command_line_is_read_from_left_to_right() {
    let run = settings(&["pinball", "-e", "nexosim", "--samples", "4", "-o", "t.txt", "flume"]);
    assert_eq!(run.bench_substrings, args(&["pinball", "flume"]));
    assert_eq!(run.executor, ExecutorId::Nexosim);
    assert_eq!(run.samples.get(), 4);
    assert_eq!(run.output, Some("t.txt".to_string()));
    assert_eq!(settings(&["", "-e", "tokio"]).bench_substrings, args(&[""]));
    assert_eq!(settings(&["-o", "--help"]).output, Some("--help".to_string()));
    assert_eq!(parse_args(args(&["x", "--list", "-s"])), Ok(Command::List));
    assert_eq!(parse_args(args(&["-é"])), Err(ArgError::UnexpectedOption("-é".to_string())));
    assert_eq!(parse_args(args(&["-="])), Err(ArgError::UnexpectedOption("-=".to_string())));
}

#[test]
fn tokens_name_their_options() {
    assert_eq!(Token::Short('h').option(), Some(Flag::Help));
    assert_eq!(Token::Short('l').option(), Some(Flag::List));
    assert_eq!(Token::Short('s').option(), Some(Flag::Takes(Setting::Samples)));
    assert_eq!(Token::Short('o').option(), Some(Flag::Takes(Setting::Output)));
    assert_eq!(Token::Short('e').option(), Some(Flag::Takes(Setting::Exec)));
    assert_eq!(Token::Short('H').option(), None);
    assert_eq!(Token::Long("help".to_string()).option(), Some(Flag::Help));
    assert_eq!(Token::Long("list".to_string()).option(), Some(Flag::List));
    assert_eq!(Token::Long("samples".to_string()).option(), Some(Flag::Takes(Setting::Samples)));
    assert_eq!(Token::Long("output".to_string()).option(), Some(Flag::Takes(Setting::Output)));
    assert_eq!(Token::Long("exec".to_string()).option(), Some(Flag::Takes(Setting::Exec)));
    assert_eq!(Token::Long("h".to_string()).option(), None);
    assert_eq!(Token::Long("sample".to_string()).option(), None);
    assert_eq!(Token::Value("help".to_string()).option(), None);
}

#[test]
fn unexpected_tokens_are_quoted_with_their_dashes() {
    assert_eq!(Token::Short('q').unexpected(), ArgError::UnexpectedOption("-q".to_string()));
    assert_eq!(
        Token::Long("quiet".to_string()).unexpected(),
        ArgError::UnexpectedOption("--quiet".to_string())
    );
    assert_eq!(
        Token::Value("quiet".to_string()).unexpected(),
        ArgError::UnexpectedArgument("quiet".to_string())
    );
}

#[test]
fn a_refused_setting_changes_nothing() {
    let mut run = BenchArgs::new();
    assert_eq!(run.set(Setting::Samples, "8".to_string()), Ok(()));
    assert_eq!(run.set(Setting::Exec, "smol".to_string()), Ok(()));
    assert_eq!(run.set(Setting::Output, "table".to_string()), Ok(()));
    run.add_filter("funnel".to_string());
    let before = run.clone();
    assert!(run.set(Setting::Samples, "0".to_string()).is_err());
    assert!(run.set(Setting::Exec, "none".to_string()).is_err());
    assert_eq!(run, before);
    assert_eq!(run.samples, SampleCount::new(8).unwrap());
    assert_eq!(run.executor, ExecutorId::Smol);
    assert_eq!(run.output, Some("table".to_string()));
}

#[test]
fn the_help_text_names_every_option_and_runtime() {
    for word in ["--help", "--list", "--samples", "--output", "--exec", "tokio", "nexosim", "smol", "smolscale"] {
        assert!(HELP_MESSAGE.contains(word));
    }
    assert!(HELP_MESSAGE.starts_with("tachyobench\n"));
}

#[test]
fn a_value_may_be_written_with_its_option() {
    let failure = |text: &str, error: NumberError| {
        Err(ArgError::ParsingFailed { value: text.to_string(), error })
    };
    assert_eq!(parse_args(args(&["-s="])), failure("", NumberError::Empty));
    assert_eq!(parse_args(args(&["--samples="])), failure("", NumberError::Empty));
    assert_eq!(parse_args(args(&["-s==5"])), failure("=5", NumberError::InvalidDigit));
    assert_eq!(parse_args(args(&["--samples==5"])), failure("=5", NumberError::InvalidDigit));
    assert_eq!(parse_args(args(&["-s5=6"])), failure("5=6", NumberError::InvalidDigit));
    assert_eq!(
        parse_args(args(&["--exec=smol=x"])),
        Err(ArgError::UnexpectedValue { option: "exec".to_string(), value: "smol=x".to_string() })
    );
    assert_eq!(settings(&["-o=a=b"]).output, Some("a=b".to_string()));
    assert_eq!(settings(&["--output=--"]).output, Some("--".to_string()));
    assert_eq!(settings(&["-o--"]).output, Some("--".to_string()));
    let run = settings(&["-o", "--", "-s", "2"]);
    assert_eq!(run.output, Some("--".to_string()));
    assert_eq!(run.samples.get(), 2);
    assert!(run.bench_substrings.is_empty());
}

#[test]
fn the_first_decision_ends_the_reading() {
    assert_eq!(parse_args(args(&["-hx"])), Ok(Command::Help));
    assert_eq!(parse_args(args(&["--help=now"])), Ok(Command::Help));
    assert_eq!(parse_args(args(&["--list=all", "-s"])), Ok(Command::List));
    assert_eq!(parse_args(args(&["-xh"])), Err(ArgError::UnexpectedOption("-x".to_string())));
    assert_eq!(parse_args(args(&["---"])), Err(ArgError::UnexpectedOption("---".to_string())));
    assert_eq!(parse_args(args(&["--=x"])), Err(ArgError::UnexpectedOption("--".to_string())));
    assert_eq!(parse_args(args(&["--=x"])), Err(ArgError::UnexpectedOption("--".to_string())));
    assert_eq!(
        parse_args(args(&["--", "-s"])),
        Ok(Command::Run(BenchArgs {
            bench_substrings: args(&["-s"]),
            executor: ExecutorId::Tokio,
            samples: SampleCount::one(),
            output: None,
        }))
    );
    assert_eq!(
        parse_args(args(&["-e"])),
        Err(ArgError::MissingValue { last_option: Some("-e".to_string()) })
    );
}
