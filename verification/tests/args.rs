use clap::{Arg, ArgAction, ArgMatches};
use meetily::cli::args::{Cli, Command, RecordArgs, RetranscribeArgs, SummarizeArgs};

fn value(name: &'static str) -> Arg {
    Arg::new(name).long(name)
}

fn flag(name: &'static str) -> Arg {
    Arg::new(name).long(name).action(ArgAction::SetTrue)
}

fn text(m: &ArgMatches, name: &str) -> Option<String> {
    m.get_one::<String>(name).cloned()
}

fn parse_from(argv: &[&str]) -> Cli {
    let record = clap::Command::new("record")
        .arg(value("name"))
        .arg(value("notes"))
        .arg(flag("record-only"))
        .arg(value("engine"))
        .arg(value("language"))
        .arg(value("model"))
        .arg(flag("no-audio-save"))
        .arg(value("retranscribe-model"))
        .arg(value("retranscribe-engine"))
        .arg(value("retranscribe-language"))
        .arg(flag("summarize"))
        .arg(value("template"));
    let retranscribe = clap::Command::new("retranscribe")
        .arg(value("meeting"))
        .arg(flag("last"))
        .arg(value("model").required(true))
        .arg(value("engine"))
        .arg(value("language"))
        .arg(flag("summarize"))
        .arg(value("template"));
    let summarize = clap::Command::new("summarize")
        .arg(value("meeting"))
        .arg(flag("last"))
        .arg(value("template"));
    let matches = clap::Command::new("meetily-cli")
        .subcommand(record)
        .subcommand(retranscribe)
        .subcommand(summarize)
        .get_matches_from(argv);
    let command = match matches.subcommand() {
        Some(("record", m)) => Some(Command::Record(RecordArgs {
            name: text(m, "name"),
            notes: text(m, "notes"),
            record_only: m.get_flag("record-only"),
            engine: text(m, "engine"),
            language: text(m, "language"),
            model: text(m, "model"),
            no_audio_save: m.get_flag("no-audio-save"),
            retranscribe_model: text(m, "retranscribe-model"),
            retranscribe_engine: text(m, "retranscribe-engine"),
            retranscribe_language: text(m, "retranscribe-language"),
            summarize: m.get_flag("summarize"),
            template: text(m, "template"),
            ..Default::default()
        })),
        Some(("retranscribe", m)) => Some(Command::Retranscribe(RetranscribeArgs {
            meeting: text(m, "meeting"),
            last: m.get_flag("last"),
            model: text(m, "model").unwrap(),
            engine: text(m, "engine"),
            language: text(m, "language"),
            summarize: m.get_flag("summarize"),
            template: text(m, "template"),
        })),
        Some(("summarize", m)) => Some(Command::Summarize(SummarizeArgs {
            meeting: text(m, "meeting"),
            last: m.get_flag("last"),
            template: text(m, "template"),
        })),
        _ => None,
    };
    Cli { command }
}

fn record(argv: &[&str]) -> RecordArgs {
    match parse_from(argv).command {
        Some(Command::Record(args)) => args,
        _ => panic!("expected Record"),
    }
}

fn summarize(argv: &[&str]) -> SummarizeArgs {
    match parse_from(argv).command {
        Some(Command::Summarize(args)) => args,
        _ => panic!("expected Summarize"),
    }
}

fn retranscribe(argv: &[&str]) -> RetranscribeArgs {
    match parse_from(argv).command {
        Some(Command::Retranscribe(args)) => args,
        _ => panic!("expected Retranscribe"),
    }
}

#[test]
fn record_only_with_no_audio_save_is_rejected() {
    let args = record(&["meetily-cli", "record", "--record-only", "--no-audio-save"]);
    assert!(args.validate().is_err());
}

#[test]
fn language_is_passed_through() {
    let args = record(&["meetily-cli", "record", "--language", "pt"]);
    assert_eq!(args.language.as_deref(), Some("pt"));
}

#[test]
fn notes_flag_is_parsed() {
    let args = record(&["meetily-cli", "record", "--notes", "kickoff call"]);
    assert_eq!(args.notes.as_deref(), Some("kickoff call"));
}

#[test]
fn plain_record_only_is_ok() {
    let args = record(&["meetily-cli", "record", "--record-only"]);
    assert!(args.validate().is_ok());
    assert!(args.record_only);
}

#[test]
fn summarize_requires_a_target() {
    let args = summarize(&["meetily-cli", "summarize"]);
    assert!(args.validate().is_err());
}

#[test]
fn summarize_rejects_both_targets() {
    let args = summarize(&["meetily-cli", "summarize", "--meeting", "x", "--last"]);
    assert!(args.validate().is_err());
}

#[test]
fn summarize_last_is_ok() {
    let args = summarize(&["meetily-cli", "summarize", "--last"]);
    assert!(args.validate().is_ok());
    assert!(args.last);
}

#[test]
fn summarize_meeting_id_is_ok() {
    let args = summarize(&["meetily-cli", "summarize", "--meeting", "abc"]);
    assert!(args.validate().is_ok());
    assert_eq!(args.meeting.as_deref(), Some("abc"));
}

#[test]
fn record_summarize_with_record_only_is_rejected() {
    let args = record(&["meetily-cli", "record", "--summarize", "--record-only"]);
    assert!(args.validate().is_err());
}

#[test]
fn record_summarize_alone_is_ok() {
    let args = record(&["meetily-cli", "record", "--summarize"]);
    assert!(args.validate().is_ok());
    assert!(args.summarize);
}

#[test]
fn retranscribe_model_is_parsed() {
    let args = record(&[
        "meetily-cli",
        "record",
        "--model",
        "base",
        "--retranscribe-model",
        "large-v3",
        "--summarize",
    ]);
    assert!(args.validate().is_ok());
    assert_eq!(args.model.as_deref(), Some("base"));
    assert_eq!(args.retranscribe_model.as_deref(), Some("large-v3"));
}

#[test]
fn retranscribe_with_no_audio_save_is_rejected() {
    let args = record(&[
        "meetily-cli",
        "record",
        "--retranscribe-model",
        "large-v3",
        "--no-audio-save",
    ]);
    assert!(args.validate().is_err());
}

#[test]
fn retranscribe_engine_without_model_is_rejected() {
    let args = record(&["meetily-cli", "record", "--retranscribe-engine", "parakeet"]);
    assert!(args.validate().is_err());
}

#[test]
fn record_only_with_retranscribe_and_summarize_is_ok() {
    let args = record(&[
        "meetily-cli",
        "record",
        "--record-only",
        "--retranscribe-model",
        "large-v3",
        "--summarize",
    ]);
    assert!(args.validate().is_ok());
}

#[test]
fn record_only_summarize_without_retranscribe_is_rejected() {
    let args = record(&["meetily-cli", "record", "--record-only", "--summarize"]);
    assert!(args.validate().is_err());
}

#[test]
fn retranscribe_meeting_id_with_summarize_is_ok() {
    let args = retranscribe(&[
        "meetily-cli",
        "retranscribe",
        "--meeting",
        "abc",
        "--model",
        "large-v3",
        "--summarize",
    ]);
    assert!(args.validate().is_ok());
    assert_eq!(args.meeting.as_deref(), Some("abc"));
    assert_eq!(args.model, "large-v3");
    assert!(args.summarize);
}

#[test]
fn retranscribe_requires_a_target() {
    let args = retranscribe(&["meetily-cli", "retranscribe", "--model", "large-v3"]);
    assert!(args.validate().is_err());
}

#[test]
fn retranscribe_rejects_both_targets() {
    let args = retranscribe(&[
        "meetily-cli",
        "retranscribe",
        "--meeting",
        "abc",
        "--last",
        "--model",
        "large-v3",
    ]);
    assert!(args.validate().is_err());
}

#[test]
fn refusals_say_why() {
    let both = RecordArgs { record_only: true, no_audio_save: true, ..Default::default() };
    assert_eq!(
        both.validate().unwrap_err(),
        "--record-only requires saving the audio (it is the source for re-transcription); remove --no-audio-save."
    );
    let unsaved = RecordArgs {
        retranscribe_model: Some("large-v3".to_string()),
        no_audio_save: true,
        ..Default::default()
    };
    assert_eq!(
        unsaved.validate().unwrap_err(),
        "--retranscribe-model reads the saved audio file; remove --no-audio-save."
    );
    let language =
        RecordArgs { retranscribe_language: Some("pt".to_string()), ..Default::default() };
    assert_eq!(
        language.validate().unwrap_err(),
        "--retranscribe-engine/--retranscribe-language require --retranscribe-model."
    );
    let bare = RecordArgs { record_only: true, summarize: true, ..Default::default() };
    assert_eq!(
        bare.validate().unwrap_err(),
        "--summarize needs a transcription; with --record-only, add --retranscribe-model <model>."
    );
    assert_eq!(
        SummarizeArgs::default().validate().unwrap_err(),
        "specify the meeting to summarize: --meeting <id> or --last."
    );
    assert_eq!(
        RetranscribeArgs::default().validate().unwrap_err(),
        "specify the meeting to re-transcribe: --meeting <id> or --last."
    );
    let two = SummarizeArgs {
        meeting: Some("x".to_string()),
        last: true,
        ..Default::default()
    };
    assert_eq!(two.validate().unwrap_err(), "use either --meeting <id> or --last, not both.");
    let two = RetranscribeArgs {
        meeting: Some("x".to_string()),
        last: true,
        ..Default::default()
    };
    assert_eq!(two.validate().unwrap_err(), "use either --meeting <id> or --last, not both.");
}

#[test]
fn no_subcommand_records() {
    match parse_from(&["meetily-cli"]).into_command() {
        Command::Record(args) => {
            assert!(args.validate().is_ok());
            assert_eq!(args.name, None);
            assert_eq!(args.duration, None);
            assert!(!args.record_only && !args.summarize && !args.quiet);
        }
        _ => panic!("expected Record"),
    }
    let listed = Cli { command: Some(Command::ListModels) };
    assert!(matches!(listed.into_command(), Command::ListModels));
}
