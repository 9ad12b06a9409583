use meetily::audio::devices::configuration::{AudioDevice, DeviceType};
use meetily::cli::args::{Command, RecordArgs, SummarizeArgs};
use meetily::cli::chain::{
    check_template, choose_engine, choose_meeting, engine_error, failure_status,
    folder_to_retranscribe, interruption, interruption_notice, progress_line, retranscribe_end, retranscribe_notice, spinner_line,
    summary_model, summary_outcome, summary_saved_line, summary_verdict, template_or_default, text_to_summarize,
    Engine, Interruption, MeetingFolder, MeetingLookup, RetranscribeEnd, SummaryLookup,
};
use meetily::cli::keyboard::{
    command_to_send, effect_text, toggle_pause, Key, KeyCmd, KeyEffect, KeyEvent, KeyInput,
    KeyStep, Keyboard, KEY_WAIT_MS,
};
use meetily::cli::listing::{
    list_devices, list_meetings, list_models, list_templates, EngineModel, MeetingEntry,
    ModelEntry, TemplateEntry,
};
use meetily::cli::panel::PanelState;
use meetily::cli::record::{
    end_message, exit_status, has_meeting_id, heard_transcripts, options_of, retranscribe_choice,
    saved_line, saved_line_due, saves_audio, shown_id, shown_transcripts, start_hint,
    starts_without_model, RecordEnd, RecordOptions, RecordReply, RecordRun, RecordStep,
};
use meetily::cli::session::{
    banner, dir_size_bytes, effective_name, engine_label, measures_folder, meeting_banner, override_active,
    override_config, override_notice, panel_columns, partial_line, segment_id, transcript_line,
    unknown_engine_warning, DrawClock, FolderEntry, TickInput,
};
use meetily::clock::Moment;

fn some(s: &str) -> Option<String> {
    Some(s.to_string())
}

#[test]
fn devices_are_grouped() {
    let devices = vec![
        AudioDevice { name: "Mic".to_string(), device_type: DeviceType::Input },
        AudioDevice { name: "Speakers".to_string(), device_type: DeviceType::Output },
        AudioDevice { name: "Jack".to_string(), device_type: DeviceType::Input },
    ];
    assert_eq!(
        list_devices(&devices),
        vec!["Microphones:", "  - Mic", "  - Jack", "System (loopback):", "  - Speakers"]
    );
    assert_eq!(
        list_devices(&[]),
        vec!["Microphones:", "  (none)", "System (loopback):", "  (none)"]
    );
}

#[test]
fn models_are_marked() {
    let config = Some(EngineModel { provider: "localWhisper".to_string(), model: "base".to_string() });
    let whisper = Ok(vec![
        ModelEntry { name: "base".to_string(), size_mb: 142, downloaded: true },
        ModelEntry { name: "large-v3".to_string(), size_mb: 2951, downloaded: false },
    ]);
    let parakeet = Ok(vec![ModelEntry { name: "base".to_string(), size_mb: 0, downloaded: true }]);
    assert_eq!(
        list_models(&config, &whisper, &parakeet),
        vec![
            "Default: whisper/base",
            "Whisper:",
            "  - base (142 MB) [downloaded] (default)",
            "  - large-v3 (2951 MB)",
            "Parakeet:",
            "  - base (0 MB) [downloaded]",
        ]
    );
    assert_eq!(
        list_models(&None, &Ok(vec![]), &Err("no engine".to_string())),
        vec!["Default: (not configured)", "Whisper:", "  (nenhum)", "Parakeet:", "  (error: no engine)"]
    );
    let blank = Some(EngineModel { provider: String::new(), model: "x".to_string() });
    assert_eq!(list_models(&blank, &Ok(vec![]), &Ok(vec![]))[0], "Default: (not configured)");
}

#[test]
fn meetings_and_templates_are_listed() {
    let entry = MeetingEntry {
        id: "m1".to_string(),
        title: "Sync".to_string(),
        created_at: Moment { secs: 1_700_000_000, nanos: 0 },
    };
    assert_eq!(list_meetings(&[entry]), vec!["m1  2023-11-14 22:13  Sync"]);
    assert_eq!(list_meetings(&[]), vec!["(none)"]);
    let template = TemplateEntry {
        id: "daily_standup".to_string(),
        name: "Daily".to_string(),
        description: "Short".to_string(),
    };
    assert_eq!(list_templates(&[template]), vec!["- daily_standup  —  Daily: Short"]);
    assert_eq!(list_templates(&[]), vec!["(none)"]);
}

#[test]
fn overrides_keep_what_is_not_asked_for() {
    let original = Some(EngineModel { provider: "parakeet".to_string(), model: "v3".to_string() });
    let (c, unknown) = override_config(&some("whisper"), &None, &original);
    assert_eq!((c.provider.as_str(), c.model.as_str(), unknown), ("localWhisper", "v3", false));
    let (c, unknown) = override_config(&None, &some("base"), &original);
    assert_eq!((c.provider.as_str(), c.model.as_str(), unknown), ("parakeet", "base", false));
    let (c, unknown) = override_config(&some("vosk"), &None, &None);
    assert_eq!((c.provider.as_str(), c.model.as_str(), unknown), ("localWhisper", "", true));
    let (c, _) = override_config(&some("localWhisper"), &some("base"), &None);
    assert_eq!(
        override_notice(&c),
        "ℹ Temporary override: whisper/base (the original config will be restored when done)."
    );
    assert_eq!(
        unknown_engine_warning("vosk"),
        "Warning: unknown --engine 'vosk'; using the configured provider."
    );
    assert!(override_active(&RecordArgs { model: some("base"), ..Default::default() }));
    assert!(!override_active(&RecordArgs {
        model: some("base"),
        record_only: true,
        ..Default::default()
    }));
    assert!(!override_active(&RecordArgs::default()));
}

#[test]
fn labels_and_banners() {
    let config = Some(EngineModel { provider: "localWhisper".to_string(), model: "base".to_string() });
    assert_eq!(engine_label(true, &config), "no AI");
    assert_eq!(engine_label(false, &config), "whisper/base");
    assert_eq!(engine_label(false, &None), "?");
    assert_eq!(effective_name(&None, "2026-06-03 10:00:00"), "CLI Meeting 2026-06-03 10:00:00");
    assert_eq!(effective_name(&some("Sync"), "x"), "Sync");
    assert_eq!(
        banner("whisper/base", "CPU", &RecordArgs::default()),
        "✓ Engine: whisper/base [CPU]   ✓ Mic: default (OS)   ✓ System: default (OS)"
    );
    let args = RecordArgs { mic: some("M"), system: some("S"), language: some("pt"), ..Default::default() };
    assert_eq!(
        banner("no AI", "CUDA", &args),
        "✓ Engine: no AI [CUDA]   ✓ Mic: M   ✓ System: S   ✓ Language: pt"
    );
    assert_eq!(meeting_banner("Sync", &None), "✓ Meeting: \"Sync\"  → (folder to be created)");
    assert_eq!(meeting_banner("Sync", &some("/m")), "✓ Meeting: \"Sync\"  → /m");
    assert_eq!(transcript_line("10:00", "hi"), "\r\x1b[K[10:00] hi\r\n");
    assert_eq!(partial_line("hi"), "\r\x1b[K\x1b[90m… hi\x1b[0m");
    assert_eq!(segment_id(42), "seg_42");
    assert_eq!(panel_columns(Some(80)), Some(79));
    assert_eq!(panel_columns(Some(0)), Some(0));
    assert_eq!(panel_columns(None), None);
}

fn tick(c: &mut DrawClock, p: &mut PanelState, wall_secs: u64, paused: bool, silent: bool) {
    c.tick(p, TickInput { wall_secs, paused, typing: false, silent, bytes: 7 });
}

#[test]
fn pause_freezes_the_clock_and_the_alarm() {
    let mut c = DrawClock::new();
    let mut p = PanelState { segments: 3, ..Default::default() };
    for n in 0..20 {
        tick(&mut c, &mut p, 10 + n / 4, false, true);
    }
    assert_eq!(p.silent_secs, 5);
    assert_eq!(p.elapsed_secs, 14);
    assert!(p.pulse_on);
    for n in 0..8 {
        tick(&mut c, &mut p, 15 + n / 4, true, true);
    }
    assert!(p.paused);
    assert_eq!(p.silent_secs, 0);
    assert_eq!(p.elapsed_secs, 14);
    tick(&mut c, &mut p, 17, false, false);
    assert_eq!(p.elapsed_secs, 15);
    assert!(!p.pulse_on && !p.paused);
    assert_eq!(p.bytes_written, 0);
    assert_eq!(p.segments, 3);
    let mut recording = PanelState { record_only: true, ..Default::default() };
    tick(&mut c, &mut recording, 0, false, true);
    assert_eq!(recording.bytes_written, 7);
    assert_eq!(recording.elapsed_secs, 0);
}

#[test]
fn folders_add_up() {
    let entries =
        [FolderEntry::File(10), FolderEntry::Other, FolderEntry::Folder(5), FolderEntry::File(1)];
    assert_eq!(dir_size_bytes(&entries), 16);
    assert_eq!(dir_size_bytes(&[]), 0);
    assert_eq!(dir_size_bytes(&[FolderEntry::File(u64::MAX), FolderEntry::File(1)]), u64::MAX);
}

fn press(key: Key) -> KeyEvent {
    KeyEvent { key, ctrl: false, pressed: true }
}

fn ctrl(c: char) -> KeyEvent {
    KeyEvent { key: Key::Char(c), ctrl: true, pressed: true }
}

fn type_text(k: &mut Keyboard, s: &str) {
    for c in s.chars() {
        assert_eq!(k.on_key(press(Key::Char(c))), KeyEffect::Echo(c));
    }
}

#[test]
fn keys_control_the_recording() {
    let mut k = Keyboard::new(None);
    assert_eq!(k.on_key(press(Key::Char('p'))), KeyEffect::Send(KeyCmd::TogglePause));
    assert_eq!(k.on_key(press(Key::Char('P'))), KeyEffect::Send(KeyCmd::TogglePause));
    assert_eq!(k.on_key(press(Key::Char('q'))), KeyEffect::Send(KeyCmd::Stop));
    assert_eq!(k.on_key(ctrl('c')), KeyEffect::Send(KeyCmd::Stop));
    assert_eq!(k.on_key(ctrl('p')), KeyEffect::Nothing);
    assert_eq!(k.on_key(press(Key::Char('c'))), KeyEffect::Nothing);
    assert_eq!(k.on_key(press(Key::Enter)), KeyEffect::Nothing);
    let released = KeyEvent { pressed: false, ..press(Key::Char('q')) };
    assert_eq!(k.on_key(released), KeyEffect::Nothing);
    assert_eq!(k.notes_to_save(), None);
    assert!(toggle_pause(false, true));
    assert!(!toggle_pause(true, true));
    assert!(toggle_pause(true, false));
    assert!(!toggle_pause(false, false));
}

#[test]
fn notes_are_typed_line_by_line() {
    let mut k = Keyboard::new(some("seed"));
    assert_eq!(k.on_key(press(Key::Char('n'))), KeyEffect::PromptForNote);
    type_text(&mut k, " péq ");
    assert_eq!(k.on_key(press(Key::Backspace)), KeyEffect::EraseLast);
    assert_eq!(k.on_key(ctrl('x')), KeyEffect::Nothing);
    assert_eq!(k.on_key(press(Key::Enter)), KeyEffect::NoteEnded { saved: true, stop: false });
    assert_eq!(k.notes_to_save(), some("seed\npéq"));

    k.on_key(press(Key::Char('N')));
    assert_eq!(k.on_key(press(Key::Backspace)), KeyEffect::Nothing);
    type_text(&mut k, "  ");
    assert_eq!(k.on_key(press(Key::Enter)), KeyEffect::NoteEnded { saved: false, stop: false });
    k.on_key(press(Key::Char('n')));
    type_text(&mut k, "gone");
    assert_eq!(k.on_key(press(Key::Esc)), KeyEffect::NoteEnded { saved: false, stop: false });
    k.on_key(press(Key::Char('n')));
    type_text(&mut k, "late");
    k.abandon_note();
    k.on_key(press(Key::Char('n')));
    type_text(&mut k, "last");
    assert_eq!(k.on_key(ctrl('c')), KeyEffect::NoteEnded { saved: true, stop: true });
    assert_eq!(k.notes_to_save(), some("seed\npéq\nlast"));
    assert_eq!(k.end_note(false), KeyEffect::Nothing);
    assert_eq!(Keyboard::new(some(" \n")).notes_to_save(), None);
}

fn course(args: &RecordArgs, replies: &[RecordReply]) -> Vec<RecordStep> {
    let mut r = RecordRun::start(options_of(args));
    let mut steps = vec![r.step];
    for reply in replies {
        r = r.after(*reply);
        steps.push(r.step);
    }
    steps
}

const YES: RecordReply = RecordReply::Done(true);
const NO: RecordReply = RecordReply::Done(false);

#[test]
fn a_plain_recording_is_short() {
    assert_eq!(
        course(&RecordArgs::default(), &[YES, YES, NO, YES, YES]),
        vec![
            RecordStep::LoadLabel,
            RecordStep::StartRecording { without_model: false, save_audio: true },
            RecordStep::Run,
            RecordStep::StopRecording,
            RecordStep::SaveMeeting,
            RecordStep::Finished(RecordEnd::Saved),
        ]
    );
    let refused = RecordArgs { record_only: true, summarize: true, ..Default::default() };
    assert_eq!(course(&refused, &[]), vec![RecordStep::Finished(RecordEnd::Refused)]);
}

#[test]
fn everything_asked_for_comes_in_order() {
    let args = RecordArgs {
        language: some("pt"),
        model: some("base"),
        retranscribe_model: some("large-v3"),
        summarize: true,
        ..Default::default()
    };
    assert_eq!(
        course(&args, &[YES, YES, YES, YES, YES, YES, YES, YES, YES, YES, YES, RecordReply::Failed]),
        vec![
            RecordStep::SetLanguage,
            RecordStep::LoadOriginal,
            RecordStep::WriteOverride,
            RecordStep::LoadLabel,
            RecordStep::StartRecording { without_model: false, save_audio: true },
            RecordStep::Run,
            RecordStep::StopRecording,
            RecordStep::RestoreConfig,
            RecordStep::SaveMeeting,
            RecordStep::SaveNotes,
            RecordStep::Retranscribe,
            RecordStep::Summarize,
            RecordStep::Finished(RecordEnd::Saved),
        ]
    );
}

#[test]
fn every_way_out_restores_the_configuration() {
    let args = RecordArgs { engine: some("whisper"), ..Default::default() };
    let failed = RecordReply::Failed;
    let last = |replies: &[RecordReply]| *course(&args, replies).last().unwrap();
    assert_eq!(last(&[YES, YES, YES, failed]), RecordStep::RestoreConfig);
    assert_eq!(
        last(&[YES, YES, YES, failed, failed]),
        RecordStep::Finished(RecordEnd::StartFailed)
    );
    assert_eq!(last(&[YES, YES, YES, YES, NO, failed]), RecordStep::RestoreConfig);
    assert_eq!(
        last(&[YES, YES, YES, YES, NO, failed, YES]),
        RecordStep::Finished(RecordEnd::StopFailed)
    );
    assert_eq!(
        last(&[YES, YES, YES, YES, NO, RecordReply::Abandoned, YES]),
        RecordStep::Finished(RecordEnd::Abandoned)
    );
    assert_eq!(last(&[YES, YES, YES, YES, NO, YES]), RecordStep::RestoreConfig);
    assert_eq!(last(&[YES, YES, YES, YES, NO, YES, YES]), RecordStep::SaveMeeting);
    assert_eq!(last(&[NO, YES, YES, failed]), RecordStep::Finished(RecordEnd::StartFailed));
    assert_eq!(
        last(&[failed, YES, YES, YES, NO, YES, failed]),
        RecordStep::Finished(RecordEnd::SaveFailed)
    );
}

#[test]
fn second_transcriptions_need_id_and_folder() {
    let args = RecordArgs {
        record_only: true,
        retranscribe_model: some("large-v3"),
        summarize: true,
        ..Default::default()
    };
    let last = |replies: &[RecordReply]| *course(&args, replies).last().unwrap();
    assert_eq!(last(&[YES, NO, YES, NO]), RecordStep::Finished(RecordEnd::NoMeetingId));
    assert_eq!(last(&[NO, NO, YES, YES]), RecordStep::Finished(RecordEnd::NoFolder));
    assert_eq!(last(&[YES, YES, YES, NO]), RecordStep::Finished(RecordEnd::NoMeetingId));
    assert_eq!(last(&[YES, NO, YES, YES]), RecordStep::Retranscribe);
    assert_eq!(
        last(&[YES, NO, YES, YES, RecordReply::Failed]),
        RecordStep::Finished(RecordEnd::RetranscribeFailed)
    );
    assert_eq!(
        last(&[YES, NO, YES, YES, RecordReply::Abandoned]),
        RecordStep::Finished(RecordEnd::RetranscribeCancelled)
    );
    assert_eq!(last(&[YES, NO, YES, YES, YES]), RecordStep::Summarize);
}

#[test]
fn ends_have_status_and_message() {
    assert_eq!(exit_status(RecordEnd::Saved), 0);
    assert_eq!(exit_status(RecordEnd::Abandoned), 130);
    assert_eq!(exit_status(RecordEnd::RetranscribeCancelled), 130);
    assert_eq!(exit_status(RecordEnd::StartFailed), 1);
    let say = |end| end_message(end, "x");
    assert_eq!(say(RecordEnd::Saved), None);
    assert_eq!(say(RecordEnd::Abandoned), None);
    assert_eq!(say(RecordEnd::RetranscribeCancelled), None);
    assert_eq!(say(RecordEnd::Refused), some("x"));
    assert_eq!(say(RecordEnd::StartFailed), some("Failed to start recording: x"));
    assert_eq!(say(RecordEnd::StopFailed), some("Failed to stop recording: x"));
    assert_eq!(say(RecordEnd::SaveFailed), some("Failed to save the meeting to the database: x"));
    assert_eq!(
        say(RecordEnd::NoMeetingId),
        some("--retranscribe-model needs the meeting id, which the database did not return.")
    );
    assert_eq!(
        say(RecordEnd::NoFolder),
        some("--retranscribe-model needs the meeting folder, which was not created.")
    );
    assert_eq!(say(RecordEnd::RetranscribeFailed), some("x"));
    assert_eq!(failure_status(&Command::Record(RecordArgs::default())), 1);
    assert_eq!(failure_status(&Command::Summarize(SummarizeArgs::default())), 1);
    assert_eq!(failure_status(&Command::ListDevices), 0);
}

#[test]
fn saved_meetings_are_announced() {
    let options = |record_only, retranscribe| RecordOptions {
        accepted: true,
        language: false,
        overrides: false,
        record_only,
        retranscribe,
        summarize: false,
        save_audio: true,
    };
    assert_eq!(
        saved_line(&options(true, false), "m", &None),
        "✓ Recorded (no AI). meeting_id=m folder=(no folder)  Re-transcribe in the app whenever you want."
    );
    assert_eq!(
        saved_line(&options(true, true), "m", &some("/f")),
        "✓ Saved. meeting_id=m folder=/f"
    );
    assert_eq!(shown_id(&None), "?");
    assert_eq!(shown_id(&some("m")), "m");
    assert!(has_meeting_id(&some("m")));
    assert!(!has_meeting_id(&some("?")));
    assert!(!has_meeting_id(&None));
    let args = RecordArgs {
        engine: some("parakeet"),
        language: some("pt"),
        retranscribe_engine: some("whisper"),
        ..Default::default()
    };
    assert_eq!(retranscribe_choice(&args), (some("whisper"), some("pt")));
}

#[test]
fn meetings_are_chosen() {
    assert_eq!(choose_meeting(&some("a"), Err("x".to_string())), Ok("a".to_string()));
    assert_eq!(choose_meeting(&None, Ok(some("b"))), Ok("b".to_string()));
    assert_eq!(choose_meeting(&None, Ok(None)), Err("No meetings found.".to_string()));
    assert_eq!(
        choose_meeting(&None, Err("x".to_string())),
        Err("Failed to list meetings: x".to_string())
    );
}

#[test]
fn only_finished_meetings_with_a_folder_are_transcribed_again() {
    let found = |status: &str, folder: Option<&str>| {
        MeetingLookup::Found(MeetingFolder {
            status: status.to_string(),
            folder_path: folder.map(str::to_string),
        })
    };
    assert_eq!(folder_to_retranscribe("m", found("completed", Some("/f"))), Ok("/f".to_string()));
    assert_eq!(
        folder_to_retranscribe("m", found("recording", Some("/f"))).unwrap_err(),
        "Meeting m is still being recorded (status: recording); wait for it to finish."
    );
    assert_eq!(
        folder_to_retranscribe("m", found("completed", None)).unwrap_err(),
        "Meeting m has no folder on disk; there is no audio to re-transcribe."
    );
    assert_eq!(
        folder_to_retranscribe("m", MeetingLookup::Missing).unwrap_err(),
        "Meeting m not found."
    );
    assert_eq!(
        folder_to_retranscribe("m", MeetingLookup::Failed("x".to_string())).unwrap_err(),
        "Failed to load the meeting: x"
    );
}

#[test]
fn engines_fall_back_to_whisper() {
    assert_eq!(choose_engine(&None), (Engine::Whisper, false));
    assert_eq!(choose_engine(&some("parakeet")), (Engine::Parakeet, false));
    assert_eq!(choose_engine(&some("whisper")), (Engine::Whisper, false));
    assert_eq!(choose_engine(&some("localWhisper")), (Engine::Whisper, false));
    assert_eq!(choose_engine(&some("vosk")), (Engine::Whisper, true));
    assert_eq!(engine_error(Engine::Parakeet, "x"), "Failed to initialize the parakeet engine: x");
    assert_eq!(
        retranscribe_notice(Engine::Whisper, "large-v3"),
        "⟳ Re-transcribing with whisper/large-v3 (press Ctrl+C to cancel; anything chained after it is skipped)."
    );
    assert_eq!(
        meetily::cli::chain::unknown_engine_warning("vosk"),
        "Warning: unknown engine 'vosk'; using whisper."
    );
    for n in [0u64, 7, 10, 99, 100, 1234] {
        assert_eq!(progress_line(n, "m"), format!("\r\x1b[K⏳ {:>3}% {}", n, "m"));
    }
}

#[test]
fn second_transcriptions_end() {
    assert!(matches!(retranscribe_end("m", &Ok(()), true), RetranscribeEnd::Done));
    assert!(matches!(
        retranscribe_end("m", &Err("x".to_string()), true),
        RetranscribeEnd::Cancelled
    ));
    match retranscribe_end("m", &Err("x".to_string()), false) {
        RetranscribeEnd::Failed(e) => assert_eq!(
            e,
            "Re-transcription failed (the meeting is intact; retry with `retranscribe --meeting m` or in the app): x"
        ),
        _ => panic!("expected a failure"),
    }
}

#[test]
fn summaries_need_text_template_and_model() {
    let pieces = MeetingLookup::Found(vec!["a".to_string(), "b".to_string()]);
    assert_eq!(text_to_summarize("m", pieces), Ok("a\nb".to_string()));
    let blank = MeetingLookup::Found(vec![" ".to_string(), "".to_string()]);
    assert_eq!(
        text_to_summarize("m", blank).unwrap_err(),
        "This meeting has no transcript to summarize; re-transcribe it in the app."
    );
    assert_eq!(
        text_to_summarize("m", MeetingLookup::Missing).unwrap_err(),
        "Meeting m not found."
    );
    assert_eq!(
        text_to_summarize("m", MeetingLookup::Failed("x".to_string())).unwrap_err(),
        "Failed to load the meeting: x"
    );
    assert_eq!(template_or_default(None), "daily_standup");
    assert_eq!(template_or_default(some("t")), "t");
    let ids = vec!["a".to_string(), "b".to_string()];
    assert!(check_template("a", true, &ids).is_ok());
    assert_eq!(
        check_template("c", false, &ids).unwrap_err(),
        "Unknown template 'c'. Available: a, b"
    );
    let pair = |a: &str, b: &str| Some((a.to_string(), b.to_string()));
    assert_eq!(summary_model(pair("p", "m")).unwrap(), ("p".to_string(), "m".to_string()));
    for bad in [None, pair("", "m"), pair("p", "")] {
        assert_eq!(
            summary_model(bad).unwrap_err(),
            "Summary model not configured. Configure it in the app first."
        );
    }
}

#[test]
fn summaries_are_confirmed_by_their_status() {
    let found = |status: &str, error: Option<&str>| SummaryLookup::Found {
        status: status.to_string(),
        error: error.map(str::to_string),
    };
    assert!(summary_outcome(&found("COMPLETED", Some("x"))).is_ok());
    assert!(summary_outcome(&found("completed", None)).is_ok());
    assert_eq!(summary_outcome(&found("failed", Some("x"))).unwrap_err(), "x");
    assert_eq!(
        summary_outcome(&found("Pending", None)).unwrap_err(),
        "summary did not complete (status: Pending)"
    );
    assert_eq!(
        summary_outcome(&SummaryLookup::Missing).unwrap_err(),
        "summary process not found after generation."
    );
    assert_eq!(
        summary_outcome(&SummaryLookup::Failed("x".to_string())).unwrap_err(),
        "failed to read the summary status: x"
    );
    assert!(summary_verdict(&found("x", None), true).is_ok());
    assert_eq!(spinner_line(0, 3), "\r\x1b[K⠋ Generating summary… 3s");
    assert_eq!(spinner_line(19, 60), "\r\x1b[K⠏ Generating summary… 60s");
}

#[test]
fn audio_is_kept_unless_refused() {
    let silent = RecordArgs { no_audio_save: true, ..Default::default() };
    assert!(saves_audio(&RecordArgs::default()));
    assert!(!saves_audio(&silent));
    assert_eq!(
        course(&silent, &[YES]),
        vec![
            RecordStep::LoadLabel,
            RecordStep::StartRecording { without_model: false, save_audio: false }
        ]
    );
    let pointless = RecordArgs { no_audio_save: true, record_only: true, ..Default::default() };
    assert_eq!(course(&pointless, &[]), vec![RecordStep::Finished(RecordEnd::Refused)]);
}

fn announcements(args: &RecordArgs, replies: &[RecordReply]) -> usize {
    let steps = course(args, replies);
    steps.windows(2).filter(|w| saved_line_due(w[0], w[1])).count()
}

#[test]
fn saved_meetings_are_announced_once() {
    let failed = RecordReply::Failed;
    let plain = RecordArgs::default();
    assert_eq!(announcements(&plain, &[YES, YES, NO, YES, YES, YES]), 1);
    assert_eq!(announcements(&plain, &[YES, YES, YES, YES, YES]), 0);
    assert_eq!(announcements(&plain, &[YES, YES, YES, YES, YES, failed]), 1);
    assert_eq!(announcements(&plain, &[YES, YES, YES, YES, failed, YES]), 0);
    assert_eq!(announcements(&plain, &[YES, YES, YES, failed, YES]), 0);
    let again = RecordArgs { retranscribe_model: some("large-v3"), ..Default::default() };
    assert_eq!(announcements(&again, &[YES, NO, NO, YES, YES]), 1);
    assert_eq!(announcements(&again, &[YES, YES, NO, YES, YES, failed]), 1);
    assert!(saved_line_due(RecordStep::SaveNotes, RecordStep::Summarize));
    assert!(!saved_line_due(RecordStep::SaveMeeting, RecordStep::SaveNotes));
}

#[test]
fn a_second_interruption_gives_up() {
    assert_eq!(interruption(false), Interruption::Cancel);
    assert_eq!(interruption(true), Interruption::Abandon { status: 130 });
    assert_eq!(
        interruption_notice(interruption(false)),
        "⚠ Cancelling the re-transcription (press Ctrl+C again to abandon)..."
    );
    assert_eq!(
        interruption_notice(interruption(true)),
        "⚠ Abandoned during the re-transcription; the meeting keeps the transcript it already had."
    );
}

#[test]
fn record_only_starts_without_a_model() {
    let only = RecordArgs { record_only: true, ..Default::default() };
    assert_eq!(
        course(&only, &[]),
        vec![RecordStep::StartRecording { without_model: true, save_audio: true }]
    );
    assert!(starts_without_model(&options_of(&only)));
    assert!(!starts_without_model(&options_of(&RecordArgs::default())));
    assert_eq!(start_hint(&options_of(&only)), None);
    assert_eq!(
        start_hint(&options_of(&RecordArgs::default())),
        Some("Transcription model not available. Download it in the app, or record without AI using --record-only.")
    );
}

#[test]
fn transcripts_are_heard_and_shown_as_asked() {
    let args = |record_only, quiet, partial| RecordArgs {
        record_only,
        quiet,
        partial,
        ..Default::default()
    };
    for (only, quiet, partial, heard, shown) in [
        (false, false, false, (true, false), (true, false)),
        (false, false, true, (true, true), (true, true)),
        (false, true, true, (true, true), (false, false)),
        (false, true, false, (true, false), (false, false)),
        (true, false, true, (false, false), (false, false)),
        (true, true, false, (false, false), (false, false)),
    ] {
        let args = args(only, quiet, partial);
        assert_eq!(heard_transcripts(&args), heard);
        assert_eq!(shown_transcripts(&args), shown);
    }
}

#[test]
fn typing_a_note_freezes_the_line() {
    let mut p = PanelState { record_only: true, ..PanelState::default() };
    let mut c = DrawClock::new();
    let still = TickInput { wall_secs: 9, paused: true, typing: true, silent: true, bytes: 5 };
    assert!(!c.tick(&mut p, still));
    assert_eq!(c, DrawClock::new());
    assert_eq!((p.elapsed_secs, p.bytes_written, p.paused), (0, 0, false));
    assert!(c.tick(&mut p, TickInput { typing: false, paused: false, ..still }));
    assert_eq!((p.elapsed_secs, p.bytes_written, c.silent_ms), (9, 5, 250));
    assert!(measures_folder(true, false));
    assert!(!measures_folder(true, true));
    assert!(!measures_folder(false, false));
}

#[test]
fn looking_for_keys_ends_with_the_recording() {
    let ended = |saved, stop| KeyEffect::NoteEnded { saved, stop };
    let mut k = Keyboard::new(None);
    let nothing = |done| KeyStep { effect: KeyEffect::Nothing, done };
    assert_eq!(k.on_input(KeyInput::Nothing), nothing(false));
    assert_eq!(k.on_input(KeyInput::ReadFailed), nothing(false));
    assert_eq!(k.on_input(KeyInput::PollFailed), nothing(true));
    assert_eq!(k.on_input(KeyInput::StopAsked), nothing(true));
    let pause = k.on_input(KeyInput::Key(press(Key::Char('p'))));
    assert_eq!(pause, KeyStep { effect: KeyEffect::Send(KeyCmd::TogglePause), done: false });
    let quit = k.on_input(KeyInput::Key(press(Key::Char('q'))));
    assert_eq!(quit, KeyStep { effect: KeyEffect::Send(KeyCmd::Stop), done: true });

    k.on_input(KeyInput::Key(press(Key::Char('n'))));
    type_text(&mut k, "one");
    let failed = k.on_input(KeyInput::PollFailed);
    assert_eq!(failed, KeyStep { effect: ended(true, false), done: false });
    k.on_input(KeyInput::Key(press(Key::Char('n'))));
    type_text(&mut k, "two");
    let stopped = k.on_input(KeyInput::StopAsked);
    assert_eq!(stopped, KeyStep { effect: ended(false, false), done: true });
    k.on_input(KeyInput::Key(press(Key::Char('n'))));
    type_text(&mut k, "three");
    let last = k.on_input(KeyInput::Key(ctrl('c')));
    assert_eq!(last, KeyStep { effect: ended(true, true), done: true });
    assert_eq!(k.notes_to_save(), some("one\nthree"));
    assert_eq!(KEY_WAIT_MS, 200);
}

#[test]
fn effects_are_shown_and_handed_on() {
    let ended = |saved, stop| KeyEffect::NoteEnded { saved, stop };
    assert_eq!(effect_text(KeyEffect::PromptForNote), "\r\x1b[Knote> ");
    assert_eq!(effect_text(KeyEffect::Echo('é')), "é");
    assert_eq!(effect_text(KeyEffect::EraseLast), "\u{8} \u{8}");
    assert_eq!(effect_text(ended(true, false)), "\r\x1b[Knote saved\r\n");
    assert_eq!(effect_text(ended(false, true)), "\r\x1b[K");
    assert_eq!(effect_text(KeyEffect::Nothing), "");
    assert_eq!(effect_text(KeyEffect::Send(KeyCmd::Stop)), "");
    assert_eq!(command_to_send(KeyEffect::Send(KeyCmd::TogglePause)), Some(KeyCmd::TogglePause));
    assert_eq!(command_to_send(ended(false, true)), Some(KeyCmd::Stop));
    assert_eq!(command_to_send(ended(true, false)), None);
    assert_eq!(command_to_send(KeyEffect::PromptForNote), None);
    assert_eq!(summary_saved_line("m"), "✓ Summary saved. meeting_id=m");
}
