use meetily::audio::recovery::{
    complete_error, count_recoverable, gathered, load_error, recoverable_meeting, recovery_result,
    AudioMerge, IncompleteMeeting, Leftovers, LoadOutcome, Recovery, RecoveryReply, RecoveryStep,
};
use meetily::clock::Moment;
use meetily::panic_log::panic_entry;
use meetily::summary::file_export::{
    save_summary_to_folder, summary_document, ExportPlan, MeetingLookup, SkipReason, SUMMARY_FILE,
};

fn meeting(folder: Option<&str>) -> IncompleteMeeting {
    IncompleteMeeting {
        id: "m1".to_string(),
        title: "Sync".to_string(),
        created_at: Moment { secs: 0, nanos: 0 },
        updated_at: Moment { secs: 1000, nanos: 500_000_000 },
        folder_path: folder.map(str::to_string),
    }
}

fn at(secs: i64, nanos: u32) -> Moment {
    Moment { secs, nanos }
}

#[test]
fn young_signs_of_life_mean_running() {
    let live = |now| recoverable_meeting(meeting(None), None, now).is_live;
    assert!(live(at(1000, 500_000_000)));
    assert!(live(at(1089, 999_999_999)));
    assert!(live(at(1090, 499_999_999)));
    assert!(!live(at(1090, 500_000_000)));
    assert!(live(at(900, 0)));
    assert!(!live(at(5000, 0)));
}

#[test]
fn leftovers_count_only_with_a_folder() {
    let found = Some(Leftovers { transcript_count: 3, has_audio: true });
    let r = recoverable_meeting(meeting(Some("/m")), found, at(2000, 0));
    assert_eq!(r.transcript_count, 3);
    assert!(r.has_audio);
    assert_eq!(r.id, "m1");
    assert_eq!(r.title, "Sync");
    assert_eq!(r.created_at, "1970-01-01T00:00:00+00:00");
    assert_eq!(r.updated_at, "1970-01-01T00:16:40.500+00:00");
    let gone = recoverable_meeting(meeting(Some("/m")), None, at(2000, 0));
    assert_eq!(gone.transcript_count, 0);
    assert!(!gone.has_audio);
    let homeless = recoverable_meeting(meeting(None), found, at(1001, 0));
    assert_eq!(homeless.transcript_count, 0);
    assert_eq!(count_recoverable(&[r, gone, homeless]), (2, 1));
}

fn run(replies: &[RecoveryReply]) -> RecoveryStep {
    let mut r = Recovery::start();
    for reply in replies {
        r = r.after(*reply);
    }
    r.step
}

#[test]
fn checkpoints_go_only_after_success() {
    let ok = RecoveryReply::Done { merge_succeeded: false };
    let merged = RecoveryReply::Done { merge_succeeded: true };
    assert_eq!(run(&[]), RecoveryStep::Load);
    assert_eq!(run(&[RecoveryReply::Failed]), RecoveryStep::GaveUp);
    assert_eq!(run(&[ok]), RecoveryStep::Gather);
    assert_eq!(run(&[ok, merged]), RecoveryStep::Complete);
    assert_eq!(run(&[ok, merged, ok]), RecoveryStep::RemoveCheckpoints);
    assert_eq!(run(&[ok, merged, ok, RecoveryReply::Failed]), RecoveryStep::Recovered);
    assert_eq!(run(&[ok, ok, ok]), RecoveryStep::Recovered);
    assert_eq!(run(&[ok, RecoveryReply::Failed, ok]), RecoveryStep::Recovered);
    assert_eq!(run(&[ok, merged, RecoveryReply::Failed]), RecoveryStep::GaveUp);
    assert_eq!(run(&[ok, merged, RecoveryReply::Failed, ok]), RecoveryStep::GaveUp);
}

#[test]
fn merges_are_told_apart() {
    let merge = |status: &str| AudioMerge::Merged {
        status: status.to_string(),
        audio_file_path: Some("/m/audio.mp4".to_string()),
        message: "done".to_string(),
    };
    let yes = RecoveryReply::Done { merge_succeeded: true };
    let no = RecoveryReply::Done { merge_succeeded: false };
    assert_eq!(gathered(&merge("success")), yes);
    assert_eq!(gathered(&merge("partial")), no);
    assert_eq!(gathered(&AudioMerge::NoCheckpoints), no);
    assert_eq!(gathered(&AudioMerge::Failed("success".to_string())), no);

    let r = recovery_result("m".to_string(), "T".to_string(), 2, merge("partial"));
    assert_eq!(r.audio_status, "partial");
    assert_eq!(r.audio_file_path.as_deref(), Some("/m/audio.mp4"));
    assert_eq!(r.message, "done");
    let r = recovery_result("m".to_string(), "T".to_string(), 0, AudioMerge::NoCheckpoints);
    assert_eq!(r.audio_status, "none");
    assert_eq!(r.message, "No audio checkpoints found");
    let r =
        recovery_result("m".to_string(), "T".to_string(), 5, AudioMerge::Failed("io".to_string()));
    assert_eq!(r.audio_status, "failed");
    assert_eq!(r.message, "io");
    assert_eq!(r.transcript_count, 5);
    assert_eq!(r.audio_file_path, None);
}

#[test]
fn recovery_errors_speak() {
    let failed = LoadOutcome::Failed("locked".to_string());
    assert_eq!(load_error("m", &LoadOutcome::Found), None);
    assert_eq!(load_error("m", &LoadOutcome::Missing).unwrap(), "Meeting m not found");
    assert_eq!(load_error("m", &failed).unwrap(), "Failed to load meeting m: locked");
    assert_eq!(complete_error("m", &LoadOutcome::Found), None);
    assert_eq!(
        complete_error("m", &LoadOutcome::Missing).unwrap(),
        "Meeting m disappeared during recovery"
    );
    assert_eq!(complete_error("m", &failed).unwrap(), "Failed to finalize meeting m: locked");
}

fn lookup(folder: Option<&str>) -> MeetingLookup {
    MeetingLookup::Found {
        title: "Sync".to_string(),
        folder_path: folder.map(str::to_string),
        created_at: at(1_700_000_000, 0),
    }
}

#[test]
fn summaries_are_exported_with_a_header() {
    let plan =
        save_summary_to_folder(lookup(Some("/m")), "m1", true, Some("# Hi\n"), at(1_700_050_000, 0));
    match plan {
        ExportPlan::Write { folder, content } => {
            assert_eq!(folder, "/m");
            assert_eq!(
                content,
                "# Meeting Summary: Sync\n\n**Meeting ID:** m1\n**Date:** November 14, 2023 10:13 PM\n**Last updated:** November 15, 2023 12:06 PM\n\n---\n\n# Hi\n"
            );
        }
        _ => panic!("expected a file"),
    }
    assert_eq!(SUMMARY_FILE, "summary.md");
    assert_eq!(
        summary_document("t", "i", "d", "u", "m"),
        "# Meeting Summary: t\n\n**Meeting ID:** i\n**Date:** d\n**Last updated:** u\n\n---\n\nm"
    );
}

#[test]
fn exports_are_skipped_for_a_reason() {
    let reason = |lookup: MeetingLookup, exists: bool, md: Option<&str>| {
        match save_summary_to_folder(lookup, "m1", exists, md, at(0, 0)) {
            ExportPlan::Skip(reason) => reason,
            _ => panic!("expected a skip"),
        }
    };
    assert_eq!(reason(MeetingLookup::Missing, true, Some("x")), SkipReason::MeetingMissing);
    assert_eq!(
        reason(MeetingLookup::Failed("x".to_string()), true, Some("x")),
        SkipReason::LookupFailed
    );
    assert_eq!(reason(lookup(None), true, Some("x")), SkipReason::NoFolder);
    assert_eq!(reason(lookup(Some("")), true, Some("x")), SkipReason::NoFolder);
    assert_eq!(reason(lookup(Some("/m")), false, Some("x")), SkipReason::FolderGone);
    assert_eq!(reason(lookup(Some("/m")), true, None), SkipReason::NoMarkdown);
    assert_eq!(reason(lookup(Some("/m")), true, Some("")), SkipReason::NoMarkdown);
}

#[test]
fn crashes_are_logged_in_full() {
    assert_eq!(
        panic_entry("now", "main", "boom", "frames"),
        "===== PANIC at now =====\nthread: main\nboom\n\nbacktrace:\nframes\n\n"
    );
}

#[test]
fn the_ends_of_the_calendar_can_be_written() {
    for secs in [-8_000_000_000_000, 8_000_000_000_000] {
        let far = Moment { secs, nanos: 999_999_999 };
        assert!(far.is_valid());
        let mut m = meeting(None);
        m.created_at = far;
        m.updated_at = far;
        let r = recoverable_meeting(m, None, at(0, 0));
        assert_eq!(r.created_at, r.updated_at);
        assert_eq!(r.is_live, secs > 0);
        let found = MeetingLookup::Found {
            title: "T".to_string(),
            folder_path: Some("/m".to_string()),
            created_at: far,
        };
        let plan = save_summary_to_folder(found, "m1", true, Some("text"), far);
        assert!(matches!(plan, ExportPlan::Write { .. }));
    }
    assert!(!Moment { secs: 8_000_000_000_001, nanos: 0 }.is_valid());
    assert!(!Moment { secs: 0, nanos: 1_000_000_000 }.is_valid());
}

#[test]
fn unmerged_audio_does_not_stop_a_recovery() {
    let gather = Recovery::start().after(RecoveryReply::Done { merge_succeeded: false });
    assert_eq!(gather.step, RecoveryStep::Gather);
    assert_eq!(gather.after(RecoveryReply::Failed).step, RecoveryStep::Complete);
    let merged = AudioMerge::Failed("disk full".to_string());
    let completed = gather.after(gathered(&merged)).after(RecoveryReply::Done {
        merge_succeeded: false,
    });
    assert_eq!(completed.step, RecoveryStep::Recovered);
}
