use meetily::cli::args::{RetranscribeArgs, SummarizeArgs};
use meetily::cli::chain::{
    chain_status, retranscribe_options, summarize_options, summary_after_recording, ChainEnd,
    ChainOptions, ChainReply, ChainRun, ChainStep,
};
use meetily::cli::session::acceleration;

fn course(options: ChainOptions, replies: &[ChainReply]) -> Vec<ChainStep> {
    let mut run = ChainRun::start(options);
    let mut steps = vec![run.step];
    for reply in replies {
        run = run.after(*reply);
        steps.push(run.step);
    }
    steps
}

fn retranscribe(meeting: Option<&str>, last: bool, summarize: bool) -> ChainOptions {
    retranscribe_options(&RetranscribeArgs {
        meeting: meeting.map(|m| m.to_string()),
        last,
        model: "large-v3".to_string(),
        summarize,
        ..Default::default()
    })
}

#[test]
fn retranscribing_the_last_meeting_and_summarizing_it() {
    let done = [ChainReply::Done; 11];
    assert_eq!(
        course(retranscribe(None, true, true), &done),
        vec![
            ChainStep::FindLatest,
            ChainStep::FindFolder,
            ChainStep::InitEngine,
            ChainStep::Transcribe,
            ChainStep::LoadText,
            ChainStep::CheckTemplate,
            ChainStep::LoadModel,
            ChainStep::CreateProcess,
            ChainStep::SaveText,
            ChainStep::Generate,
            ChainStep::ReadOutcome,
            ChainStep::Finished(ChainEnd::Done),
        ]
    );
}

#[test]
fn retranscribing_alone_ends_after_the_transcription() {
    assert_eq!(
        course(retranscribe(Some("m1"), false, false), &[ChainReply::Done; 3]),
        vec![
            ChainStep::FindFolder,
            ChainStep::InitEngine,
            ChainStep::Transcribe,
            ChainStep::Finished(ChainEnd::Done),
        ]
    );
}

#[test]
fn a_failed_transcription_is_not_summarized() {
    let options = retranscribe(Some("m1"), false, true);
    let at_transcription = [ChainReply::Done, ChainReply::Done];
    for (reply, end) in
        [(ChainReply::Failed, ChainEnd::Failed), (ChainReply::Cancelled, ChainEnd::Cancelled)]
    {
        let mut replies = at_transcription.to_vec();
        replies.push(reply);
        replies.push(ChainReply::Done);
        let steps = course(options, &replies);
        assert_eq!(steps[3], ChainStep::Finished(end));
        assert_eq!(steps[4], ChainStep::Finished(end));
    }
}

#[test]
fn a_meeting_without_a_folder_is_not_transcribed() {
    let steps = course(retranscribe(Some("m1"), false, true), &[ChainReply::Failed]);
    assert_eq!(steps, vec![ChainStep::FindFolder, ChainStep::Finished(ChainEnd::Failed)]);
}

#[test]
fn refused_options_do_nothing() {
    let steps = course(retranscribe(None, false, true), &[ChainReply::Done]);
    assert_eq!(
        steps,
        vec![ChainStep::Finished(ChainEnd::Refused), ChainStep::Finished(ChainEnd::Refused)]
    );
    let both = SummarizeArgs { meeting: Some("m1".to_string()), last: true, template: None };
    assert_eq!(course(summarize_options(&both), &[])[0], ChainStep::Finished(ChainEnd::Refused));
}

#[test]
fn summarizing_starts_with_the_text() {
    let args = SummarizeArgs { meeting: Some("m1".to_string()), last: false, template: None };
    assert_eq!(course(summarize_options(&args), &[])[0], ChainStep::LoadText);
    let last = SummarizeArgs { meeting: None, last: true, template: None };
    assert_eq!(
        course(summarize_options(&last), &[ChainReply::Done]),
        vec![ChainStep::FindLatest, ChainStep::LoadText]
    );
    assert_eq!(course(summary_after_recording(), &[])[0], ChainStep::LoadText);
}

#[test]
fn the_database_has_the_last_word_on_a_summary() {
    let mut replies = vec![ChainReply::Done; 5];
    replies.push(ChainReply::Failed);
    let mut steps = course(summary_after_recording(), &replies);
    assert_eq!(steps.pop(), Some(ChainStep::ReadOutcome));
    replies.push(ChainReply::Failed);
    let mut steps = course(summary_after_recording(), &replies);
    assert_eq!(steps.pop(), Some(ChainStep::Finished(ChainEnd::Failed)));
}

#[test]
fn exit_status_of_the_work_on_a_saved_meeting() {
    assert_eq!(chain_status(ChainEnd::Done), 0);
    assert_eq!(chain_status(ChainEnd::Refused), 1);
    assert_eq!(chain_status(ChainEnd::Failed), 1);
    assert_eq!(chain_status(ChainEnd::Cancelled), 130);
}

#[test]
fn acceleration_goes_by_what_was_built_in() {
    assert_eq!(acceleration(true, true, true), "CUDA");
    assert_eq!(acceleration(false, true, true), "Vulkan");
    assert_eq!(acceleration(false, false, true), "Metal");
    assert_eq!(acceleration(false, false, false), "CPU");
}
