use meetily::clock::Moment;
use meetily::summary::context::commands::{
    add_error_message, api_get_summary_context, new_row, original_name, require_attachment,
    require_file, resolve_meeting_folder, stored_size, AddAttachment, AddOutcome, AddReply,
    AddStep, MAX_ATTACHMENTS_PER_MEETING, MAX_TOTAL_BYTES,
};
use meetily::summary::context::repository::{
    ContextAttachmentsRepository, SummaryContextRepository,
};
use meetily::summary::context::storage::read_text_capped;

const NOW: Moment = Moment { secs: 0, nanos: 500_000_000 };

fn run(replies: &[AddReply]) -> AddAttachment {
    let mut a = AddAttachment::start();
    for r in replies {
        a = a.after(*r);
    }
    a
}

#[test]
fn adding_takes_all_steps() {
    let ok = AddReply::Done(0);
    let steps = [
        AddStep::CountAttachments,
        AddStep::ReadSource,
        AddStep::SumSizes,
        AddStep::LookUpFolder,
        AddStep::WriteFile,
        AddStep::NextPlace,
        AddStep::InsertRow,
        AddStep::Finished(AddOutcome::Added),
    ];
    for (n, step) in steps.iter().enumerate() {
        assert_eq!(run(&vec![ok; n]).step, *step);
    }
    assert_eq!(run(&vec![ok; 12]).step, AddStep::Finished(AddOutcome::Added));
}

#[test]
fn limits_are_exact() {
    let many = AddReply::Done(MAX_ATTACHMENTS_PER_MEETING);
    assert_eq!(run(&[many]).step, AddStep::Finished(AddOutcome::TooMany));
    let nine = AddReply::Done(9);
    assert_eq!(run(&[nine]).step, AddStep::ReadSource);
    let fits = [nine, AddReply::Done(100), AddReply::Done(MAX_TOTAL_BYTES - 100)];
    assert_eq!(run(&fits).step, AddStep::LookUpFolder);
    let too_large = [nine, AddReply::Done(101), AddReply::Done(MAX_TOTAL_BYTES - 100)];
    assert_eq!(run(&too_large).step, AddStep::Finished(AddOutcome::TooLarge));
}

#[test]
fn every_failure_has_its_outcome() {
    let ok = AddReply::Done(0);
    let outcomes =
        [AddOutcome::Database, AddOutcome::Source, AddOutcome::Database, AddOutcome::Folder];
    for (n, outcome) in outcomes.iter().enumerate() {
        let mut replies = vec![ok; n];
        replies.push(AddReply::Failed);
        assert_eq!(run(&replies).step, AddStep::Finished(*outcome));
    }
}

#[test]
fn the_file_is_taken_back_after_a_failure() {
    let ok = AddReply::Done(0);
    let outcomes = [AddOutcome::Write, AddOutcome::Database, AddOutcome::Insert];
    for (n, outcome) in outcomes.iter().enumerate() {
        let mut replies = vec![ok; n + 4];
        replies.push(AddReply::Failed);
        assert_eq!(run(&replies).step, AddStep::DeleteFile(*outcome));
        replies.push(AddReply::Failed);
        assert_eq!(run(&replies).step, AddStep::Finished(*outcome));
    }
}

#[test]
fn failures_speak() {
    assert_eq!(add_error_message(AddOutcome::Added, ""), None);
    let say = |o| add_error_message(o, "cause").unwrap();
    assert_eq!(say(AddOutcome::TooMany), "Limite de 10 anexos atingido para esta reuni\u{00e3}o");
    assert_eq!(say(AddOutcome::TooLarge), "Limite total de 1 MB de anexos atingido");
    assert_eq!(say(AddOutcome::Database), "DB error: cause");
    assert_eq!(say(AddOutcome::Source), "cause");
    assert_eq!(say(AddOutcome::Folder), "cause");
    assert_eq!(say(AddOutcome::Write), "Failed to write attachment: cause");
    assert_eq!(say(AddOutcome::Insert), "Failed to record attachment: cause");
}

#[test]
fn folders_must_be_stored_and_exist() {
    let unset = "Meeting folder is not initialized \u{2014} start a recording at least once";
    assert_eq!(resolve_meeting_folder(None, true).unwrap_err(), unset);
    assert_eq!(resolve_meeting_folder(Some(None), true).unwrap_err(), unset);
    assert_eq!(
        resolve_meeting_folder(Some(Some("/m".to_string())), false).unwrap_err(),
        "Meeting folder does not exist on disk: /m"
    );
    assert_eq!(resolve_meeting_folder(Some(Some("/m".to_string())), true).unwrap(), "/m");
}

#[test]
fn rows_become_what_the_user_sees() {
    let read = read_text_capped("né\n".as_bytes()).unwrap();
    assert_eq!(stored_size(&read), 4);
    let row = new_row(
        "m".to_string(),
        "/tmp/a.txt".to_string(),
        original_name(Some("a.txt".to_string())),
        "x_a.txt".to_string(),
        4,
        true,
        3,
        NOW,
    );
    assert_eq!(row.id.len(), 36);
    assert_eq!(row.created_at, "1970-01-01T00:00:00.500+00:00");
    let data = api_get_summary_context("p".to_string(), &[row.clone()]);
    assert_eq!(data.context_prompt, "p");
    assert_eq!(data.attachments.len(), 1);
    let info = &data.attachments[0];
    assert_eq!(info.id, row.id);
    assert_eq!(info.display_name, "a.txt");
    assert_eq!(info.size_bytes, 4);
    assert!(info.truncated);
    assert_eq!(info.created_at, row.created_at);
    assert_eq!(original_name(None), "attachment");
    assert_eq!(require_attachment(Some(row)).unwrap().sort_order, 3);
    assert_eq!(require_attachment(None).unwrap_err(), "Attachment not found");
    assert!(require_file(true).is_ok());
    assert_eq!(require_file(false).unwrap_err(), "Arquivo n\u{00e3}o encontrado. Remova e re-anexe.");
}

#[test]
fn missing_rows_have_defaults() {
    assert_eq!(SummaryContextRepository::stored_prompt(None), "");
    assert_eq!(SummaryContextRepository::stored_prompt(Some("p".to_string())), "p");
    assert_eq!(SummaryContextRepository::stored_template(None), None);
    assert_eq!(SummaryContextRepository::stored_template(Some(None)), None);
    assert_eq!(
        SummaryContextRepository::stored_template(Some(Some("t".to_string()))),
        Some("t".to_string())
    );
    assert_eq!(ContextAttachmentsRepository::place_after(None), 0);
    assert_eq!(ContextAttachmentsRepository::place_after(Some(4)), 5);
    assert!(ContextAttachmentsRepository::was_deleted(1));
    assert!(!ContextAttachmentsRepository::was_deleted(0));
}
