//! What is logged of a crash.
use crate::text;
use vstd::prelude::*;

verus! {

/// The text of an entry.
pub open spec fn entry_text(
    timestamp: Seq<char>,
    thread: Seq<char>,
    info: Seq<char>,
    backtrace: Seq<char>,
) -> Seq<char> {
    "===== PANIC at "@ + timestamp + " =====\nthread: "@ + thread + "\n"@ + info
        + "\n\nbacktrace:\n"@ + backtrace + "\n\n"@
}

/// The entry of a crash in the log: when, in which thread, why and where.
pub fn panic_entry(timestamp: &str, thread: &str, info: &str, backtrace: &str) -> (r: String)
    ensures
        r@ == "===== PANIC at "@ + timestamp@ + " =====\nthread: "@ + thread@ + "\n"@ + info@
            + "\n\nbacktrace:\n"@ + backtrace@ + "\n\n"@,
        r@ == entry_text(timestamp@, thread@, info@, backtrace@),
{
    let mut out = "===== PANIC at ".to_owned();
    out.append(timestamp);
    out.append(" =====\nthread: ");
    out.append(thread);
    out.append("\n");
    out.append(info);
    out.append("\n\nbacktrace:\n");
    out.append(backtrace);
    out.append("\n\n");
    out
}

/// An entry holds all that is known of the crash, and the whole backtrace.
pub proof fn law_entries_hold_all_that_is_known(
    timestamp: Seq<char>,
    thread: Seq<char>,
    info: Seq<char>,
    backtrace: Seq<char>,
)
    ensures
        text::has(entry_text(timestamp, thread, info, backtrace), timestamp),
        text::has(entry_text(timestamp, thread, info, backtrace), thread),
        text::has(entry_text(timestamp, thread, info, backtrace), info),
        text::has(entry_text(timestamp, thread, info, backtrace), backtrace),
{
    let whole = entry_text(timestamp, thread, info, backtrace);
    let s1 = "===== PANIC at "@;
    let s2 = " =====\nthread: "@;
    let s3 = "\n"@;
    let s4 = "\n\nbacktrace:\n"@;
    let s5 = "\n\n"@;
    let after_info = s4 + backtrace + s5;
    let after_thread = s3 + info + after_info;
    let after_timestamp = s2 + thread + after_thread;
    let to_thread = s1 + timestamp + s2;
    let to_info = to_thread + thread + s3;
    let to_backtrace = to_info + info + s4;
    text::law_pieces_stand_in_the_whole(s1, timestamp, after_timestamp);
    assert(s1 + timestamp + after_timestamp =~= whole);
    text::law_pieces_stand_in_the_whole(to_thread, thread, after_thread);
    assert(to_thread + thread + after_thread =~= whole);
    text::law_pieces_stand_in_the_whole(to_info, info, after_info);
    assert(to_info + info + after_info =~= whole);
    text::law_pieces_stand_in_the_whole(to_backtrace, backtrace, s5);
    assert(to_backtrace + backtrace + s5 =~= whole);
}

} // verus!
