//! What a recording shows and keeps while it runs: its name, engine and devices, and the
//! clock of the status line.
use crate::cli::args::RecordArgs;
use crate::cli::listing;
use crate::cli::listing::EngineModel;
use crate::cli::panel::PanelState;
use crate::text;
use vstd::prelude::*;

verus! {

/// The meeting's name: the one given, or one made of the local date and time.
pub open spec fn meeting_name(name: Option<Seq<char>>, now: Seq<char>) -> Seq<char> {
    match name {
        Some(n) => n,
        None => "CLI Meeting "@ + now,
    }
}

/// The meeting's name: the one given, or one made of the local date and time.
pub fn effective_name(name: &Option<String>, now: &str) -> (r: String)
    ensures
        r@ == meeting_name(text::opt_text(*name), now@),
        r@ == match *name {
            Some(n) => n@,
            None => "CLI Meeting "@ + now@,
        },
{
    match name {
        Some(n) => n.clone(),
        None => text::concat2("CLI Meeting ", now),
    }
}

/// Does the recording run with another engine or model than the configured one? Without
/// a model in use there is nothing to override.
pub open spec fn overrides_config(a: RecordArgs) -> bool {
    !a.record_only && (a.engine is Some || a.model is Some)
}

/// Does the recording run with another engine or model than the configured one?
pub fn override_active(args: &RecordArgs) -> (r: bool)
    ensures
        r == overrides_config(*args),
{
    !args.record_only && (args.engine.is_some() || args.model.is_some())
}

/// The engine as the configuration stores it.
pub open spec fn override_provider(
    engine: Option<Seq<char>>,
    original: Option<EngineModel>,
) -> Seq<char> {
    let base = match original {
        Some(c) => c.provider@,
        None => "localWhisper"@,
    };
    match engine {
        Some(e) => if e == "whisper"@ || e == "localWhisper"@ {
            "localWhisper"@
        } else if e == "parakeet"@ {
            "parakeet"@
        } else {
            base
        },
        None => base,
    }
}

/// The model that the recording runs with.
pub open spec fn override_model(
    model: Option<Seq<char>>,
    original: Option<EngineModel>,
) -> Seq<char> {
    match (model, original) {
        (Some(m), _) => m,
        (None, Some(c)) => c.model@,
        (None, None) => Seq::empty(),
    }
}

/// Is it the name of an engine?
pub open spec fn known_engine(e: Seq<char>) -> bool {
    e == "whisper"@ || e == "localWhisper"@ || e == "parakeet"@
}

/// Was an engine asked for that is not known?
pub open spec fn asks_unknown_engine(engine: Option<Seq<char>>) -> bool {
    engine matches Some(e) && !known_engine(e)
}

/// The configuration that a recording writes for its own time, and whether to warn that
/// the engine asked for is unknown. Without an engine or model of its own, the configured
/// one stays.
pub fn override_config(
    engine: &Option<String>,
    model: &Option<String>,
    original: &Option<EngineModel>,
) -> (r: (EngineModel, bool))
    ensures
        r.0.provider@ == override_provider(text::opt_text(*engine), *original),
        r.0.model@ == override_model(text::opt_text(*model), *original),
        r.1 == (*engine matches Some(e) && !known_engine(e@)),
        r.1 == asks_unknown_engine(text::opt_text(*engine)),
{
    let base = match original {
        Some(c) => c.provider.clone(),
        None => "localWhisper".to_owned(),
    };
    let mut unknown = false;
    let provider = match engine {
        Some(e) => {
            if text::same(e.as_str(), "whisper") || text::same(e.as_str(), "localWhisper") {
                "localWhisper".to_owned()
            } else if text::same(e.as_str(), "parakeet") {
                "parakeet".to_owned()
            } else {
                unknown = true;
                base
            }
        },
        None => base,
    };
    let model = match model {
        Some(m) => m.clone(),
        None => match original {
            Some(c) => c.model.clone(),
            None => String::new(),
        },
    };
    (EngineModel { provider, model }, unknown)
}

/// The warning of an engine that is not known.
pub fn unknown_engine_warning(engine: &str) -> (r: String)
    ensures
        r@ == "Warning: unknown --engine '"@ + engine@ + "'; using the configured provider."@,
{
    text::concat3("Warning: unknown --engine '", engine, "'; using the configured provider.")
}

/// What is shown once the override is in place.
pub fn override_notice(c: &EngineModel) -> (r: String)
    ensures
        r@ == "ℹ Temporary override: "@ + listing::engine_name(c.provider@) + "/"@ + c.model@
            + " (the original config will be restored when done)."@,
{
    text::concat5(
        "ℹ Temporary override: ",
        listing::shown_engine(c.provider.as_str()).as_str(),
        "/",
        c.model.as_str(),
        " (the original config will be restored when done).",
    )
}

/// The engine and model as the status line shows them.
pub open spec fn engine_label_text(record_only: bool, config: Option<EngineModel>) -> Seq<char> {
    if record_only {
        "no AI"@
    } else {
        match config {
            Some(c) => listing::engine_name(c.provider@) + "/"@ + c.model@,
            None => "?"@,
        }
    }
}

/// The engine and model as the status line shows them.
pub fn engine_label(record_only: bool, config: &Option<EngineModel>) -> (r: String)
    ensures
        r@ == engine_label_text(record_only, *config),
{
    if record_only {
        return "no AI".to_owned();
    }
    match config {
        Some(c) => text::concat3(
            listing::shown_engine(c.provider.as_str()).as_str(),
            "/",
            c.model.as_str(),
        ),
        None => "?".to_owned(),
    }
}

/// What a binary that was built for these computes with.
pub open spec fn computes_with(cuda: bool, vulkan: bool, metal: bool) -> Seq<char> {
    if cuda {
        "CUDA"@
    } else if vulkan {
        "Vulkan"@
    } else if metal {
        "Metal"@
    } else {
        "CPU"@
    }
}

/// What the binary computes with: the first of these that it was built for.
pub fn acceleration(cuda: bool, vulkan: bool, metal: bool) -> (r: &'static str)
    ensures
        r@ == if cuda {
            "CUDA"@
        } else if vulkan {
            "Vulkan"@
        } else if metal {
            "Metal"@
        } else {
            "CPU"@
        },
        r@ == computes_with(cuda, vulkan, metal),
{
    if cuda {
        "CUDA"
    } else if vulkan {
        "Vulkan"
    } else if metal {
        "Metal"
    } else {
        "CPU"
    }
}

/// The first line of a recording: engine, acceleration, devices and language.
pub open spec fn banner_text(
    label: Seq<char>,
    accel: Seq<char>,
    mic: Option<Seq<char>>,
    system: Option<Seq<char>>,
    language: Option<Seq<char>>,
) -> Seq<char> {
    "✓ Engine: "@ + label + " ["@ + accel + "]   ✓ Mic: "@ + text::text_or(mic, "default (OS)"@)
        + "   ✓ System: "@ + text::text_or(system, "default (OS)"@) + match language {
        Some(l) => "   ✓ Language: "@ + l,
        None => Seq::empty(),
    }
}

/// The first line of a recording.
pub fn banner(label: &str, accel: &str, args: &RecordArgs) -> (r: String)
    ensures
        r@ == banner_text(
            label@,
            accel@,
            text::opt_text(args.mic),
            text::opt_text(args.system),
            text::opt_text(args.language),
        ),
{
    let mut out = text::concat5("✓ Engine: ", label, " [", accel, "]   ✓ Mic: ");
    match &args.mic {
        Some(m) => out.append(m.as_str()),
        None => out.append("default (OS)"),
    }
    out.append("   ✓ System: ");
    match &args.system {
        Some(m) => out.append(m.as_str()),
        None => out.append("default (OS)"),
    }
    match &args.language {
        Some(l) => {
            out.append("   ✓ Language: ");
            out.append(l.as_str());
        },
        None => {},
    }
    proof {
        assert(out@ =~= banner_text(
            label@,
            accel@,
            text::opt_text(args.mic),
            text::opt_text(args.system),
            text::opt_text(args.language),
        ));
    }
    out
}

/// The second line of a recording: the meeting's name and folder.
pub fn meeting_banner(name: &str, folder: &Option<String>) -> (r: String)
    ensures
        r@ == "✓ Meeting: \""@ + name@ + "\"  → "@ + text::text_or(
            text::opt_text(*folder),
            "(folder to be created)"@,
        ),
{
    let shown = match folder {
        Some(f) => f.as_str(),
        None => "(folder to be created)",
    };
    text::concat4("✓ Meeting: \"", name, "\"  → ", shown)
}

/// The line of a finished piece of transcript. It takes the place of the status line and
/// starts a new line under it.
pub fn transcript_line(timestamp: &str, said: &str) -> (r: String)
    ensures
        r@ == "\r\x1b[K["@ + timestamp@ + "] "@ + said@ + "\r\n"@,
{
    text::concat5("\r\x1b[K[", timestamp, "] ", said, "\r\n")
}

/// The line of a piece of transcript that is not finished, in grey.
pub fn partial_line(said: &str) -> (r: String)
    ensures
        r@ == "\r\x1b[K\x1b[90m… "@ + said@ + "\x1b[0m"@,
{
    text::concat3("\r\x1b[K\x1b[90m… ", said, "\x1b[0m")
}

/// The id of a piece of transcript.
pub fn segment_id(sequence_id: u64) -> (r: String)
    ensures
        r@ == "seg_"@ + text::decimal(sequence_id as nat),
{
    let mut out = "seg_".to_owned();
    text::push_decimal(&mut out, sequence_id);
    out
}

/// The columns for the status line of a terminal that is so wide.
pub open spec fn usable_columns(width: Option<u16>) -> Option<usize> {
    match width {
        Some(w) => Some(
            if w == 0 {
                0
            } else {
                (w - 1) as usize
            },
        ),
        None => None,
    }
}

/// The columns that the status line may take. The last one stays free: some terminals
/// start a new line once it is written.
pub fn panel_columns(width: Option<u16>) -> (r: Option<usize>)
    ensures
        r == match width {
            Some(w) => Some(if w == 0 {
                0usize
            } else {
                (w - 1) as usize
            }),
            None => None,
        },
        r == usable_columns(width),
{
    match width {
        Some(w) => Some(if w == 0 {
            0
        } else {
            (w - 1) as usize
        }),
        None => None,
    }
}

/// Milliseconds from one drawing of the status line to the next.
pub const TICK_MS: u64 = 250;

/// What the status line counts from one drawing to the next.
#[derive(Debug, Clone, Copy, PartialEq, Eq, Structural)]
pub struct DrawClock {
    /// How long both devices have been silent.
    pub silent_ms: u64,
    /// How long the recording has been paused in all.
    pub paused_ms: u64,
}

/// What a drawing of the status line goes by.
#[derive(Debug, Clone, Copy, PartialEq, Eq, Structural)]
pub struct TickInput {
    /// Seconds since the recording started, pauses included.
    pub wall_secs: u64,
    pub paused: bool,
    /// A note is being typed, in the place of the status line.
    pub typing: bool,
    /// Both devices are below the level of sound.
    pub silent: bool,
    /// Bytes in the meeting's folder.
    pub bytes: u64,
}

/// A tick more, as far as the counter goes.
pub open spec fn one_tick_more(ms: u64) -> u64 {
    if ms + TICK_MS > u64::MAX {
        u64::MAX
    } else {
        (ms + TICK_MS) as u64
    }
}

/// The counters after a tick: time in pause adds up, and silence adds up while the
/// recording is running and is forgotten with any sound or pause. While a note is being
/// typed nothing is counted.
pub open spec fn ticked(c: DrawClock, i: TickInput) -> DrawClock {
    if i.typing {
        c
    } else {
        DrawClock {
            paused_ms: if i.paused {
                one_tick_more(c.paused_ms)
            } else {
                c.paused_ms
            },
            silent_ms: if i.silent && !i.paused {
                one_tick_more(c.silent_ms)
            } else {
                0
            },
        }
    }
}

/// The seconds that were recorded: those since the start without those in pause.
pub open spec fn recorded_secs(c: DrawClock, wall_secs: u64) -> u64 {
    let paused = c.paused_ms / 1000;
    if wall_secs >= paused {
        (wall_secs - paused) as u64
    } else {
        0
    }
}

/// The status line's state after a tick; it stands still while a note is being typed.
pub open spec fn drawn(p: PanelState, c: DrawClock, i: TickInput) -> PanelState {
    let c2 = ticked(c, i);
    let elapsed = recorded_secs(c2, i.wall_secs);
    if i.typing {
        p
    } else {
        PanelState {
            paused: i.paused,
            elapsed_secs: elapsed,
            pulse_on: elapsed % 2 == 0,
            bytes_written: if p.record_only {
                i.bytes
            } else {
                p.bytes_written
            },
            silent_secs: c2.silent_ms / 1000,
            ..p
        }
    }
}

/// Is the meeting's folder to be measured for the next tick? Only a recording without AI
/// shows how much it has written, and none does while a note is being typed.
pub fn measures_folder(record_only: bool, typing: bool) -> (r: bool)
    ensures
        r == (record_only && !typing),
{
    record_only && !typing
}

impl DrawClock {
    /// A recording that has just started.
    pub fn new() -> (r: DrawClock)
        ensures
            r == (DrawClock { silent_ms: 0, paused_ms: 0 }),
    {
        DrawClock { silent_ms: 0, paused_ms: 0 }
    }

    /// Brings the status line up to date, and says whether it is to be drawn: it is not while
    /// a note is being typed in its place. Levels, segments and the model are left as they
    /// are; they come with the sound and the transcripts.
    pub fn tick(&mut self, panel: &mut PanelState, input: TickInput) -> (draw: bool)
        ensures
            draw == !input.typing,
            *final(self) == ticked(*old(self), input),
            *final(panel) == drawn(*old(panel), *old(self), input),
    {
        if input.typing {
            return false;
        }
        if input.paused {
            self.paused_ms = self.paused_ms.saturating_add(TICK_MS);
        }
        panel.paused = input.paused;
        let elapsed = input.wall_secs.saturating_sub(self.paused_ms / 1000);
        panel.elapsed_secs = elapsed;
        panel.pulse_on = elapsed % 2 == 0;
        if panel.record_only {
            panel.bytes_written = input.bytes;
        }
        if input.silent && !input.paused {
            self.silent_ms = self.silent_ms.saturating_add(TICK_MS);
        } else {
            self.silent_ms = 0;
        }
        panel.silent_secs = self.silent_ms / 1000;
        true
    }
}

/// The counters after a number of equal ticks.
pub open spec fn ticked_n(c: DrawClock, paused: bool, silent: bool, n: nat) -> DrawClock
    decreases n,
{
    if n == 0 {
        c
    } else {
        ticked(
            ticked_n(c, paused, silent, (n - 1) as nat),
            TickInput { wall_secs: 0, paused, typing: false, silent, bytes: 0 },
        )
    }
}

proof fn lemma_paused_n(c: DrawClock, silent: bool, n: nat)
    requires
        c.paused_ms + n * 250 <= u64::MAX,
    ensures
        ticked_n(c, true, silent, n).paused_ms == c.paused_ms + n * 250,
    decreases n,
{
    if n > 0 {
        lemma_paused_n(c, silent, (n - 1) as nat);
    }
}

proof fn lemma_silent_n(c: DrawClock, n: nat)
    requires
        c.silent_ms + n * 250 <= u64::MAX,
    ensures
        ticked_n(c, false, true, n).silent_ms == c.silent_ms + n * 250,
    decreases n,
{
    if n > 0 {
        lemma_silent_n(c, (n - 1) as nat);
    }
}

/// While a recording is paused its clock stands still: four ticks of pause take one second
/// off, as much as has gone by.
pub proof fn law_pause_freezes_the_clock(c: DrawClock, wall_secs: u64, silent: bool, secs: nat)
    requires
        wall_secs + secs <= u64::MAX,
        c.paused_ms + secs * 1000 <= u64::MAX,
        c.paused_ms / 1000 <= wall_secs,
    ensures
        recorded_secs(
            ticked_n(c, true, silent, 4 * secs),
            (wall_secs + secs) as u64,
        ) == recorded_secs(c, wall_secs),
{
    lemma_paused_n(c, silent, 4 * secs);
}

/// A pause never raises the alarm of silence, and any sound silences it.
pub proof fn law_no_alarm_in_pause_or_sound(p: PanelState, c: DrawClock, i: TickInput)
    requires
        i.paused || !i.silent,
        !i.typing,
    ensures
        drawn(p, c, i).silent_secs == 0,
{
}

/// Typing a note leaves the status line alone: no tick changes it or what it counts.
pub proof fn law_typing_freezes_the_line(p: PanelState, c: DrawClock, i: TickInput)
    requires
        i.typing,
    ensures
        drawn(p, c, i) == p,
        ticked(c, i) == c,
{
}

/// Silence is counted in seconds: after `n` silent ticks since the last sound, `n / 4`.
pub proof fn law_silence_adds_up(c: DrawClock, n: nat)
    requires
        c.silent_ms == 0,
        n * 250 <= u64::MAX,
    ensures
        ticked_n(c, false, true, n).silent_ms / 1000 == n / 4,
{
    lemma_silent_n(c, n);
}

/// An override never writes an engine that is not known: what comes out is one of the two
/// engines or the configured one.
pub proof fn law_override_writes_known_engines(
    engine: Option<Seq<char>>,
    original: Option<EngineModel>,
)
    ensures
        ({
            let p = override_provider(engine, original);
            p == "localWhisper"@ || p == "parakeet"@ || (original matches Some(c) && p
                == c.provider@)
        }),
{
}

/// One entry of a folder, with its size in bytes.
#[derive(Debug, Clone, Copy, PartialEq, Eq, Structural)]
pub enum FolderEntry {
    /// A folder with all that is in it.
    Folder(u64),
    File(u64),
    /// Something else, or something that could not be read.
    Other,
}

/// What an entry adds to the size of its folder.
pub open spec fn entry_size(e: FolderEntry) -> u64 {
    match e {
        FolderEntry::Folder(n) => n,
        FolderEntry::File(n) => n,
        FolderEntry::Other => 0,
    }
}

/// The sizes of all entries together.
pub open spec fn entries_size(entries: Seq<FolderEntry>) -> nat
    decreases entries.len(),
{
    if entries.len() == 0 {
        0
    } else {
        entries_size(entries.drop_last()) + entry_size(entries.last()) as nat
    }
}

/// The size of a folder, as far as a counter goes.
pub open spec fn folder_size(entries: Seq<FolderEntry>) -> nat {
    if entries_size(entries) > u64::MAX {
        u64::MAX as nat
    } else {
        entries_size(entries)
    }
}

/// The size of a folder, as far as a counter goes.
pub fn dir_size_bytes(entries: &[FolderEntry]) -> (r: u64)
    ensures
        r == folder_size(entries@),
        r == if entries_size(entries@) > u64::MAX {
            u64::MAX as nat
        } else {
            entries_size(entries@)
        },
{
    let mut total: u64 = 0;
    let mut i: usize = 0;
    while i < entries.len()
        invariant
            i <= entries@.len(),
            total == if entries_size(entries@.take(i as int)) > u64::MAX {
                u64::MAX as nat
            } else {
                entries_size(entries@.take(i as int))
            },
        decreases entries@.len() - i,
    {
        proof {
            let now = entries@.take(i + 1);
            assert(now.drop_last() =~= entries@.take(i as int));
            assert(now.last() == entries@[i as int]);
        }
        match entries[i] {
            FolderEntry::Folder(n) => {
                total = total.saturating_add(n);
            },
            FolderEntry::File(n) => {
                total = total.saturating_add(n);
            },
            FolderEntry::Other => {},
        }
        i = i + 1;
    }
    proof {
        assert(entries@.take(entries@.len() as int) =~= entries@);
    }
    total
}

/// A name that is given is the meeting's name, even an empty one; otherwise the name tells when
/// the recording was made.
pub proof fn law_given_names_are_kept(name: Seq<char>, now: Seq<char>)
    ensures
        meeting_name(Some(name), now) == name,
        text::has(meeting_name(None, now), now),
        meeting_name(None, now).len() > now.len(),
{
    reveal_strlit("CLI Meeting ");
    assert("CLI Meeting "@ + now =~= "CLI Meeting "@ + now + Seq::empty());
    text::law_pieces_stand_in_the_whole("CLI Meeting "@, now, Seq::empty());
}

/// Whatever the configuration, an engine that is known and asked for is the one that is
/// written; only an unknown engine, of which there is a warning, or none keeps the configured
/// one, or Whisper where nothing is configured.
pub proof fn law_the_engine_asked_for_is_written(
    engine: Option<Seq<char>>,
    original: Option<EngineModel>,
)
    ensures
        engine == Some("parakeet"@) ==> override_provider(engine, original) == "parakeet"@
            && !asks_unknown_engine(engine),
        engine == Some("whisper"@) || engine == Some("localWhisper"@) ==> override_provider(
            engine,
            original,
        ) == "localWhisper"@ && !asks_unknown_engine(engine),
        engine is None || (engine->0 != "parakeet"@ && engine->0 != "whisper"@ && engine->0
            != "localWhisper"@) ==> override_provider(engine, original) == (match original {
            Some(c) => c.provider@,
            None => "localWhisper"@,
        }) && (asks_unknown_engine(engine) <==> engine is Some),
{
    reveal_strlit("parakeet");
    reveal_strlit("whisper");
    reveal_strlit("localWhisper");
    assert("parakeet"@.len() != "whisper"@.len());
    assert("parakeet"@.len() != "localWhisper"@.len());
}

/// A model that is asked for is the one that is written, whatever the configuration and the
/// engine; otherwise the configured one stays.
pub proof fn law_the_model_asked_for_is_written(model: Seq<char>, original: Option<EngineModel>)
    ensures
        override_model(Some(model), original) == model,
        original is Some ==> override_model(None, original) == original->0.model@,
        original is None ==> override_model(None, original).len() == 0,
{
}

/// The configuration is overridden if and only if an engine or a model is asked for and the
/// recording uses one at all.
pub proof fn law_when_the_configuration_is_overridden(a: RecordArgs)
    ensures
        a.record_only ==> !overrides_config(a),
        !a.record_only && a.engine is Some ==> overrides_config(a),
        !a.record_only && a.model is Some ==> overrides_config(a),
        a.engine is None && a.model is None ==> !overrides_config(a),
{
}

/// The label shows the engine and the model that are configured, the engine under the name
/// that people know; a recording without AI says so whatever is configured.
pub proof fn law_labels_show_engine_and_model(c: EngineModel)
    ensures
        engine_label_text(true, Some(c)) == engine_label_text(true, None),
        text::has(engine_label_text(false, Some(c)), c.model@),
        c.provider@ != "localWhisper"@ ==> engine_label_text(false, Some(c)) == c.provider@ + "/"@
            + c.model@,
        c.provider@ == "localWhisper"@ ==> engine_label_text(false, Some(c)) == "whisper/"@
            + c.model@,
{
    let engine = listing::engine_name(c.provider@);
    let label = engine_label_text(false, Some(c));
    assert(label =~= (engine + "/"@) + c.model@ + Seq::empty());
    text::law_pieces_stand_in_the_whole(engine + "/"@, c.model@, Seq::empty());
    reveal_strlit("whisper/");
    reveal_strlit("whisper");
    reveal_strlit("/");
    assert("whisper/"@ =~= "whisper"@ + "/"@);
}

/// The first line names the engine, what it computes with, both devices and the language, each
/// as it was given.
pub proof fn law_the_banner_names_everything(
    label: Seq<char>,
    accel: Seq<char>,
    mic: Seq<char>,
    system: Seq<char>,
    language: Seq<char>,
)
    ensures
        text::has(banner_text(label, accel, Some(mic), Some(system), Some(language)), label),
        text::has(
            banner_text(label, accel, Some(mic), Some(system), Some(language)),
            "["@ + accel + "]"@,
        ),
        text::has(
            banner_text(label, accel, Some(mic), Some(system), Some(language)),
            "Mic: "@ + mic,
        ),
        text::has(
            banner_text(label, accel, Some(mic), Some(system), Some(language)),
            "System: "@ + system,
        ),
        text::has(
            banner_text(label, accel, Some(mic), Some(system), Some(language)),
            "Language: "@ + language,
        ),
        banner_text(label, accel, None, None, Some(language)) == banner_text(
            label,
            accel,
            Some("default (OS)"@),
            Some("default (OS)"@),
            Some(language),
        ),
        banner_text(label, accel, Some(mic), Some(system), None).is_prefix_of(
            banner_text(label, accel, Some(mic), Some(system), Some(language)),
        ),
{
    let all = banner_text(label, accel, Some(mic), Some(system), Some(language));
    reveal_strlit(" [");
    reveal_strlit("[");
    reveal_strlit("]   ✓ Mic: ");
    reveal_strlit("]");
    reveal_strlit("Mic: ");
    reveal_strlit("   ✓ System: ");
    reveal_strlit("System: ");
    reveal_strlit("   ✓ Language: ");
    reveal_strlit("Language: ");
    let space = seq![' '];
    let gap = seq![' ', ' ', ' ', '✓', ' '];
    assert(" ["@ =~= space + "["@);
    assert("]   ✓ Mic: "@ =~= "]"@ + gap + "Mic: "@);
    assert("   ✓ System: "@ =~= gap + "System: "@);
    assert("   ✓ Language: "@ =~= gap + "Language: "@);
    let p1 = "✓ Engine: "@;
    let p2 = p1 + label + space;
    let accels = "["@ + accel + "]"@;
    let p3 = p2 + accels + gap;
    let mics = "Mic: "@ + mic;
    let p4 = p3 + mics + gap;
    let systems = "System: "@ + system;
    let p5 = p4 + systems + gap;
    let languages = "Language: "@ + language;
    assert(all =~= p5 + languages + Seq::empty());
    text::law_pieces_stand_in_the_whole(p5, languages, Seq::empty());
    assert(all =~= p4 + systems + (gap + languages));
    text::law_pieces_stand_in_the_whole(p4, systems, gap + languages);
    let t3 = gap + systems + gap + languages;
    assert(all =~= p3 + mics + t3);
    text::law_pieces_stand_in_the_whole(p3, mics, t3);
    let t2 = gap + mics + t3;
    assert(all =~= p2 + accels + t2);
    text::law_pieces_stand_in_the_whole(p2, accels, t2);
    let t1 = space + accels + t2;
    assert(all =~= p1 + label + t1);
    text::law_pieces_stand_in_the_whole(p1, label, t1);
    let short = banner_text(label, accel, Some(mic), Some(system), None);
    assert(short =~= all.subrange(0, short.len() as int));
}

/// What a tick shows: whether the recording is paused, the seconds recorded so far, a mark that
/// changes with every second, and for a recording without AI how much it has written. What
/// comes from elsewhere stays.
pub proof fn law_what_a_tick_shows(p: PanelState, c: DrawClock, i: TickInput)
    requires
        !i.typing,
    ensures
        drawn(p, c, i).paused == i.paused,
        drawn(p, c, i).elapsed_secs + ticked(c, i).paused_ms / 1000 == i.wall_secs || (drawn(
            p,
            c,
            i,
        ).elapsed_secs == 0 && i.wall_secs < ticked(c, i).paused_ms / 1000),
        drawn(p, c, i).pulse_on <==> drawn(p, c, i).elapsed_secs % 2 == 0,
        p.record_only ==> drawn(p, c, i).bytes_written == i.bytes,
        !p.record_only ==> drawn(p, c, i).bytes_written == p.bytes_written,
        drawn(p, c, i).record_only == p.record_only,
        drawn(p, c, i).segments == p.segments,
        drawn(p, c, i).engine_model == p.engine_model,
        drawn(p, c, i).mic_cells == p.mic_cells,
        drawn(p, c, i).system_cells == p.system_cells,
        drawn(p, c, i).bands == p.bands,
        !i.paused ==> ticked(c, i).paused_ms == c.paused_ms,
        i.paused && c.paused_ms + 250 <= u64::MAX ==> ticked(c, i).paused_ms == c.paused_ms + 250,
        i.silent && !i.paused && c.silent_ms + 250 <= u64::MAX ==> drawn(p, c, i).silent_secs == (
        c.silent_ms + 250) / 1000,
{
}

/// A folder is as large as its files and folders together: the sizes of two halves add up, a
/// file or a folder counts with its size, and what is neither does not count.
pub proof fn law_sizes_add_up(a: Seq<FolderEntry>, b: Seq<FolderEntry>, n: u64)
    ensures
        entries_size(a + b) == entries_size(a) + entries_size(b),
        folder_size(a + b) == if folder_size(a) + folder_size(b) > u64::MAX {
            u64::MAX as nat
        } else {
            folder_size(a) + folder_size(b)
        },
        folder_size(seq![FolderEntry::File(n)]) == n,
        folder_size(seq![FolderEntry::Folder(n)]) == n,
        folder_size(seq![FolderEntry::Other]) == 0,
        folder_size(Seq::empty()) == 0,
    decreases b.len(),
{
    lemma_one_entry(FolderEntry::File(n));
    lemma_one_entry(FolderEntry::Folder(n));
    lemma_one_entry(FolderEntry::Other);
    if b.len() == 0 {
        assert(a + b =~= a);
    } else {
        law_sizes_add_up(a, b.drop_last(), n);
        assert((a + b).drop_last() =~= a + b.drop_last());
        assert((a + b).last() == b.last());
    }
}

proof fn lemma_one_entry(e: FolderEntry)
    ensures
        entries_size(seq![e]) == entry_size(e),
{
    let one = seq![e];
    assert(one.drop_last() =~= Seq::<FolderEntry>::empty());
    assert(entries_size(one.drop_last()) == 0);
}

/// The status line leaves exactly the last column free, and is not cut where the width of the
/// terminal is not known.
pub proof fn law_the_last_column_stays_free(width: Option<u16>)
    ensures
        usable_columns(width) is None <==> width is None,
        width is Some && width->0 > 0 ==> usable_columns(width)->0 + 1 == width->0,
        width == Some(0u16) ==> usable_columns(width) == Some(0usize),
{
}

/// A binary without support for any card computes on the processor, and only such a one; each
/// of the others is named where it is the only one.
pub proof fn law_cards_come_before_the_processor(cuda: bool, vulkan: bool, metal: bool)
    ensures
        !cuda && !vulkan && !metal ==> computes_with(cuda, vulkan, metal) == "CPU"@,
        cuda ==> computes_with(cuda, vulkan, metal) == "CUDA"@,
        vulkan && !cuda ==> computes_with(cuda, vulkan, metal) == "Vulkan"@,
        metal && !cuda && !vulkan ==> computes_with(cuda, vulkan, metal) == "Metal"@,
{
}

} // verus!
