//! The keys that a recording listens to, and the notes typed while it runs.
use crate::text;
use vstd::prelude::*;

verus! {

broadcast use vstd::string::group_string_axioms;

/// What the keyboard asks of the recording.
#[derive(Debug, Clone, Copy, PartialEq, Eq, Structural)]
pub enum KeyCmd {
    /// Pause, or go on.
    TogglePause,
    /// End and save.
    Stop,
}

/// A key of the keyboard.
#[derive(Debug, Clone, Copy, PartialEq, Eq, Structural)]
pub enum Key {
    Char(char),
    Enter,
    Esc,
    Backspace,
    Other,
}

/// A key that went down or up, with or without the control key.
#[derive(Debug, Clone, Copy, PartialEq, Eq, Structural)]
pub struct KeyEvent {
    pub key: Key,
    pub ctrl: bool,
    /// The key went down; some systems report its going up too.
    pub pressed: bool,
}

/// What a key leads to.
#[derive(Debug, Clone, Copy, PartialEq, Eq, Structural)]
pub enum KeyEffect {
    Nothing,
    /// Hand the command on; after a stop no more keys are read.
    Send(KeyCmd),
    /// Show the prompt for a note.
    PromptForNote,
    /// Show the character that was typed.
    Echo(char),
    /// Take the last character off the screen.
    EraseLast,
    /// The note ended; it was added to the notes or not, and the recording ends or goes on.
    NoteEnded { saved: bool, stop: bool },
}

/// Milliseconds that one look for a key lasts.
pub const KEY_WAIT_MS: u64 = 200;

/// What comes of looking for a key.
#[derive(Debug, Clone, Copy, PartialEq, Eq, Structural)]
pub enum KeyInput {
    /// Before anything was read: the recording has ended by itself.
    StopAsked,
    /// Nothing in time, or nothing that is a key.
    Nothing,
    Key(KeyEvent),
    /// Something came and could not be read.
    ReadFailed,
    /// The keyboard cannot be asked.
    PollFailed,
}

/// What looking for a key leads to, and whether it was the last time.
#[derive(Debug, Clone, Copy, PartialEq, Eq, Structural)]
pub struct KeyStep {
    pub effect: KeyEffect,
    pub done: bool,
}

/// What reading keys depends on: the note being typed, if there is one, and the notes.
pub struct Typing {
    pub note: Option<Seq<char>>,
    pub notes: Seq<char>,
}

/// The keyboard of a running recording.
#[derive(Debug, Clone)]
pub struct Keyboard {
    /// The note being typed.
    pub note: Option<String>,
    /// The notes so far, one to a line.
    pub notes: String,
}

impl View for Keyboard {
    type V = Typing;

    open spec fn view(&self) -> Typing {
        Typing { note: text::opt_text(self.note), notes: self.notes@ }
    }
}

/// The notes with a line more; a blank line adds nothing.
pub open spec fn with_note(notes: Seq<char>, note: Seq<char>) -> Seq<char> {
    if text::is_blank(note) {
        notes
    } else if notes.len() == 0 {
        text::trimmed(note)
    } else {
        notes + "\n"@ + text::trimmed(note)
    }
}

/// The notes that are saved with the meeting, if there are any.
pub open spec fn notes_kept(notes: Seq<char>) -> Option<Seq<char>> {
    if text::is_blank(notes) {
        None
    } else {
        Some(text::trimmed(notes))
    }
}

/// The note is over and goes to the notes.
pub open spec fn note_ended(t: Typing) -> Typing {
    match t.note {
        Some(note) => Typing { note: None, notes: with_note(t.notes, note) },
        None => t,
    }
}

/// The note is dropped.
pub open spec fn note_dropped(t: Typing) -> Typing {
    Typing { note: None, ..t }
}

/// What a key does to the note and the notes.
pub open spec fn typed(t: Typing, e: KeyEvent) -> Typing {
    if !e.pressed {
        t
    } else {
        match (t.note, e.key) {
            (None, Key::Char(c)) => if (c == 'n' || c == 'N') && !e.ctrl {
                Typing { note: Some(Seq::empty()), ..t }
            } else {
                t
            },
            (None, _) => t,
            (Some(_), Key::Enter) => note_ended(t),
            (Some(_), Key::Esc) => note_dropped(t),
            (Some(note), Key::Backspace) => if note.len() > 0 {
                Typing { note: Some(note.drop_last()), ..t }
            } else {
                t
            },
            (Some(note), Key::Char(c)) => if c == 'c' && e.ctrl {
                note_ended(t)
            } else if !e.ctrl {
                Typing { note: Some(note.push(c)), ..t }
            } else {
                t
            },
            (Some(_), Key::Other) => t,
        }
    }
}

/// What a key leads to.
pub open spec fn key_effect(t: Typing, e: KeyEvent) -> KeyEffect {
    if !e.pressed {
        KeyEffect::Nothing
    } else {
        match (t.note, e.key) {
            (None, Key::Char(c)) => if c == 'c' && e.ctrl {
                KeyEffect::Send(KeyCmd::Stop)
            } else if (c == 'p' || c == 'P') && !e.ctrl {
                KeyEffect::Send(KeyCmd::TogglePause)
            } else if (c == 'q' || c == 'Q') && !e.ctrl {
                KeyEffect::Send(KeyCmd::Stop)
            } else if (c == 'n' || c == 'N') && !e.ctrl {
                KeyEffect::PromptForNote
            } else {
                KeyEffect::Nothing
            },
            (None, _) => KeyEffect::Nothing,
            (Some(note), Key::Enter) => KeyEffect::NoteEnded {
                saved: !text::is_blank(note),
                stop: false,
            },
            (Some(_), Key::Esc) => KeyEffect::NoteEnded { saved: false, stop: false },
            (Some(note), Key::Backspace) => if note.len() > 0 {
                KeyEffect::EraseLast
            } else {
                KeyEffect::Nothing
            },
            (Some(note), Key::Char(c)) => if c == 'c' && e.ctrl {
                KeyEffect::NoteEnded { saved: !text::is_blank(note), stop: true }
            } else if !e.ctrl {
                KeyEffect::Echo(c)
            } else {
                KeyEffect::Nothing
            },
            (Some(_), Key::Other) => KeyEffect::Nothing,
        }
    }
}

/// The command that an effect hands on.
pub open spec fn command_of(effect: KeyEffect) -> Option<KeyCmd> {
    match effect {
        KeyEffect::Send(command) => Some(command),
        KeyEffect::NoteEnded { stop, .. } => if stop {
            Some(KeyCmd::Stop)
        } else {
            None
        },
        _ => None,
    }
}

/// The note and the notes after looking for a key. A keyboard that fails ends the note as it
/// stands; the end of the recording drops it.
pub open spec fn input_taken(t: Typing, i: KeyInput) -> Typing {
    match i {
        KeyInput::StopAsked => note_dropped(t),
        KeyInput::Nothing => t,
        KeyInput::Key(e) => typed(t, e),
        KeyInput::ReadFailed => note_ended(t),
        KeyInput::PollFailed => note_ended(t),
    }
}

/// What looking for a key leads to. No more keys are read once the recording is to end, or
/// once the keyboard cannot be asked and no note is left to end.
pub open spec fn input_step(t: Typing, i: KeyInput) -> KeyStep {
    let over = match t.note {
        Some(note) => KeyEffect::NoteEnded { saved: !text::is_blank(note), stop: false },
        None => KeyEffect::Nothing,
    };
    match i {
        KeyInput::StopAsked => KeyStep {
            effect: if t.note is Some {
                KeyEffect::NoteEnded { saved: false, stop: false }
            } else {
                KeyEffect::Nothing
            },
            done: true,
        },
        KeyInput::Nothing => KeyStep { effect: KeyEffect::Nothing, done: false },
        KeyInput::Key(e) => KeyStep {
            effect: key_effect(t, e),
            done: command_of(key_effect(t, e)) == Some(KeyCmd::Stop),
        },
        KeyInput::ReadFailed => KeyStep { effect: over, done: false },
        KeyInput::PollFailed => KeyStep { effect: over, done: t.note is None },
    }
}

/// The command that an effect hands on to the recording.
pub fn command_to_send(effect: KeyEffect) -> (r: Option<KeyCmd>)
    ensures
        r == command_of(effect),
{
    match effect {
        KeyEffect::Send(command) => Some(command),
        KeyEffect::NoteEnded { stop, .. } => if stop {
            Some(KeyCmd::Stop)
        } else {
            None
        },
        _ => None,
    }
}

/// The text that an effect puts on the screen.
pub open spec fn effect_shown(effect: KeyEffect) -> Seq<char> {
    match effect {
        KeyEffect::PromptForNote => "\r\x1b[Knote> "@,
        KeyEffect::Echo(c) => seq![c],
        KeyEffect::EraseLast => "\u{8} \u{8}"@,
        KeyEffect::NoteEnded { saved, .. } => if saved {
            "\r\x1b[Knote saved\r\n"@
        } else {
            "\r\x1b[K"@
        },
        _ => Seq::<char>::empty(),
    }
}

/// What an effect puts on the screen.
pub fn effect_text(effect: KeyEffect) -> (r: String)
    ensures
        r@ == match effect {
            KeyEffect::PromptForNote => "\r\x1b[Knote> "@,
            KeyEffect::Echo(c) => seq![c],
            KeyEffect::EraseLast => "\u{8} \u{8}"@,
            KeyEffect::NoteEnded { saved, .. } => if saved {
                "\r\x1b[Knote saved\r\n"@
            } else {
                "\r\x1b[K"@
            },
            _ => Seq::<char>::empty(),
        },
        r@ == effect_shown(effect),
{
    match effect {
        KeyEffect::PromptForNote => "\r\x1b[Knote> ".to_owned(),
        KeyEffect::Echo(c) => {
            let mut out = String::new();
            out.push(c);
            proof {
                assert(out@ =~= seq![c]);
            }
            out
        },
        KeyEffect::EraseLast => "\u{8} \u{8}".to_owned(),
        KeyEffect::NoteEnded { saved, .. } => if saved {
            "\r\x1b[Knote saved\r\n".to_owned()
        } else {
            "\r\x1b[K".to_owned()
        },
        _ => String::new(),
    }
}

fn without_last(s: &str) -> (r: String)
    requires
        s@.len() > 0,
    ensures
        r@ == s@.drop_last(),
{
    let n = s.unicode_len();
    let r = s.substring_char(0, n - 1).to_owned();
    proof {
        assert(r@ =~= s@.drop_last());
    }
    r
}

/// Adds a note to the notes as a line of its own; a blank one adds nothing.
pub fn append_note(notes: &mut String, note: &str) -> (saved: bool)
    ensures
        saved == !text::is_blank(note@),
        final(notes)@ == with_note(old(notes)@, note@),
{
    let line = text::trim(note);
    if line.is_empty() {
        return false;
    }
    if !notes.as_str().is_empty() {
        notes.append("\n");
    }
    notes.append(line);
    proof {
        assert(final(notes)@ =~= with_note(old(notes)@, note@));
    }
    true
}

impl Keyboard {
    /// A keyboard with the notes that the command line brought.
    pub fn new(notes: Option<String>) -> (r: Keyboard)
        ensures
            r@.note is None,
            r@.notes == text::text_or(text::opt_text(notes), Seq::empty()),
    {
        Keyboard {
            note: None,
            notes: match notes {
                Some(n) => n,
                None => String::new(),
            },
        }
    }

    /// Takes one key.
    pub fn on_key(&mut self, e: KeyEvent) -> (effect: KeyEffect)
        ensures
            final(self)@ == typed(old(self)@, e),
            effect == key_effect(old(self)@, e),
    {
        if !e.pressed {
            return KeyEffect::Nothing;
        }
        match &self.note {
            None => match e.key {
                Key::Char(c) => {
                    if c == 'c' && e.ctrl {
                        return KeyEffect::Send(KeyCmd::Stop);
                    }
                    if e.ctrl {
                        return KeyEffect::Nothing;
                    }
                    match c {
                        'p' | 'P' => KeyEffect::Send(KeyCmd::TogglePause),
                        'q' | 'Q' => KeyEffect::Send(KeyCmd::Stop),
                        'n' | 'N' => {
                            self.note = Some(String::new());
                            KeyEffect::PromptForNote
                        },
                        _ => KeyEffect::Nothing,
                    }
                },
                _ => KeyEffect::Nothing,
            },
            Some(note) => match e.key {
                Key::Enter => self.end_note(false),
                Key::Esc => {
                    self.note = None;
                    KeyEffect::NoteEnded { saved: false, stop: false }
                },
                Key::Backspace => {
                    if note.as_str().is_empty() {
                        return KeyEffect::Nothing;
                    }
                    self.note = Some(without_last(note.as_str()));
                    KeyEffect::EraseLast
                },
                Key::Char(c) => {
                    if c == 'c' && e.ctrl {
                        return self.end_note(true);
                    }
                    if e.ctrl {
                        return KeyEffect::Nothing;
                    }
                    let mut longer = note.clone();
                    longer.push(c);
                    self.note = Some(longer);
                    KeyEffect::Echo(c)
                },
                Key::Other => KeyEffect::Nothing,
            },
        }
    }

    /// Ends the note that is being typed, if there is one, as when the keyboard fails.
    pub fn end_note(&mut self, stop: bool) -> (effect: KeyEffect)
        ensures
            final(self)@ == note_ended(old(self)@),
            effect == match old(self)@.note {
                Some(note) => KeyEffect::NoteEnded { saved: !text::is_blank(note), stop },
                None => KeyEffect::Nothing,
            },
    {
        match &self.note {
            Some(note) => {
                let saved = append_note(&mut self.notes, note.as_str());
                self.note = None;
                KeyEffect::NoteEnded { saved, stop }
            },
            None => KeyEffect::Nothing,
        }
    }

    /// Drops the note that is being typed, as when the recording ends by itself.
    pub fn abandon_note(&mut self)
        ensures
            final(self)@ == note_dropped(old(self)@),
    {
        self.note = None;
    }

    /// Takes what came of looking for a key.
    pub fn on_input(&mut self, input: KeyInput) -> (r: KeyStep)
        ensures
            final(self)@ == input_taken(old(self)@, input),
            r == input_step(old(self)@, input),
    {
        match input {
            KeyInput::StopAsked => {
                let effect = if self.note.is_some() {
                    KeyEffect::NoteEnded { saved: false, stop: false }
                } else {
                    KeyEffect::Nothing
                };
                self.abandon_note();
                KeyStep { effect, done: true }
            },
            KeyInput::Nothing => KeyStep { effect: KeyEffect::Nothing, done: false },
            KeyInput::Key(e) => {
                let effect = self.on_key(e);
                KeyStep { effect, done: command_to_send(effect) == Some(KeyCmd::Stop) }
            },
            KeyInput::ReadFailed => KeyStep { effect: self.end_note(false), done: false },
            KeyInput::PollFailed => {
                let done = self.note.is_none();
                KeyStep { effect: self.end_note(false), done }
            },
        }
    }

    /// The notes to save with the meeting: without white space around, and none where
    /// nothing is left.
    pub fn notes_to_save(&self) -> (r: Option<String>)
        ensures
            text::opt_text(r) == notes_kept(self@.notes),
            text::opt_text(r) == if text::is_blank(self@.notes) {
                None
            } else {
                Some(text::trimmed(self@.notes))
            },
    {
        let t = text::trim(self.notes.as_str());
        if t.is_empty() {
            None
        } else {
            Some(t.to_owned())
        }
    }
}

/// Is the recording paused after an attempt to pause it or to go on? A failed attempt
/// changes nothing.
pub fn toggle_pause(paused: bool, succeeded: bool) -> (r: bool)
    ensures
        r == (paused != succeeded),
{
    if succeeded {
        !paused
    } else {
        paused
    }
}

/// While a note is being typed no key but the control key with `c` ends the recording, and
/// none pauses it.
pub proof fn law_typing_does_not_control_the_recording(t: Typing, e: KeyEvent)
    requires
        t.note is Some,
    ensures
        !(key_effect(t, e) is Send),
        (key_effect(t, e) matches KeyEffect::NoteEnded { stop, .. } && stop) ==> e.key
            == Key::Char('c') && e.ctrl,
{
}

/// A recording that ends by itself ends the reading of keys at once, with a note half typed
/// or without; the note is dropped and nothing is asked of the recording.
pub proof fn law_the_end_of_the_recording_ends_the_reading(t: Typing)
    ensures
        input_step(t, KeyInput::StopAsked).done,
        command_of(input_step(t, KeyInput::StopAsked).effect) is None,
        input_taken(t, KeyInput::StopAsked).note is None,
        input_taken(t, KeyInput::StopAsked).notes == t.notes,
{
}

/// Whatever is asked of the recording before reading ends is not its end: a stop is the last
/// thing that the keyboard asks for.
pub proof fn law_a_stop_is_the_last_command(t: Typing, i: KeyInput)
    ensures
        command_of(input_step(t, i).effect) == Some(KeyCmd::Stop) ==> input_step(t, i).done,
{
}

/// Notes are only ever added to: what was noted stays at the start.
pub proof fn law_notes_only_grow(t: Typing, e: KeyEvent)
    ensures
        t.notes.is_prefix_of(typed(t, e).notes),
{
    let after = typed(t, e).notes;
    assert(t.notes =~= after.subrange(0, t.notes.len() as int));
}

/// A character that is typed and taken back leaves the note as it was.
pub proof fn law_backspace_undoes_a_character(t: Typing, c: char)
    requires
        t.note is Some,
    ensures
        ({
            let key = KeyEvent { key: Key::Char(c), ctrl: false, pressed: true };
            let back = KeyEvent { key: Key::Backspace, ctrl: false, pressed: true };
            typed(typed(t, key), back) == t
        }),
{
    assert(t.note->0.push(c).drop_last() =~= t.note->0);
}

/// What is known after characters are typed one after the other.
pub open spec fn typed_text(t: Typing, s: Seq<char>) -> Typing
    decreases s.len(),
{
    if s.len() == 0 {
        t
    } else {
        typed(
            typed_text(t, s.drop_last()),
            KeyEvent { key: Key::Char(s.last()), ctrl: false, pressed: true },
        )
    }
}

proof fn lemma_typed_text(t: Typing, s: Seq<char>)
    requires
        t.note is Some,
    ensures
        typed_text(t, s) == (Typing { note: Some(t.note->0 + s), ..t }),
    decreases s.len(),
{
    if s.len() > 0 {
        lemma_typed_text(t, s.drop_last());
        assert(t.note->0 + s =~= (t.note->0 + s.drop_last()).push(s.last()));
    } else {
        assert(t.note->0 + s =~= t.note->0);
    }
}

/// A note is what was typed, whatever characters it is made of: with `n` it begins, with Enter it
/// becomes a line of the notes, behind those that are there, without white space around it. The
/// escape key drops it, and a blank one adds nothing.
pub proof fn law_typed_notes_are_kept(t: Typing, s: Seq<char>)
    requires
        t.note is None,
    ensures
        ({
            let begin = KeyEvent { key: Key::Char('n'), ctrl: false, pressed: true };
            let enter = KeyEvent { key: Key::Enter, ctrl: false, pressed: true };
            let escape = KeyEvent { key: Key::Esc, ctrl: false, pressed: true };
            let written = typed_text(typed(t, begin), s);
            &&& written.note == Some(s)
            &&& typed(written, enter).note is None
            &&& typed(written, enter).notes == if text::trimmed(s).len() == 0 {
                t.notes
            } else if t.notes.len() == 0 {
                text::trimmed(s)
            } else {
                t.notes + seq!['\n'] + text::trimmed(s)
            }
            &&& typed(written, escape).notes == t.notes && typed(written, escape).note is None
            &&& key_effect(written, enter) == (KeyEffect::NoteEnded {
                saved: text::trimmed(s).len() > 0,
                stop: false,
            })
        }),
{
    let begin = KeyEvent { key: Key::Char('n'), ctrl: false, pressed: true };
    lemma_typed_text(typed(t, begin), s);
    assert(Seq::<char>::empty() + s =~= s);
    reveal_strlit("\n");
    assert("\n"@ =~= seq!['\n']);
}

/// What each key does while no note is typed: `p` pauses or goes on, `q` and the control key
/// with `c` end the recording, `n` begins a note, in either case of the letter; no other key and
/// no key that goes up does anything.
pub proof fn law_what_each_key_does(t: Typing, e: KeyEvent)
    requires
        t.note is None,
    ensures
        key_effect(t, e) == KeyEffect::Send(KeyCmd::Stop) <==> e.pressed && ((e.key == Key::Char(
            'c',
        ) && e.ctrl) || ((e.key == Key::Char('q') || e.key == Key::Char('Q')) && !e.ctrl)),
        key_effect(t, e) == KeyEffect::Send(KeyCmd::TogglePause) <==> e.pressed && !e.ctrl && (e.key
            == Key::Char('p') || e.key == Key::Char('P')),
        key_effect(t, e) == KeyEffect::PromptForNote <==> e.pressed && !e.ctrl && (e.key
            == Key::Char('n') || e.key == Key::Char('N')),
        key_effect(t, e) is Nothing <==> !(key_effect(t, e) is Send) && !(key_effect(
            t,
            e,
        ) is PromptForNote),
        typed(t, e).notes == t.notes,
        typed(t, e).note is Some <==> key_effect(t, e) is PromptForNote,
{
}

/// A recording that is ended while a note is typed keeps the note: the control key with `c` ends
/// both, and so does a keyboard that fails keep what was typed so far.
pub proof fn law_notes_survive_an_abrupt_end(t: Typing, note: Seq<char>)
    requires
        t.note == Some(note),
    ensures
        ({
            let stop = KeyEvent { key: Key::Char('c'), ctrl: true, pressed: true };
            let enter = KeyEvent { key: Key::Enter, ctrl: false, pressed: true };
            &&& typed(t, stop) == typed(t, enter)
            &&& input_taken(t, KeyInput::ReadFailed) == typed(t, enter)
            &&& input_taken(t, KeyInput::PollFailed) == typed(t, enter)
            &&& command_of(key_effect(t, stop)) == Some(KeyCmd::Stop)
            &&& input_step(t, KeyInput::Key(stop)).done
            &&& !input_step(t, KeyInput::Key(enter)).done
            &&& input_taken(t, KeyInput::Nothing) == t
        }),
{
}

/// All notes are saved with the meeting, without white space around them; only if nothing but
/// white space was noted is there nothing to save.
pub proof fn law_all_notes_are_saved(before: Seq<char>, notes: Seq<char>, after: Seq<char>)
    requires
        forall|i: int| 0 <= i < before.len() ==> text::is_white_space(#[trigger] before[i]),
        forall|i: int| 0 <= i < after.len() ==> text::is_white_space(#[trigger] after[i]),
        notes.len() > 0 ==> !text::is_white_space(notes[0]) && !text::is_white_space(
            notes[notes.len() - 1],
        ),
    ensures
        notes_kept(before + notes + after) == if notes.len() == 0 {
            None::<Seq<char>>
        } else {
            Some(notes)
        },
{
    text::law_trimming_takes_only_white_space(before, notes, after);
}

/// The screen shows the characters that are typed, one for one, and erases one for each that
/// is taken back: the cursor goes back, over the character, and back again. Commands show
/// nothing.
pub proof fn law_the_screen_shows_what_is_typed(effect: KeyEffect)
    ensures
        effect is Echo ==> effect_shown(effect) == seq![effect->Echo_0],
        effect is EraseLast ==> effect_shown(effect) == seq!['\u{8}', ' ', '\u{8}'],
        effect is NoteEnded ==> (text::has(effect_shown(effect), "note saved"@)
            <==> effect->saved),
        command_of(effect) is Some && effect !is NoteEnded ==> effect_shown(effect).len() == 0,
{
    reveal_strlit("\u{8} \u{8}");
    assert("\u{8} \u{8}"@ =~= seq!['\u{8}', ' ', '\u{8}']);
    reveal_strlit("\r\x1b[Knote saved\r\n");
    reveal_strlit("\r\x1b[K");
    reveal_strlit("note saved");
    if effect is NoteEnded {
        let shown = effect_shown(effect);
        if effect->saved {
            assert(shown.subrange(4, 14) =~= "note saved"@);
            assert(text::stands_at(shown, "note saved"@, 4));
        } else {
            assert forall|at: int| !(#[trigger] text::stands_at(shown, "note saved"@, at)) by {
                assert(shown.len() < "note saved"@.len());
            }
        }
    }
}

/// What breaks in on a note is said if and only if there is one, and it is called saved if and
/// only if the notes have grown by it. A keyboard that fails is asked again while a note was
/// open; a single key that could not be read does not end the reading; and where no key was
/// pressed nothing happens.
pub proof fn law_interrupted_notes_are_accounted_for(t: Typing, i: KeyInput)
    requires
        i is StopAsked || i is ReadFailed || i is PollFailed || i is Nothing,
    ensures
        i is Nothing ==> input_taken(t, i) == t && input_step(t, i).effect is Nothing,
        i !is Nothing ==> input_taken(t, i).note is None,
        i !is Nothing ==> (input_step(t, i).effect is NoteEnded <==> t.note is Some),
        input_step(t, i).effect is NoteEnded || input_step(t, i).effect is Nothing,
        input_step(t, i).effect is NoteEnded ==> (input_step(t, i).effect->saved
            <==> input_taken(t, i).notes != t.notes),
        input_step(t, i).done <==> i is StopAsked || (i is PollFailed && t.note is None),
{
    if t.note is Some && !text::is_blank(t.note->0) {
        let grown = with_note(t.notes, t.note->0);
        assert(grown.len() > t.notes.len());
    }
}

} // verus!
