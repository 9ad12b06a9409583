//! The live status line of the recorder, rendered as one line of text.
use crate::text;
use vstd::prelude::*;

verus! {

broadcast use vstd::string::group_string_axioms;

/// What the status line shows.
///
/// Sound levels come as the number of lit cells: four cells for each of the two
/// meters, and eight heights, counted from zero, for each band of the equalizer.
#[derive(Debug, Clone)]
pub struct PanelState {
    pub elapsed_secs: u64,
    /// Lit cells of the microphone meter.
    pub mic_cells: u8,
    /// Lit cells of the system audio meter.
    pub system_cells: u8,
    /// Heights of the bass, mid and treble bars.
    pub bands: [u8; 3],
    pub segments: u64,
    pub engine_model: String,
    pub record_only: bool,
    pub bytes_written: u64,
    pub silent_secs: u64,
    pub pulse_on: bool,
    /// Recording is paused: `⏸ PAUSED` takes the place of `● REC`.
    pub paused: bool,
}

impl Default for PanelState {
    fn default() -> (s: PanelState)
        ensures
            s.elapsed_secs == 0 && s.segments == 0 && s.bytes_written == 0 && s.silent_secs == 0,
            s.mic_cells == 0 && s.system_cells == 0 && s.bands@ == seq![0u8, 0u8, 0u8],
            s.engine_model@ == Seq::<char>::empty(),
            !s.record_only && !s.pulse_on && !s.paused,
    {
        PanelState {
            elapsed_secs: 0,
            mic_cells: 0,
            system_cells: 0,
            bands: [0, 0, 0],
            segments: 0,
            engine_model: String::new(),
            record_only: false,
            bytes_written: 0,
            silent_secs: 0,
            pulse_on: false,
            paused: false,
        }
    }
}

/// The equalizer bar of a height; heights above the tallest bar show the tallest.
pub open spec fn bar_char(height: u8) -> char {
    if height == 0 {
        '▁'
    } else if height == 1 {
        '▂'
    } else if height == 2 {
        '▃'
    } else if height == 3 {
        '▄'
    } else if height == 4 {
        '▅'
    } else if height == 5 {
        '▆'
    } else if height == 6 {
        '▇'
    } else {
        '█'
    }
}

fn bar(height: u8) -> (c: char)
    ensures
        c == bar_char(height),
{
    match height {
        0 => '▁',
        1 => '▂',
        2 => '▃',
        3 => '▄',
        4 => '▅',
        5 => '▆',
        6 => '▇',
        _ => '█',
    }
}

/// A meter of `width` cells, the first `lit` of them lit.
pub open spec fn meter_text(lit: nat, width: nat) -> Seq<char> {
    Seq::new(
        width,
        |i: int|
            if i < lit {
                '▮'
            } else {
                '▯'
            },
    )
}

fn push_meter(out: &mut String, lit: u8, width: u8)
    ensures
        final(out)@ == old(out)@ + meter_text(lit as nat, width as nat),
{
    let mut i: u8 = 0;
    while i < width
        invariant
            i <= width,
            out@ == old(out)@ + meter_text(lit as nat, width as nat).take(i as int),
        decreases width - i,
    {
        let ghost before = out@;
        if i < lit {
            out.push('▮');
        } else {
            out.push('▯');
        }
        proof {
            let m = meter_text(lit as nat, width as nat);
            assert(m.take(i + 1) =~= m.take(i as int).push(m[i as int]));
            assert(out@ =~= old(out)@ + m.take(i + 1));
        }
        i = i + 1;
    }
    proof {
        let m = meter_text(lit as nat, width as nat);
        assert(m.take(width as int) =~= m);
    }
}

/// At least two digits.
pub open spec fn two_digits(n: nat) -> Seq<char> {
    if n < 10 {
        seq!['0'] + text::decimal(n)
    } else {
        text::decimal(n)
    }
}

/// Seconds as hours, minutes and seconds.
pub open spec fn clock(secs: nat) -> Seq<char> {
    two_digits(secs / 3600) + seq![':'] + two_digits((secs % 3600) / 60) + seq![':'] + two_digits(
        secs % 60,
    )
}

fn push_two_digits(out: &mut String, n: u64)
    ensures
        final(out)@ == old(out)@ + two_digits(n as nat),
{
    if n < 10 {
        out.push('0');
    }
    text::push_decimal(out, n);
    proof {
        assert(final(out)@ =~= old(out)@ + two_digits(n as nat));
    }
}

/// Seconds as `hh:mm:ss`; from a hundred hours on, the hours take more digits.
pub fn hhmmss(secs: u64) -> (r: String)
    ensures
        r@ == clock(secs as nat),
{
    let mut out = String::new();
    push_two_digits(&mut out, secs / 3600);
    out.push(':');
    push_two_digits(&mut out, (secs % 3600) / 60);
    out.push(':');
    push_two_digits(&mut out, secs % 60);
    proof {
        assert(out@ =~= clock(secs as nat));
    }
    out
}

/// `n / d` rounded to the nearest integer, a tie to the even one.
pub open spec fn half_even(n: nat, d: nat) -> nat {
    let q = n / d;
    let r = n % d;
    if 2 * r > d || (2 * r == d && q % 2 == 1) {
        q + 1
    } else {
        q
    }
}

fn div_half_even(n: u128, d: u128) -> (q: u128)
    requires
        0 < d < 0x1_0000_0000_0000_0000,
        n < 0x1_0000_0000_0000_0000_0000,
    ensures
        q == half_even(n as nat, d as nat),
{
    let q: u128 = n / d;
    let r: u128 = n % d;
    proof {
        assert(q <= n) by (nonlinear_arith)
            requires
                q == n / d,
                d > 0,
        ;
    }
    if 2 * r > d || (2 * r == d && q % 2 == 1) {
        q + 1
    } else {
        q
    }
}

/// The size of one unit in the last place of a double precision number `n`:
/// the smallest power of two that leaves at most 53 binary digits.
pub open spec fn last_place(n: nat, unit: nat) -> nat
    decreases n - unit,
{
    if unit > 0 && unit * 0x20_0000_0000_0000 <= n {
        last_place(n, 2 * unit)
    } else {
        unit
    }
}

/// The double precision number nearest to the integer, a tie going to the even one.
pub open spec fn nearest_double(n: nat) -> nat {
    let unit = last_place(n, 1);
    half_even(n, unit) * unit
}

proof fn lemma_last_place(n: nat, unit: nat)
    requires
        n < 0x1_0000_0000_0000_0000,
        unit == 1 || unit == 2 || unit == 4 || unit == 8 || unit == 16 || unit == 32 || unit == 64
            || unit == 128 || unit == 256 || unit == 512 || unit == 1024 || unit == 2048,
    ensures
        ({
            let u = last_place(n, unit);
            u == 1 || u == 2 || u == 4 || u == 8 || u == 16 || u == 32 || u == 64 || u == 128 || u
                == 256 || u == 512 || u == 1024 || u == 2048
        }),
    decreases 2048 - unit,
{
    if unit * 0x20_0000_0000_0000 <= n {
        lemma_last_place(n, 2 * unit);
    }
}

proof fn lemma_double_bound(n: nat)
    requires
        n < 0x1_0000_0000_0000_0000,
    ensures
        nearest_double(n) <= 0x1_0000_0000_0000_0000,
{
    lemma_last_place(n, 1);
    let u = last_place(n, 1);
    let q = n / u;
    assert(half_even(n, u) <= q + 1);
    let whole: nat = if u == 1 {
        0x1_0000_0000_0000_0000
    } else if u == 2 {
        0x8000_0000_0000_0000
    } else if u == 4 {
        0x4000_0000_0000_0000
    } else if u == 8 {
        0x2000_0000_0000_0000
    } else if u == 16 {
        0x1000_0000_0000_0000
    } else if u == 32 {
        0x800_0000_0000_0000
    } else if u == 64 {
        0x400_0000_0000_0000
    } else if u == 128 {
        0x200_0000_0000_0000
    } else if u == 256 {
        0x100_0000_0000_0000
    } else if u == 512 {
        0x80_0000_0000_0000
    } else if u == 1024 {
        0x40_0000_0000_0000
    } else {
        0x20_0000_0000_0000
    };
    assert(whole * u == 0x1_0000_0000_0000_0000);
    assert((q + 1) * u <= whole * u) by (nonlinear_arith)
        requires
            q == n / u,
            n < whole * u,
            u > 0,
    ;
    assert(half_even(n, u) * u <= (q + 1) * u) by (nonlinear_arith)
        requires
            half_even(n, u) <= q + 1,
            u > 0,
    ;
}

fn to_double(n: u64) -> (r: u128)
    ensures
        r == nearest_double(n as nat),
        r <= 0x1_0000_0000_0000_0000,
{
    let mut unit: u128 = 1;
    while unit * 0x20_0000_0000_0000 <= n as u128
        invariant
            1 <= unit <= 0x1000,
            last_place(n as nat, 1) == last_place(n as nat, unit as nat),
        decreases 0x1000 - unit,
    {
        unit = 2 * unit;
    }
    let q = div_half_even(n as u128, unit);
    proof {
        lemma_double_bound(n as nat);
    }
    q * unit
}

/// Tenths of a mebibyte, as `bytes / 1048576` prints with one decimal: the byte
/// count is taken as a double precision number, and a tie goes to the even tenth.
pub open spec fn mb_tenths(bytes: nat) -> nat {
    half_even(nearest_double(bytes) * 10, 1048576)
}

/// Mebibytes with one decimal.
pub open spec fn megabytes(bytes: nat) -> Seq<char> {
    text::decimal(mb_tenths(bytes) / 10) + seq!['.'] + text::decimal(mb_tenths(bytes) % 10)
}

fn push_megabytes(out: &mut String, bytes: u64)
    ensures
        final(out)@ == old(out)@ + megabytes(bytes as nat),
{
    let double = to_double(bytes);
    let tenths: u128 = div_half_even(double * 10, 1048576);
    text::push_decimal(out, (tenths / 10) as u64);
    out.push('.');
    text::push_decimal(out, (tenths % 10) as u64);
    proof {
        assert(final(out)@ =~= old(out)@ + megabytes(bytes as nat));
    }
}

/// The recording mark and the time.
pub open spec fn rec_field(s: PanelState) -> Seq<char> {
    if s.paused {
        "⏸ PAUSED "@ + clock(s.elapsed_secs as nat)
    } else {
        seq![if s.pulse_on { '●' } else { '○' }] + " REC "@ + clock(s.elapsed_secs as nat)
    }
}

/// The three equalizer bars.
pub open spec fn eq_field(s: PanelState) -> Seq<char> {
    "eq "@ + seq![bar_char(s.bands@[0]), bar_char(s.bands@[1]), bar_char(s.bands@[2])]
}

/// The two sound meters.
pub open spec fn meters_field(s: PanelState) -> Seq<char> {
    "mic "@ + meter_text(s.mic_cells as nat, 4) + " sys "@ + meter_text(s.system_cells as nat, 4)
}

/// What was recorded so far.
pub open spec fn tail_field(s: PanelState) -> Seq<char> {
    if s.record_only {
        "recorded: "@ + megabytes(s.bytes_written as nat) + " MB / "@ + clock(s.elapsed_secs as nat)
    } else {
        "segments:"@ + text::decimal(s.segments as nat)
    }
}

/// The silence warning, from five silent seconds on.
pub open spec fn warn_field(s: PanelState) -> Seq<char> {
    if s.silent_secs >= 5 {
        "⚠ no audio for "@ + text::decimal(s.silent_secs as nat) + "s"@
    } else {
        Seq::empty()
    }
}

/// The fields of the line in the order they stand in it, each with its rank: in a
/// narrow terminal the field of the highest rank goes first, and rank zero stays.
pub open spec fn fields(s: PanelState) -> Seq<(Seq<char>, nat)> {
    seq![
        (rec_field(s), 0nat),
        (eq_field(s), 2nat),
        (meters_field(s), 1nat),
        (tail_field(s), 3nat),
        (s.engine_model@, 4nat),
        (warn_field(s), 0nat),
    ]
}

/// The texts of the fields up to a rank that have any text.
pub open spec fn shown(fields: Seq<(Seq<char>, nat)>, rank: nat) -> Seq<Seq<char>>
    decreases fields.len(),
{
    if fields.len() == 0 {
        Seq::empty()
    } else {
        let rest = shown(fields.drop_last(), rank);
        let (t, r) = fields.last();
        if r <= rank && t.len() > 0 {
            rest.push(t)
        } else {
            rest
        }
    }
}

/// The line with the fields up to a rank.
pub open spec fn line(s: PanelState, rank: nat) -> Seq<char> {
    text::join(shown(fields(s), rank), " │ "@)
}

/// The first characters of a text with an ellipsis after them, `max` in all.
pub open spec fn ellipsized(t: Seq<char>, max: nat) -> Seq<char> {
    if max == 0 {
        Seq::empty()
    } else {
        t.take(max - 1).push('…')
    }
}

/// The line with as many fields as fit in `max` columns, counted down from a rank.
pub open spec fn fitted(s: PanelState, max: nat, rank: nat) -> Seq<char>
    decreases rank,
{
    if line(s, rank).len() <= max {
        line(s, rank)
    } else if rank > 0 {
        fitted(s, max, (rank - 1) as nat)
    } else {
        ellipsized(line(s, 0), max)
    }
}

/// The whole status line for a terminal of so many columns, or of any width.
pub open spec fn status_line(s: PanelState, max_cols: Option<usize>) -> Seq<char> {
    match max_cols {
        None => line(s, 4),
        Some(max) => fitted(s, max as nat, 4),
    }
}

/// The fields of a line, as texts and ranks.
spec fn ranked(fields: Seq<(String, u8)>) -> Seq<(Seq<char>, nat)> {
    fields.map_values(|f: (String, u8)| (f.0@, f.1 as nat))
}

fn panel_fields(s: &PanelState) -> (r: Vec<(String, u8)>)
    ensures
        ranked(r@) == fields(*s),
{
    let mut rec = String::new();
    if s.paused {
        rec.append("⏸ PAUSED ");
    } else {
        rec.push(if s.pulse_on { '●' } else { '○' });
        rec.append(" REC ");
    }
    rec.append(hhmmss(s.elapsed_secs).as_str());
    proof {
        assert(rec@ =~= rec_field(*s));
    }

    let mut eq = String::new();
    eq.append("eq ");
    eq.push(bar(s.bands[0]));
    eq.push(bar(s.bands[1]));
    eq.push(bar(s.bands[2]));
    proof {
        assert(eq@ =~= eq_field(*s));
    }

    let mut meters = String::new();
    meters.append("mic ");
    push_meter(&mut meters, s.mic_cells, 4);
    meters.append(" sys ");
    push_meter(&mut meters, s.system_cells, 4);
    proof {
        assert(meters@ =~= meters_field(*s));
    }

    let mut tail = String::new();
    if s.record_only {
        tail.append("recorded: ");
        push_megabytes(&mut tail, s.bytes_written);
        tail.append(" MB / ");
        tail.append(hhmmss(s.elapsed_secs).as_str());
    } else {
        tail.append("segments:");
        text::push_decimal(&mut tail, s.segments);
    }
    proof {
        assert(tail@ =~= tail_field(*s));
    }

    let mut warn = String::new();
    if s.silent_secs >= 5 {
        warn.append("⚠ no audio for ");
        text::push_decimal(&mut warn, s.silent_secs);
        warn.append("s");
    }
    proof {
        assert(warn@ =~= warn_field(*s));
    }

    let mut r: Vec<(String, u8)> = Vec::new();
    r.push((rec, 0u8));
    r.push((eq, 2u8));
    r.push((meters, 1u8));
    r.push((tail, 3u8));
    r.push((s.engine_model.clone(), 4u8));
    r.push((warn, 0u8));
    proof {
        assert(ranked(r@) =~= fields(*s));
    }
    r
}

fn join_up_to(fields: &Vec<(String, u8)>, rank: u8) -> (r: String)
    ensures
        r@ == text::join(shown(ranked(fields@), rank as nat), " │ "@),
{
    let mut parts: Vec<String> = Vec::new();
    let mut i: usize = 0;
    while i < fields.len()
        invariant
            i <= fields@.len(),
            text::texts(parts@) == shown(ranked(fields@).take(i as int), rank as nat),
        decreases fields@.len() - i,
    {
        let ghost before = ranked(fields@).take(i as int);
        let ghost after = ranked(fields@).take(i + 1);
        let ghost old_parts = parts@;
        if fields[i].1 <= rank && !fields[i].0.as_str().is_empty() {
            parts.push(fields[i].0.clone());
            proof {
                assert(text::texts(parts@) =~= text::texts(old_parts).push(fields@[i as int].0@));
            }
        }
        proof {
            assert(after.drop_last() =~= before);
            assert(after.last() == (fields@[i as int].0@, fields@[i as int].1 as nat));
        }
        i = i + 1;
    }
    proof {
        assert(ranked(fields@).take(fields@.len() as int) =~= ranked(fields@));
    }
    text::join_strings(&parts, " │ ")
}

/// The whole status line, without a line break at its end.
pub fn render(s: &PanelState) -> (r: String)
    ensures
        r@ == status_line(*s, None),
{
    render_fit(s, None)
}

/// The status line cut to the terminal's width, so that it always takes one line.
///
/// Where it is too wide, fields go in this order: model, tail, equalizer, meters.
/// The recording mark and the silence warning stay, and if they alone are too wide
/// the line ends in an ellipsis. Without a width the line is complete.
pub fn render_fit(s: &PanelState, max_cols: Option<usize>) -> (r: String)
    ensures
        r@ == status_line(*s, max_cols),
{
    let fields = panel_fields(s);
    let max: usize = match max_cols {
        None => {
            return join_up_to(&fields, 4);
        },
        Some(max) => max,
    };
    let mut rank: u8 = 4;
    let mut current = join_up_to(&fields, rank);
    while current.as_str().unicode_len() > max && rank > 0
        invariant
            ranked(fields@) == self::fields(*s),
            current@ == line(*s, rank as nat),
            fitted(*s, max as nat, rank as nat) == fitted(*s, max as nat, 4),
        decreases rank,
    {
        rank = rank - 1;
        current = join_up_to(&fields, rank);
    }
    if current.as_str().unicode_len() <= max {
        return current;
    }
    if max == 0 {
        return String::new();
    }
    let mut out = String::new();
    out.append(current.as_str().substring_char(0, max - 1));
    out.push('…');
    proof {
        assert(out@ =~= ellipsized(line(*s, 0), max as nat));
    }
    out
}

/// A line made for a terminal never takes more columns than the terminal has.
pub proof fn law_never_wider_than_terminal(s: PanelState, max: usize)
    ensures
        status_line(s, Some(max)).len() <= max,
{
    lemma_fitted_width(s, max as nat, 4);
}

proof fn lemma_fitted_width(s: PanelState, max: nat, rank: nat)
    ensures
        fitted(s, max, rank).len() <= max,
    decreases rank,
{
    if line(s, rank).len() > max {
        if rank > 0 {
            lemma_fitted_width(s, max, (rank - 1) as nat);
        }
    }
}

/// Where the whole line fits, the terminal's width changes nothing.
pub proof fn law_wide_terminal_keeps_everything(s: PanelState, max: usize)
    requires
        status_line(s, None).len() <= max,
    ensures
        status_line(s, Some(max)) == status_line(s, None),
{
}

/// Fields leave in the order of their ranks: model, tail, equalizer, meters. The
/// line keeps all fields up to a rank if it fits and one more field would not.
pub proof fn law_fields_leave_by_rank(s: PanelState, max: usize, rank: nat)
    requires
        rank < 4,
        line(s, rank).len() <= max,
        forall|r: nat| rank < r <= 4 ==> #[trigger] line(s, r).len() > max,
    ensures
        status_line(s, Some(max)) == line(s, rank),
{
    lemma_fitted_at(s, max as nat, rank, 4);
}

proof fn lemma_fitted_at(s: PanelState, max: nat, rank: nat, top: nat)
    requires
        rank <= top <= 4,
        line(s, rank).len() <= max,
        forall|r: nat| rank < r <= 4 ==> #[trigger] line(s, r).len() > max,
    ensures
        fitted(s, max, top) == line(s, rank),
    decreases top,
{
    if rank < top {
        assert(line(s, top).len() > max);
        lemma_fitted_at(s, max, rank, (top - 1) as nat);
    }
}

/// Whatever else leaves the line, it starts with the recording mark and ends with
/// the silence warning.
pub proof fn law_mark_and_warning_stay(s: PanelState, rank: nat)
    ensures
        rec_field(s).is_prefix_of(line(s, rank)),
        warn_field(s).is_suffix_of(line(s, rank)),
{
    let all = fields(s);
    let head = all.drop_last();
    assert(all.last() == (warn_field(s), 0nat));
    assert(rec_field(s).len() > 0) by {
        if s.paused {
            reveal_strlit("⏸ PAUSED ");
        }
    }
    lemma_first_shown(head, rank);
    let kept = shown(head, rank);
    let parts = shown(all, rank);
    if warn_field(s).len() > 0 {
        assert(parts == kept.push(warn_field(s)));
        assert(parts.drop_last() =~= kept);
        lemma_join_prefix(kept, " │ "@);
        let body = text::join(kept, " │ "@);
        assert(line(s, rank) == body + " │ "@ + warn_field(s));
        assert(warn_field(s) =~= line(s, rank).subrange(
            line(s, rank).len() - warn_field(s).len(),
            line(s, rank).len() as int,
        ));
        assert(kept[0] =~= line(s, rank).subrange(0, kept[0].len() as int));
    } else {
        lemma_join_prefix(kept, " │ "@);
        assert(warn_field(s) =~= line(s, rank).subrange(
            line(s, rank).len() as int,
            line(s, rank).len() as int,
        ));
    }
}

proof fn lemma_first_shown(f: Seq<(Seq<char>, nat)>, rank: nat)
    requires
        f.len() > 0,
        f[0].1 == 0,
        f[0].0.len() > 0,
    ensures
        shown(f, rank).len() > 0,
        shown(f, rank)[0] == f[0].0,
    decreases f.len(),
{
    if f.len() > 1 {
        assert(f.drop_last()[0] == f[0]);
        lemma_first_shown(f.drop_last(), rank);
    } else {
        assert(shown(f.drop_last(), rank) =~= Seq::<Seq<char>>::empty());
    }
}

proof fn lemma_join_prefix(parts: Seq<Seq<char>>, sep: Seq<char>)
    requires
        parts.len() > 0,
    ensures
        parts[0].is_prefix_of(text::join(parts, sep)),
    decreases parts.len(),
{
    if parts.len() > 1 {
        lemma_join_prefix(parts.drop_last(), sep);
        assert(parts.drop_last()[0] == parts[0]);
        let j = text::join(parts.drop_last(), sep);
        assert(parts[0] =~= text::join(parts, sep).subrange(0, parts[0].len() as int));
    } else {
        assert(parts[0] =~= parts[0].subrange(0, parts[0].len() as int));
    }
}

/// The status line holds no line break, unless the model's name brings one.
pub proof fn law_one_physical_line(s: PanelState, max_cols: Option<usize>)
    requires
        !s.engine_model@.contains('\n'),
    ensures
        !status_line(s, max_cols).contains('\n'),
{
    lemma_fields_unbroken(s);
    assert forall|rank: nat| !(#[trigger] line(s, rank)).contains('\n') by {
        lemma_shown_unbroken(fields(s), rank);
        reveal_strlit(" │ ");
        lemma_join_unbroken(shown(fields(s), rank), " │ "@);
    }
    match max_cols {
        None => {},
        Some(max) => {
            lemma_fitted_unbroken(s, max as nat, 4);
        },
    }
}

proof fn lemma_fitted_unbroken(s: PanelState, max: nat, rank: nat)
    requires
        forall|rank: nat| !(#[trigger] line(s, rank)).contains('\n'),
    ensures
        !fitted(s, max, rank).contains('\n'),
    decreases rank,
{
    if line(s, rank).len() > max {
        if rank > 0 {
            lemma_fitted_unbroken(s, max, (rank - 1) as nat);
        } else if max > 0 {
            let t = line(s, 0);
            assert forall|i: int| 0 <= i < max implies #[trigger] ellipsized(t, max)[i] != '\n' by {
                if i < max - 1 {
                    assert(ellipsized(t, max)[i] == t[i]);
                }
            }
        }
    }
}

proof fn lemma_join_unbroken(parts: Seq<Seq<char>>, sep: Seq<char>)
    requires
        forall|i: int| 0 <= i < parts.len() ==> !(#[trigger] parts[i]).contains('\n'),
        !sep.contains('\n'),
    ensures
        !text::join(parts, sep).contains('\n'),
    decreases parts.len(),
{
    if parts.len() > 1 {
        let head = parts.drop_last();
        assert forall|i: int| 0 <= i < head.len() implies !(#[trigger] head[i]).contains('\n') by {
            assert(head[i] == parts[i]);
        }
        lemma_join_unbroken(head, sep);
        lemma_concat_unbroken(text::join(head, sep), sep);
        lemma_concat_unbroken(text::join(head, sep) + sep, parts.last());
    }
}

proof fn lemma_concat_unbroken(a: Seq<char>, b: Seq<char>)
    requires
        !a.contains('\n'),
        !b.contains('\n'),
    ensures
        !(a + b).contains('\n'),
{
    assert forall|i: int| 0 <= i < (a + b).len() implies #[trigger] (a + b)[i] != '\n' by {
        if i < a.len() {
            assert((a + b)[i] == a[i]);
        } else {
            assert((a + b)[i] == b[i - a.len()]);
        }
    }
}

proof fn lemma_shown_unbroken(f: Seq<(Seq<char>, nat)>, rank: nat)
    requires
        forall|i: int| 0 <= i < f.len() ==> !(#[trigger] f[i]).0.contains('\n'),
    ensures
        forall|i: int| 0 <= i < shown(f, rank).len() ==> !(#[trigger] shown(f, rank)[i]).contains('\n'),
    decreases f.len(),
{
    if f.len() > 0 {
        let head = f.drop_last();
        assert forall|i: int| 0 <= i < head.len() implies !(#[trigger] head[i]).0.contains('\n') by {
            assert(head[i] == f[i]);
        }
        lemma_shown_unbroken(head, rank);
        assert(!f[f.len() - 1].0.contains('\n'));
        assert forall|i: int| 0 <= i < shown(f, rank).len() implies !(#[trigger] shown(
            f,
            rank,
        )[i]).contains('\n') by {
            if i < shown(head, rank).len() {
                assert(shown(f, rank)[i] == shown(head, rank)[i]);
            }
        }
    }
}

proof fn lemma_decimal_unbroken(n: nat)
    ensures
        !text::decimal(n).contains('\n'),
    decreases n,
{
    if n >= 10 {
        lemma_decimal_unbroken(n / 10);
        lemma_concat_unbroken(text::decimal(n / 10), seq![text::digit(n % 10)]);
        assert(text::decimal(n) =~= text::decimal(n / 10) + seq![text::digit(n % 10)]);
    }
}

proof fn lemma_clock_unbroken(secs: nat)
    ensures
        !clock(secs).contains('\n'),
{
    let h = two_digits(secs / 3600);
    let m = two_digits((secs % 3600) / 60);
    let x = two_digits(secs % 60);
    lemma_decimal_unbroken(secs / 3600);
    lemma_decimal_unbroken((secs % 3600) / 60);
    lemma_decimal_unbroken(secs % 60);
    lemma_concat_unbroken(seq!['0'], text::decimal(secs / 3600));
    lemma_concat_unbroken(seq!['0'], text::decimal((secs % 3600) / 60));
    lemma_concat_unbroken(seq!['0'], text::decimal(secs % 60));
    lemma_concat_unbroken(h, seq![':']);
    lemma_concat_unbroken(h + seq![':'], m);
    lemma_concat_unbroken(h + seq![':'] + m, seq![':']);
    lemma_concat_unbroken(h + seq![':'] + m + seq![':'], x);
}

proof fn lemma_fields_unbroken(s: PanelState)
    requires
        !s.engine_model@.contains('\n'),
    ensures
        forall|i: int| 0 <= i < fields(s).len() ==> !(#[trigger] fields(s)[i]).0.contains('\n'),
{
    reveal_strlit("⏸ PAUSED ");
    reveal_strlit(" REC ");
    reveal_strlit("eq ");
    reveal_strlit("mic ");
    reveal_strlit(" sys ");
    reveal_strlit("recorded: ");
    reveal_strlit(" MB / ");
    reveal_strlit("segments:");
    reveal_strlit("⚠ no audio for ");
    reveal_strlit("s");
    lemma_clock_unbroken(s.elapsed_secs as nat);
    let c = clock(s.elapsed_secs as nat);
    let mark = seq![if s.pulse_on { '●' } else { '○' }];
    lemma_concat_unbroken("⏸ PAUSED "@, c);
    lemma_concat_unbroken(mark, " REC "@);
    lemma_concat_unbroken(mark + " REC "@, c);
    lemma_concat_unbroken(
        "eq "@,
        seq![bar_char(s.bands@[0]), bar_char(s.bands@[1]), bar_char(s.bands@[2])],
    );
    let mic = meter_text(s.mic_cells as nat, 4);
    let sys = meter_text(s.system_cells as nat, 4);
    lemma_concat_unbroken("mic "@, mic);
    lemma_concat_unbroken("mic "@ + mic, " sys "@);
    lemma_concat_unbroken("mic "@ + mic + " sys "@, sys);
    let bytes = s.bytes_written as nat;
    let whole = text::decimal(mb_tenths(bytes) / 10);
    let tenth = text::decimal(mb_tenths(bytes) % 10);
    lemma_decimal_unbroken(mb_tenths(bytes) / 10);
    lemma_decimal_unbroken(mb_tenths(bytes) % 10);
    lemma_concat_unbroken(whole, seq!['.']);
    lemma_concat_unbroken(whole + seq!['.'], tenth);
    lemma_concat_unbroken("recorded: "@, megabytes(bytes));
    lemma_concat_unbroken("recorded: "@ + megabytes(bytes), " MB / "@);
    lemma_concat_unbroken("recorded: "@ + megabytes(bytes) + " MB / "@, c);
    lemma_decimal_unbroken(s.segments as nat);
    lemma_concat_unbroken("segments:"@, text::decimal(s.segments as nat));
    lemma_decimal_unbroken(s.silent_secs as nat);
    lemma_concat_unbroken("⚠ no audio for "@, text::decimal(s.silent_secs as nat));
    lemma_concat_unbroken("⚠ no audio for "@ + text::decimal(s.silent_secs as nat), "s"@);
}

proof fn lemma_shown_holds(f: Seq<(Seq<char>, nat)>, rank: nat, i: int)
    requires
        0 <= i < f.len(),
        f[i].1 <= rank,
        f[i].0.len() > 0,
    ensures
        shown(f, rank).contains(f[i].0),
    decreases f.len(),
{
    let head = f.drop_last();
    let kept = shown(head, rank);
    let all = shown(f, rank);
    if i < head.len() {
        assert(head[i] == f[i]);
        lemma_shown_holds(head, rank, i);
        let k = choose|k: int| 0 <= k < kept.len() && kept[k] == f[i].0;
        assert(all[k] == f[i].0);
    } else {
        assert(all[kept.len() as int] == f[i].0);
    }
}

proof fn lemma_line_holds(s: PanelState, rank: nat, i: int)
    requires
        0 <= i < 6,
        fields(s)[i].1 <= rank,
        fields(s)[i].0.len() > 0,
    ensures
        text::has(line(s, rank), fields(s)[i].0),
{
    lemma_shown_holds(fields(s), rank, i);
    let parts = shown(fields(s), rank);
    let k = choose|k: int| 0 <= k < parts.len() && parts[k] == fields(s)[i].0;
    text::law_joined_parts_keep_their_place(parts, " │ "@, k);
}

/// A line shows what its rank admits, as it stands: always the mark of recording or pause with
/// the time, and the warning; from rank 1 on both meters, from 2 on the three bars, from 3 on
/// the number of segments or the size and time, from 4 on the model.
pub proof fn law_what_each_rank_shows(s: PanelState, rank: nat)
    ensures
        text::has(
            line(s, rank),
            (if s.paused {
                "⏸ PAUSED "@
            } else if s.pulse_on {
                seq!['●'] + " REC "@
            } else {
                seq!['○'] + " REC "@
            }) + clock(s.elapsed_secs as nat),
        ),
        s.silent_secs >= 5 ==> text::has(
            line(s, rank),
            "⚠ no audio for "@ + text::decimal(s.silent_secs as nat) + "s"@,
        ),
        rank >= 1 ==> text::has(
            line(s, rank),
            "mic "@ + meter_text(s.mic_cells as nat, 4) + " sys "@ + meter_text(
                s.system_cells as nat,
                4,
            ),
        ),
        rank >= 2 ==> text::has(
            line(s, rank),
            "eq "@ + seq![bar_char(s.bands@[0]), bar_char(s.bands@[1]), bar_char(s.bands@[2])],
        ),
        rank >= 3 && !s.record_only ==> text::has(
            line(s, rank),
            "segments:"@ + text::decimal(s.segments as nat),
        ),
        rank >= 3 && s.record_only ==> text::has(
            line(s, rank),
            "recorded: "@ + megabytes(s.bytes_written as nat) + " MB / "@ + clock(
                s.elapsed_secs as nat,
            ),
        ),
        rank >= 4 && s.engine_model@.len() > 0 ==> text::has(line(s, rank), s.engine_model@),
        status_line(s, None) == line(s, 4),
{
    reveal_strlit("⏸ PAUSED ");
    reveal_strlit("eq ");
    reveal_strlit("mic ");
    reveal_strlit("recorded: ");
    reveal_strlit("segments:");
    reveal_strlit("⚠ no audio for ");
    assert(fields(s)[0].0.len() > 0);
    lemma_line_holds(s, rank, 0);
    if s.silent_secs >= 5 {
        lemma_line_holds(s, rank, 5);
    }
    if rank >= 1 {
        lemma_line_holds(s, rank, 2);
    }
    if rank >= 2 {
        lemma_line_holds(s, rank, 1);
    }
    if rank >= 3 {
        lemma_line_holds(s, rank, 3);
    }
    if rank >= 4 && s.engine_model@.len() > 0 {
        lemma_line_holds(s, rank, 4);
    }
}

proof fn lemma_shown_ignores(f: Seq<(Seq<char>, nat)>, g: Seq<(Seq<char>, nat)>, rank: nat)
    requires
        f.len() == g.len(),
        forall|i: int|
            0 <= i < f.len() ==> (#[trigger] f[i]).1 == g[i].1 && (f[i].1 <= rank ==> f[i].0
                == g[i].0),
    ensures
        shown(f, rank) == shown(g, rank),
    decreases f.len(),
{
    if f.len() > 0 {
        let a = f.drop_last();
        let b = g.drop_last();
        assert forall|i: int| 0 <= i < a.len() implies (#[trigger] a[i]).1 == b[i].1 && (a[i].1
            <= rank ==> a[i].0 == b[i].0) by {
            assert(a[i] == f[i]);
        }
        lemma_shown_ignores(a, b, rank);
        assert(f[f.len() - 1].1 == g[f.len() - 1].1);
    }
}

/// A line shows nothing above its rank: below rank 4 the model does not matter, below 3 neither
/// do the segments nor the bytes, below 2 the bars, and at rank 0 the meters.
pub proof fn law_what_each_rank_hides(s: PanelState, t: PanelState, rank: nat)
    requires
        rank < 4,
        s.elapsed_secs == t.elapsed_secs && s.paused == t.paused && s.pulse_on == t.pulse_on
            && s.silent_secs == t.silent_secs,
        rank >= 1 ==> s.mic_cells == t.mic_cells && s.system_cells == t.system_cells,
        rank >= 2 ==> s.bands@ == t.bands@,
        rank >= 3 ==> s.segments == t.segments && s.bytes_written == t.bytes_written
            && s.record_only == t.record_only,
    ensures
        line(s, rank) == line(t, rank),
{
    let f = fields(s);
    let g = fields(t);
    assert forall|i: int| 0 <= i < f.len() implies (#[trigger] f[i]).1 == g[i].1 && (f[i].1 <= rank
        ==> f[i].0 == g[i].0) by {
        assert(f[i].1 == g[i].1);
    }
    lemma_shown_ignores(f, g, rank);
}

/// A line of which not even the mark and the warning fit is cut: it takes all columns, the last
/// of them for an ellipsis, and before it stands the start of the line.
pub proof fn law_lines_are_cut_at_last(s: PanelState, max: usize)
    requires
        max > 0,
        forall|r: nat| r <= 4 ==> #[trigger] line(s, r).len() > max,
    ensures
        status_line(s, Some(max)).len() == max,
        status_line(s, Some(max))[max - 1] == '…',
        status_line(s, Some(max)).take(max - 1) == line(s, 0).take(max - 1),
        status_line(s, Some(0usize)).len() == 0,
{
    lemma_fitted_cut(s, max as nat, 4);
    lemma_fitted_width(s, 0, 4);
    assert(line(s, 0).len() > max);
    let cut = ellipsized(line(s, 0), max as nat);
    assert(cut.take(max - 1) =~= line(s, 0).take(max - 1));
}

proof fn lemma_fitted_cut(s: PanelState, max: nat, rank: nat)
    requires
        rank <= 4,
        forall|r: nat| r <= 4 ==> #[trigger] line(s, r).len() > max,
    ensures
        fitted(s, max, rank) == ellipsized(line(s, 0), max),
    decreases rank,
{
    assert(line(s, rank).len() > max);
    if rank > 0 {
        lemma_fitted_cut(s, max, (rank - 1) as nat);
    }
}

proof fn lemma_two_digits(n: nat)
    ensures
        text::number(two_digits(n)) == n,
        two_digits(n).len() >= 2,
        n < 100 ==> two_digits(n).len() == 2,
{
    text::law_decimals_read_back(n);
    if n < 10 {
        let t = two_digits(n);
        assert(text::decimal(n).len() == 1);
        assert(t.drop_last() =~= seq!['0']);
        assert(seq!['0'].drop_last() =~= Seq::<char>::empty());
        assert(text::number(seq!['0'].drop_last()) == 0);
        assert(text::number(seq!['0']) == 0);
        assert(t.last() == text::digit(n));
    } else {
        assert(text::decimal(n / 10).len() >= 1) by {
            text::law_decimals_read_back(n / 10);
        }
        if n < 100 {
            assert(n / 10 < 10);
            assert(text::decimal(n / 10).len() == 1);
        }
    }
}

/// The time is shown as hours, minutes and seconds that add up to it: two digits for the minutes
/// and the seconds, both below sixty, and two or more for the hours.
pub proof fn law_the_clock_reads_back(secs: nat)
    ensures
        ({
            let c = clock(secs);
            let n = c.len() as int;
            let hours = text::number(c.take(n - 6));
            let minutes = text::number(c.subrange(n - 5, n - 3));
            let seconds = text::number(c.subrange(n - 2, n));
            &&& n >= 8
            &&& c[n - 3] == ':' && c[n - 6] == ':'
            &&& hours * 3600 + minutes * 60 + seconds == secs
            &&& 0 <= minutes < 60 && 0 <= seconds < 60
        }),
{
    let h = secs / 3600;
    let m = (secs % 3600) / 60;
    let x = secs % 60;
    lemma_two_digits(h);
    lemma_two_digits(m);
    lemma_two_digits(x);
    let c = clock(secs);
    let n = c.len() as int;
    assert(c.take(n - 6) =~= two_digits(h));
    assert(c.subrange(n - 5, n - 3) =~= two_digits(m));
    assert(c.subrange(n - 2, n) =~= two_digits(x));
}

/// A meter has as many cells as it is wide, and those that are lit come first.
pub proof fn law_meters_fill_from_the_left(lit: nat, width: nat, i: int)
    requires
        0 <= i < width,
    ensures
        meter_text(lit, width).len() == width,
        meter_text(lit, width)[i] == '▮' <==> i < lit,
        meter_text(lit, width)[i] == '▯' <==> i >= lit,
{
}

/// The bars grow with their height: eight bars of eight different heights, and no bar is taller
/// than the last.
pub proof fn law_bars_grow_with_height(a: u8, b: u8)
    ensures
        a < b && b <= 7 ==> bar_char(a) < bar_char(b),
        a >= 7 ==> bar_char(a) == '█',
        bar_char(0) == '▁',
{
}

proof fn lemma_half_even(n: nat, d: nat)
    requires
        d > 0,
    ensures
        2 * n <= 2 * (half_even(n, d) * d) + d,
        2 * (half_even(n, d) * d) <= 2 * n + d,
{
    let q = n / d;
    let r = n % d;
    assert(n == q * d + r && 0 <= r < d) by (nonlinear_arith)
        requires
            q == n / d,
            r == n % d,
            d > 0,
    ;
    assert((q + 1) * d == q * d + d) by (nonlinear_arith);
}

/// The size that is shown is the nearest tenth of a mebibyte, for any file of less than eight
/// pebibytes: it is off by half a tenth at most, and its digits are those of the tenths.
pub proof fn law_sizes_are_rounded_to_a_tenth(bytes: nat)
    requires
        bytes < 0x20_0000_0000_0000,
    ensures
        2 * (bytes * 10) <= 2 * (mb_tenths(bytes) * 1048576) + 1048576,
        2 * (mb_tenths(bytes) * 1048576) <= 2 * (bytes * 10) + 1048576,
        ({
            let t = megabytes(bytes);
            let n = t.len() as int;
            &&& n >= 3 && t[n - 2] == '.'
            &&& 10 * text::number(t.take(n - 2)) + text::number(t.subrange(n - 1, n)) == mb_tenths(
                bytes,
            )
        }),
{
    assert(last_place(bytes, 1) == 1);
    assert(bytes % 1 == 0 && bytes / 1 == bytes) by (nonlinear_arith);
    assert(half_even(bytes, 1) == bytes);
    assert(nearest_double(bytes) == bytes);
    lemma_half_even(bytes * 10, 1048576);
    let tenths = mb_tenths(bytes);
    text::law_decimals_read_back(tenths / 10);
    text::law_decimals_read_back(tenths % 10);
    let whole = text::decimal(tenths / 10);
    let tenth = text::decimal(tenths % 10);
    let t = megabytes(bytes);
    let n = t.len() as int;
    assert(tenth.len() == 1);
    assert(t.take(n - 2) =~= whole);
    assert(t.subrange(n - 1, n) =~= tenth);
}

} // verus!
