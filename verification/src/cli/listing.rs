//! The lists that the command line prints, line by line.
use crate::audio::devices::configuration::{AudioDevice, DeviceType};
use crate::clock;
use crate::clock::Moment;
use crate::text;
use vstd::prelude::*;

verus! {

/// The names of the devices of a type, one to a line.
pub open spec fn device_names(devices: Seq<AudioDevice>, wanted: DeviceType) -> Seq<Seq<char>>
    decreases devices.len(),
{
    if devices.len() == 0 {
        Seq::empty()
    } else {
        let before = device_names(devices.drop_last(), wanted);
        if devices.last().device_type == wanted {
            before.push("  - "@ + devices.last().name@)
        } else {
            before
        }
    }
}

/// A group of devices under a heading; a group without devices says so.
pub open spec fn device_group(
    heading: Seq<char>,
    devices: Seq<AudioDevice>,
    wanted: DeviceType,
) -> Seq<Seq<char>> {
    let names = device_names(devices, wanted);
    seq![heading] + if names.len() == 0 {
        seq!["  (none)"@]
    } else {
        names
    }
}

/// The list of devices: microphones, then what is played by the system.
pub open spec fn device_list(devices: Seq<AudioDevice>) -> Seq<Seq<char>> {
    device_group("Microphones:"@, devices, DeviceType::Input) + device_group(
        "System (loopback):"@,
        devices,
        DeviceType::Output,
    )
}

fn push_device_group(
    out: &mut Vec<String>,
    heading: &str,
    devices: &[AudioDevice],
    wanted: DeviceType,
)
    ensures
        text::texts(final(out)@) == text::texts(old(out)@) + device_group(
            heading@,
            devices@,
            wanted,
        ),
{
    let ghost start = text::texts(out@);
    let title = heading.to_owned();
    out.push(title);
    proof {
        assert(text::texts(out@) =~= start + seq![heading@] + Seq::<Seq<char>>::empty());
    }
    let mut any = false;
    let mut i: usize = 0;
    while i < devices.len()
        invariant
            i <= devices@.len(),
            text::texts(out@) == start + seq![heading@] + device_names(
                devices@.take(i as int),
                wanted,
            ),
            any == (device_names(devices@.take(i as int), wanted).len() > 0),
        decreases devices@.len() - i,
    {
        proof {
            let now = devices@.take(i + 1);
            assert(now.drop_last() =~= devices@.take(i as int));
            assert(now.last() == devices@[i as int]);
        }
        if devices[i].device_type == wanted {
            let ghost before = out@;
            let line = text::concat2("  - ", devices[i].name.as_str());
            out.push(line);
            any = true;
            proof {
                assert(text::texts(out@) =~= text::texts(before).push(line@));
                assert(text::texts(out@) =~= start + seq![heading@] + device_names(
                    devices@.take(i + 1),
                    wanted,
                ));
            }
        }
        i = i + 1;
    }
    proof {
        assert(devices@.take(devices@.len() as int) =~= devices@);
    }
    if !any {
        let ghost before = out@;
        let line = "  (none)".to_owned();
        out.push(line);
        proof {
            assert(text::texts(out@) =~= text::texts(before).push(line@));
        }
    }
    proof {
        assert(text::texts(out@) =~= start + device_group(heading@, devices@, wanted));
    }
}

/// The list of audio devices.
pub fn list_devices(devices: &[AudioDevice]) -> (r: Vec<String>)
    ensures
        text::texts(r@) == device_list(devices@),
{
    let mut out: Vec<String> = Vec::new();
    push_device_group(&mut out, "Microphones:", devices, DeviceType::Input);
    push_device_group(&mut out, "System (loopback):", devices, DeviceType::Output);
    proof {
        assert(text::texts(out@) =~= device_list(devices@));
    }
    out
}

/// The name under which people know an engine.
pub open spec fn engine_name(provider: Seq<char>) -> Seq<char> {
    if provider == "localWhisper"@ {
        "whisper"@
    } else {
        provider
    }
}

/// The name under which people know an engine, from the one in the configuration.
pub fn shown_engine(provider: &str) -> (r: String)
    ensures
        r@ == engine_name(provider@),
{
    if text::same(provider, "localWhisper") {
        "whisper".to_owned()
    } else {
        provider.to_owned()
    }
}

/// An engine and a model.
#[derive(Debug, Clone)]
pub struct EngineModel {
    pub provider: String,
    pub model: String,
}

/// A transcription model that an engine offers.
#[derive(Debug, Clone)]
pub struct ModelEntry {
    pub name: String,
    pub size_mb: u64,
    pub downloaded: bool,
}

/// Is this the model that the configuration names for the engine?
pub open spec fn is_configured(
    config: Option<EngineModel>,
    engine: Seq<char>,
    model: Seq<char>,
) -> bool {
    match config {
        Some(c) => engine_name(c.provider@) == engine && c.model@ == model,
        None => false,
    }
}

/// The line of a model.
pub open spec fn model_line(
    config: Option<EngineModel>,
    engine: Seq<char>,
    m: ModelEntry,
) -> Seq<char> {
    "  - "@ + m.name@ + " ("@ + text::decimal(m.size_mb as nat) + " MB)"@ + (if m.downloaded {
        " [downloaded]"@
    } else {
        Seq::empty()
    }) + if is_configured(config, engine, m.name@) {
        " (default)"@
    } else {
        Seq::empty()
    }
}

/// The lines of an engine's models.
pub open spec fn model_lines(
    config: Option<EngineModel>,
    engine: Seq<char>,
    models: Result<Vec<ModelEntry>, String>,
) -> Seq<Seq<char>> {
    match models {
        Ok(models) => if models@.len() == 0 {
            seq!["  (nenhum)"@]
        } else {
            models@.map_values(|m: ModelEntry| model_line(config, engine, m))
        },
        Err(e) => seq!["  (error: "@ + e@ + ")"@],
    }
}

/// The line on the configured default.
pub open spec fn default_line(config: Option<EngineModel>) -> Seq<char> {
    match config {
        Some(c) if engine_name(c.provider@).len() > 0 => "Default: "@ + engine_name(c.provider@)
            + "/"@ + c.model@,
        _ => "Default: (not configured)"@,
    }
}

/// The list of models: the configured default, then each engine's models.
pub open spec fn model_list(
    config: Option<EngineModel>,
    whisper: Result<Vec<ModelEntry>, String>,
    parakeet: Result<Vec<ModelEntry>, String>,
) -> Seq<Seq<char>> {
    seq![default_line(config), "Whisper:"@] + model_lines(config, "whisper"@, whisper)
        + seq!["Parakeet:"@] + model_lines(config, "parakeet"@, parakeet)
}

fn describe_model(config: &Option<EngineModel>, engine: &str, m: &ModelEntry) -> (r: String)
    ensures
        r@ == model_line(*config, engine@, *m),
{
    let mut out = "  - ".to_owned();
    out.append(m.name.as_str());
    out.append(" (");
    text::push_decimal(&mut out, m.size_mb);
    out.append(" MB)");
    if m.downloaded {
        out.append(" [downloaded]");
    }
    let configured = match config {
        Some(c) => text::same(shown_engine(c.provider.as_str()).as_str(), engine) && text::same(
            c.model.as_str(),
            m.name.as_str(),
        ),
        None => false,
    };
    if configured {
        out.append(" (default)");
    }
    proof {
        assert(out@ =~= model_line(*config, engine@, *m));
    }
    out
}

fn push_model_lines(
    out: &mut Vec<String>,
    config: &Option<EngineModel>,
    engine: &str,
    models: &Result<Vec<ModelEntry>, String>,
)
    ensures
        text::texts(final(out)@) == text::texts(old(out)@) + model_lines(
            *config,
            engine@,
            *models,
        ),
{
    let ghost start = text::texts(out@);
    match models {
        Ok(models) => {
            if models.len() == 0 {
                let line = "  (nenhum)".to_owned();
                out.push(line);
                proof {
                    assert(text::texts(out@) =~= start + seq!["  (nenhum)"@]);
                }
                return ;
            }
            let ghost all = models@.map_values(|m: ModelEntry| model_line(*config, engine@, m));
            let mut i: usize = 0;
            proof {
                assert(text::texts(out@) =~= start + all.take(0));
            }
            while i < models.len()
                invariant
                    i <= models@.len(),
                    all == models@.map_values(|m: ModelEntry| model_line(*config, engine@, m)),
                    text::texts(out@) == start + all.take(i as int),
                decreases models@.len() - i,
            {
                let ghost before = out@;
                let line = describe_model(config, engine, &models[i]);
                out.push(line);
                proof {
                    assert(text::texts(out@) =~= text::texts(before).push(line@));
                    assert(all.take(i + 1) =~= all.take(i as int).push(all[i as int]));
                    assert(text::texts(out@) =~= start + all.take(i + 1));
                }
                i = i + 1;
            }
            proof {
                assert(all.take(models@.len() as int) =~= all);
            }
        },
        Err(e) => {
            let line = text::concat3("  (error: ", e.as_str(), ")");
            out.push(line);
            proof {
                assert(text::texts(out@) =~= start + seq!["  (error: "@ + e@ + ")"@]);
            }
        },
    }
}

/// The list of transcription models.
pub fn list_models(
    config: &Option<EngineModel>,
    whisper: &Result<Vec<ModelEntry>, String>,
    parakeet: &Result<Vec<ModelEntry>, String>,
) -> (r: Vec<String>)
    ensures
        text::texts(r@) == model_list(*config, *whisper, *parakeet),
{
    let mut out: Vec<String> = Vec::new();
    let first = match config {
        Some(c) => {
            let engine = shown_engine(c.provider.as_str());
            if engine.as_str().is_empty() {
                "Default: (not configured)".to_owned()
            } else {
                text::concat4("Default: ", engine.as_str(), "/", c.model.as_str())
            }
        },
        None => "Default: (not configured)".to_owned(),
    };
    let second = "Whisper:".to_owned();
    out.push(first);
    out.push(second);
    proof {
        assert(text::texts(out@) =~= seq![default_line(*config), "Whisper:"@]);
    }
    push_model_lines(&mut out, config, "whisper", whisper);
    let ghost before = text::texts(out@);
    let third = "Parakeet:".to_owned();
    out.push(third);
    proof {
        assert(text::texts(out@) =~= before + seq!["Parakeet:"@]);
    }
    push_model_lines(&mut out, config, "parakeet", parakeet);
    out
}

/// A meeting in the list of meetings.
#[derive(Debug, Clone)]
pub struct MeetingEntry {
    pub id: String,
    pub title: String,
    pub created_at: Moment,
}

/// The line of a meeting: id, date and title.
pub open spec fn meeting_line(m: MeetingEntry) -> Seq<char> {
    m.id@ + "  "@ + clock::formatted_text(
        m.created_at.secs,
        m.created_at.nanos,
        clock::SHORT_FORMAT@,
    ) + "  "@ + m.title@
}

/// The line of a meeting with a date that is already written out.
pub fn meeting_entry_line(id: &str, date: &str, title: &str) -> (r: String)
    ensures
        r@ == id@ + "  "@ + date@ + "  "@ + title@,
{
    text::concat5(id, "  ", date, "  ", title)
}

/// The list of meetings, in the order given; an empty one says so.
pub open spec fn meeting_list(meetings: Seq<MeetingEntry>) -> Seq<Seq<char>> {
    if meetings.len() == 0 {
        seq!["(none)"@]
    } else {
        meetings.map_values(|m: MeetingEntry| meeting_line(m))
    }
}

/// The list of meetings, in the order given.
pub fn list_meetings(meetings: &[MeetingEntry]) -> (r: Vec<String>)
    requires
        forall|i: int| 0 <= i < meetings@.len() ==> (#[trigger] meetings@[i]).created_at.valid(),
    ensures
        text::texts(r@) == meeting_list(meetings@),
        text::texts(r@) == if meetings@.len() == 0 {
            seq!["(none)"@]
        } else {
            meetings@.map_values(|m: MeetingEntry| meeting_line(m))
        },
{
    let mut out: Vec<String> = Vec::new();
    if meetings.len() == 0 {
        let line = "(none)".to_owned();
        out.push(line);
        proof {
            assert(text::texts(out@) =~= seq!["(none)"@]);
        }
        return out;
    }
    let mut i: usize = 0;
    while i < meetings.len()
        invariant
            i <= meetings@.len(),
            out@.len() == i,
            forall|j: int| 0 <= j < i ==> (#[trigger] out@[j])@ == meeting_line(meetings@[j]),
            forall|j: int|
                0 <= j < meetings@.len() ==> (#[trigger] meetings@[j]).created_at.valid(),
        decreases meetings@.len() - i,
    {
        let m = &meetings[i];
        let date = clock::formatted(m.created_at, clock::SHORT_FORMAT);
        out.push(meeting_entry_line(m.id.as_str(), date.as_str(), m.title.as_str()));
        i = i + 1;
    }
    proof {
        assert(text::texts(out@) =~= meetings@.map_values(|m: MeetingEntry| meeting_line(m)));
    }
    out
}

/// A summary template in the list of templates.
#[derive(Debug, Clone)]
pub struct TemplateEntry {
    pub id: String,
    pub name: String,
    pub description: String,
}

/// The line of a template.
pub open spec fn template_line(t: TemplateEntry) -> Seq<char> {
    "- "@ + t.id@ + "  —  "@ + t.name@ + ": "@ + t.description@
}

/// The list of summary templates, in the order given; an empty one says so.
pub open spec fn template_list(templates: Seq<TemplateEntry>) -> Seq<Seq<char>> {
    if templates.len() == 0 {
        seq!["(none)"@]
    } else {
        templates.map_values(|t: TemplateEntry| template_line(t))
    }
}

/// The list of summary templates.
pub fn list_templates(templates: &[TemplateEntry]) -> (r: Vec<String>)
    ensures
        text::texts(r@) == template_list(templates@),
        text::texts(r@) == if templates@.len() == 0 {
            seq!["(none)"@]
        } else {
            templates@.map_values(|t: TemplateEntry| template_line(t))
        },
{
    let mut out: Vec<String> = Vec::new();
    if templates.len() == 0 {
        let line = "(none)".to_owned();
        out.push(line);
        proof {
            assert(text::texts(out@) =~= seq!["(none)"@]);
        }
        return out;
    }
    let mut i: usize = 0;
    while i < templates.len()
        invariant
            i <= templates@.len(),
            out@.len() == i,
            forall|j: int| 0 <= j < i ==> (#[trigger] out@[j])@ == template_line(templates@[j]),
        decreases templates@.len() - i,
    {
        let t = &templates[i];
        let mut line = text::concat5(
            "- ",
            t.id.as_str(),
            "  —  ",
            t.name.as_str(),
            ": ",
        );
        line.append(t.description.as_str());
        out.push(line);
        i = i + 1;
    }
    proof {
        assert(text::texts(out@) =~= templates@.map_values(|t: TemplateEntry| template_line(t)));
    }
    out
}

proof fn lemma_names_add(a: Seq<AudioDevice>, b: Seq<AudioDevice>, wanted: DeviceType)
    ensures
        device_names(a + b, wanted) == device_names(a, wanted) + device_names(b, wanted),
    decreases b.len(),
{
    if b.len() == 0 {
        assert(a + b =~= a);
        assert(device_names(a, wanted) + device_names(b, wanted) =~= device_names(a, wanted));
    } else {
        lemma_names_add(a, b.drop_last(), wanted);
        assert((a + b).drop_last() =~= a + b.drop_last());
        assert((a + b).last() == b.last());
        assert(device_names(a + b, wanted) =~= device_names(a, wanted) + device_names(b, wanted));
    }
}

proof fn lemma_one_name(d: AudioDevice, wanted: DeviceType)
    ensures
        device_names(seq![d], wanted) == if d.device_type == wanted {
            seq!["  - "@ + d.name@]
        } else {
            Seq::<Seq<char>>::empty()
        },
{
    let one = seq![d];
    assert(one.drop_last() =~= Seq::<AudioDevice>::empty());
    assert(device_names(one.drop_last(), wanted) =~= Seq::<Seq<char>>::empty());
    assert(one.last() == d);
    assert(device_names(one, wanted) =~= if d.device_type == wanted {
        seq!["  - "@ + d.name@]
    } else {
        Seq::<Seq<char>>::empty()
    });
}

/// Devices are listed one after the other, those of a type in their order and whatever else is
/// there: the names of two lists are those of the first and then those of the second, and a
/// device is named under its own type alone.
pub proof fn law_devices_are_listed_one_by_one(
    a: Seq<AudioDevice>,
    b: Seq<AudioDevice>,
    d: AudioDevice,
    wanted: DeviceType,
)
    ensures
        device_names(a + b, wanted) == device_names(a, wanted) + device_names(b, wanted),
        d.device_type == wanted ==> device_names(seq![d], wanted) == seq!["  - "@ + d.name@],
        d.device_type != wanted ==> device_names(seq![d], wanted).len() == 0,
{
    lemma_names_add(a, b, wanted);
    lemma_one_name(d, wanted);
}

/// Every device stands in the list, behind its own heading: a microphone before the heading of
/// the system's devices, any other behind it. A heading without devices says so.
pub proof fn law_every_device_is_listed(devices: Seq<AudioDevice>, i: int)
    requires
        0 <= i < devices.len(),
    ensures
        exists|k: int, h: int|
            0 < k < device_list(devices).len() && 0 < h < device_list(devices).len()
                && #[trigger] device_list(devices)[k] == "  - "@ + devices[i].name@
                && #[trigger] device_list(devices)[h] == "System (loopback):"@ && (
            devices[i].device_type == DeviceType::Input <==> k < h) && h == 1
                + (if device_names(devices, DeviceType::Input).len() == 0 {
                1
            } else {
                device_names(devices, DeviceType::Input).len() as int
            }),
        device_list(devices)[0] == "Microphones:"@,
{
    let d = devices[i];
    let a = devices.take(i);
    let b = devices.skip(i + 1);
    let wanted = d.device_type;
    lemma_names_add(a, seq![d], wanted);
    lemma_names_add(a + seq![d], b, wanted);
    assert(devices =~= a + seq![d] + b);
    lemma_one_name(d, wanted);
    let names = device_names(devices, wanted);
    let at = device_names(a, wanted).len() as int;
    assert(names[at] == "  - "@ + d.name@);
    let list = device_list(devices);
    let first = device_group("Microphones:"@, devices, DeviceType::Input);
    let second = device_group("System (loopback):"@, devices, DeviceType::Output);
    let h = first.len() as int;
    assert(list[h] == second[0]);
    assert(list[h] == "System (loopback):"@);
    assert(list[0] == first[0]);
    if wanted == DeviceType::Input {
        let k = 1 + at;
        assert(list[k] == first[k]);
        assert(list[k] == "  - "@ + devices[i].name@ && list[h] == "System (loopback):"@);
    } else {
        let k = h + 1 + at;
        assert(list[k] == second[1 + at]);
        assert(list[k] == "  - "@ + devices[i].name@ && list[h] == "System (loopback):"@);
    }
}

/// Every model of an engine stands in the list, in its order, with its name and size; it is
/// marked as downloaded if it is, and as the default if and only if the configuration names
/// this engine and this model.
pub proof fn law_every_model_is_listed(
    config: Option<EngineModel>,
    whisper: Vec<ModelEntry>,
    parakeet: Vec<ModelEntry>,
    k: int,
)
    requires
        whisper@.len() > 0,
        parakeet@.len() > 0,
    ensures
        ({
            let list = model_list(config, Ok(whisper), Ok(parakeet));
            &&& list.len() == 3 + whisper@.len() + parakeet@.len()
            &&& list[1] == "Whisper:"@
            &&& list[2 + whisper@.len() as int] == "Parakeet:"@
            &&& 0 <= k < whisper@.len() ==> list[2 + k] == "  - "@ + whisper@[k].name@ + " ("@
                + text::decimal(whisper@[k].size_mb as nat) + " MB)"@ + (
            if whisper@[k].downloaded {
                " [downloaded]"@
            } else {
                Seq::<char>::empty()
            }) + (if config is Some && (config->0.provider@ == "localWhisper"@
                || config->0.provider@ == "whisper"@) && config->0.model@ == whisper@[k].name@ {
                " (default)"@
            } else {
                Seq::<char>::empty()
            })
            &&& 0 <= k < parakeet@.len() ==> list[3 + whisper@.len() + k] == "  - "@
                + parakeet@[k].name@ + " ("@ + text::decimal(parakeet@[k].size_mb as nat)
                + " MB)"@ + (if parakeet@[k].downloaded {
                " [downloaded]"@
            } else {
                Seq::<char>::empty()
            }) + (if config is Some && config->0.provider@ == "parakeet"@ && config->0.model@
                == parakeet@[k].name@ {
                " (default)"@
            } else {
                Seq::<char>::empty()
            })
        }),
{
    reveal_strlit("whisper");
    reveal_strlit("parakeet");
    reveal_strlit("localWhisper");
    assert("whisper"@.len() != "parakeet"@.len());
    assert("localWhisper"@.len() != "parakeet"@.len());
    let list = model_list(config, Ok(whisper), Ok(parakeet));
    let ws = model_lines(config, "whisper"@, Ok(whisper));
    let ps = model_lines(config, "parakeet"@, Ok(parakeet));
    assert(ws.len() == whisper@.len());
    assert(ps.len() == parakeet@.len());
    assert(list =~= seq![default_line(config), "Whisper:"@] + ws + seq!["Parakeet:"@] + ps);
    if 0 <= k < whisper@.len() {
        assert(list[2 + k] == ws[k]);
        assert(ws[k] == model_line(config, "whisper"@, whisper@[k]));
    }
    if 0 <= k < parakeet@.len() {
        assert(list[3 + whisper@.len() + k] == ps[k]);
        assert(ps[k] == model_line(config, "parakeet"@, parakeet@[k]));
    }
}

/// An engine that cannot be asked does not keep the other from being listed: its error stands in
/// its place, and the other's lines are the same. An engine without models says so.
pub proof fn law_an_engine_that_fails_hides_nothing(
    config: Option<EngineModel>,
    e: String,
    other: Result<Vec<ModelEntry>, String>,
    empty: Vec<ModelEntry>,
)
    requires
        empty@.len() == 0,
    ensures
        model_lines(config, "whisper"@, Err(e)) == seq!["  (error: "@ + e@ + ")"@],
        model_lines(config, "parakeet"@, Err(e)) == seq!["  (error: "@ + e@ + ")"@],
        model_lines(config, "whisper"@, Ok(empty)).len() == 1,
        model_list(config, Err(e), other) == seq![
            default_line(config),
            "Whisper:"@,
            "  (error: "@ + e@ + ")"@,
            "Parakeet:"@,
        ] + model_lines(config, "parakeet"@, other),
{
    assert(model_list(config, Err(e), other) =~= seq![
        default_line(config),
        "Whisper:"@,
        "  (error: "@ + e@ + ")"@,
        "Parakeet:"@,
    ] + model_lines(config, "parakeet"@, other));
}

/// The first line of the list names the configured engine and model.
pub proof fn law_the_default_is_named_first(
    c: EngineModel,
    whisper: Result<Vec<ModelEntry>, String>,
    parakeet: Result<Vec<ModelEntry>, String>,
)
    requires
        c.provider@.len() > 0,
    ensures
        model_list(Some(c), whisper, parakeet)[0] == "Default: "@ + (if c.provider@
            == "localWhisper"@ {
            "whisper"@
        } else {
            c.provider@
        }) + "/"@ + c.model@,
{
    reveal_strlit("whisper");
}

/// Every meeting has a line of its own, in the order given, with its id, its date and its
/// title.
pub proof fn law_every_meeting_is_listed(meetings: Seq<MeetingEntry>, i: int)
    requires
        0 <= i < meetings.len(),
    ensures
        meeting_list(meetings).len() == meetings.len(),
        meeting_list(meetings)[i] == meetings[i].id@ + "  "@ + clock::formatted_text(
            meetings[i].created_at.secs,
            meetings[i].created_at.nanos,
            "%Y-%m-%d %H:%M"@,
        ) + "  "@ + meetings[i].title@,
{
}

/// Every template has a line of its own, in the order given, with its id, its name and its
/// description.
pub proof fn law_every_template_is_listed(templates: Seq<TemplateEntry>, i: int)
    requires
        0 <= i < templates.len(),
    ensures
        template_list(templates).len() == templates.len(),
        template_list(templates)[i] == "- "@ + templates[i].id@ + "  —  "@ + templates[i].name@
            + ": "@ + templates[i].description@,
{
}

/// An engine is shown by its own name, but for `localWhisper`, which people know as whisper.
pub proof fn law_engines_keep_their_names(provider: Seq<char>)
    ensures
        provider == "localWhisper"@ ==> engine_name(provider) == "whisper"@,
        provider != "localWhisper"@ ==> engine_name(provider) == provider,
{
}

} // verus!
