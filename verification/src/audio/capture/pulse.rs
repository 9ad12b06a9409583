//! Decisions of the system audio capture: which sources of the sound server carry
//! what is being played, how long to wait for the server, and how much to read.
use crate::text;
use vstd::prelude::*;

verus! {

/// The server's own name for the monitor of the default output device.
pub const DEFAULT_MONITOR: &'static str = "@DEFAULT_MONITOR@";

/// Milliseconds of audio in one read.
pub const READ_WINDOW_MS: u64 = 20;

/// A source of the sound server, as the server describes it.
#[derive(Debug, Clone)]
pub struct SourceInfo {
    pub name: Option<String>,
    pub description: Option<String>,
    /// Set on monitors only: the output device whose sound the source carries.
    pub monitor_of_sink: Option<u32>,
    pub monitor_of_sink_name: Option<String>,
}

/// A monitor source: the sound of one output device.
#[derive(Debug, Clone)]
pub struct MonitorSource {
    /// The server's name of the source, which opens it.
    pub name: String,
    /// A label for people.
    pub description: String,
    /// Does it carry the sound of the default output device?
    pub is_default: bool,
}

/// A monitor source as texts.
pub struct MonitorView {
    pub name: Seq<char>,
    pub description: Seq<char>,
    pub is_default: bool,
}

impl View for MonitorSource {
    type V = MonitorView;

    open spec fn view(&self) -> MonitorView {
        MonitorView {
            name: self.name@,
            description: self.description@,
            is_default: self.is_default,
        }
    }
}

/// The monitor source that a description stands for, if it stands for one: the server
/// must say that it is a monitor, and give its name.
pub open spec fn monitor_of(info: SourceInfo, default_sink: Option<Seq<char>>) -> Option<
    MonitorView,
> {
    match (info.monitor_of_sink, info.name) {
        (Some(_), Some(name)) => Some(
            MonitorView {
                name: name@,
                description: text::text_or(text::opt_text(info.description), name@),
                is_default: default_sink is Some && text::opt_text(info.monitor_of_sink_name)
                    == default_sink,
            },
        ),
        _ => None,
    }
}

/// The monitor sources among the described ones, in the same order.
pub open spec fn monitors_of(infos: Seq<SourceInfo>, default_sink: Option<Seq<char>>) -> Seq<
    MonitorView,
>
    decreases infos.len(),
{
    if infos.len() == 0 {
        Seq::empty()
    } else {
        let before = monitors_of(infos.drop_last(), default_sink);
        match monitor_of(infos.last(), default_sink) {
            Some(m) => before.push(m),
            None => before,
        }
    }
}

/// The monitor sources as texts.
pub open spec fn views(sources: Seq<MonitorSource>) -> Seq<MonitorView> {
    sources.map_values(|s: MonitorSource| s@)
}

fn monitor_source(info: &SourceInfo, default_sink: &Option<String>) -> (r: Option<MonitorSource>)
    ensures
        match r {
            Some(m) => monitor_of(*info, text::opt_text(*default_sink)) == Some(m@),
            None => monitor_of(*info, text::opt_text(*default_sink)) is None,
        },
{
    if info.monitor_of_sink.is_none() {
        return None;
    }
    let name = match &info.name {
        Some(name) => name.clone(),
        None => {
            return None;
        },
    };
    let description = match &info.description {
        Some(d) => d.clone(),
        None => name.clone(),
    };
    let is_default = match (default_sink, &info.monitor_of_sink_name) {
        (Some(default_sink), Some(owning_sink)) => *default_sink == *owning_sink,
        _ => false,
    };
    Some(MonitorSource { name, description, is_default })
}

/// Every monitor source among the sources that the server described. Where the server
/// could not be asked, its error is handed on: no answer is not an empty list.
pub fn list_monitor_sources(
    described: Result<Vec<SourceInfo>, String>,
    default_sink: &Option<String>,
) -> (r: Result<Vec<MonitorSource>, String>)
    ensures
        match (described, r) {
            (Ok(infos), Ok(sources)) => views(sources@) == monitors_of(
                infos@,
                text::opt_text(*default_sink),
            ),
            (Err(e), Err(f)) => e == f,
            _ => false,
        },
{
    let infos = match described {
        Ok(infos) => infos,
        Err(e) => {
            return Err(e);
        },
    };
    let mut sources: Vec<MonitorSource> = Vec::new();
    let mut i: usize = 0;
    while i < infos.len()
        invariant
            i <= infos@.len(),
            views(sources@) == monitors_of(infos@.take(i as int), text::opt_text(*default_sink)),
        decreases infos@.len() - i,
    {
        proof {
            let now = infos@.take(i + 1);
            assert(now.drop_last() =~= infos@.take(i as int));
            assert(now.last() == infos@[i as int]);
        }
        let ghost before = sources@;
        match monitor_source(&infos[i], default_sink) {
            Some(m) => {
                sources.push(m);
                proof {
                    assert(views(sources@) =~= views(before).push(m@));
                }
            },
            None => {},
        }
        i = i + 1;
    }
    proof {
        assert(infos@.take(infos@.len() as int) =~= infos@);
    }
    Ok(sources)
}

/// The first source that is marked as the default one stands at this position.
pub open spec fn first_default(sources: Seq<MonitorView>, i: int) -> bool {
    &&& 0 <= i < sources.len()
    &&& sources[i].is_default
    &&& forall|j: int| 0 <= j < i ==> !(#[trigger] sources[j]).is_default
}

/// The source to take out of at least one: the first that is marked as the default one, or
/// where none is, the first.
pub open spec fn default_of(sources: Seq<MonitorView>) -> MonitorView {
    if exists|i: int| #[trigger] first_default(sources, i) {
        sources[choose|i: int| #[trigger] first_default(sources, i)]
    } else {
        sources[0]
    }
}

/// The monitor of the default output device. Where none is marked as default, any
/// monitor is better than none: the first one.
pub fn default_monitor_source(listed: Result<Vec<MonitorSource>, String>) -> (r: Result<
    MonitorSource,
    String,
>)
    ensures
        match listed {
            Err(e) => r == Err::<MonitorSource, String>(e),
            Ok(sources) => if sources@.len() == 0 {
                r matches Err(e) && e@ == "No system audio source available"@
            } else {
                &&& r is Ok
                &&& forall|i: int|
                    #[trigger] first_default(views(sources@), i) ==> r->Ok_0@ == sources@[i]@
                &&& (forall|i: int|
                    0 <= i < sources@.len() ==> !(#[trigger] sources@[i]).is_default)
                    ==> r->Ok_0@ == sources@[0]@
                &&& r->Ok_0@ == default_of(views(sources@))
            },
        },
{
    let sources = match listed {
        Ok(sources) => sources,
        Err(e) => {
            return Err(e);
        },
    };
    if sources.len() == 0 {
        return Err("No system audio source available".to_owned());
    }
    let mut at: usize = 0;
    let mut i: usize = 0;
    while i < sources.len() && !sources[i].is_default
        invariant
            i <= sources@.len(),
            forall|j: int| 0 <= j < i ==> !(#[trigger] sources@[j]).is_default,
        decreases sources@.len() - i,
    {
        i = i + 1;
    }
    if i < sources.len() {
        at = i;
    }
    proof {
        assert forall|k: int| #[trigger] first_default(views(sources@), k) implies k == at by {
            assert(views(sources@)[k].is_default == sources@[k].is_default);
            if i < sources@.len() && k > i {
                assert(!views(sources@)[i as int].is_default);
            }
        }
        if i < sources@.len() {
            assert(forall|j: int|
                0 <= j < i ==> !(#[trigger] views(sources@)[j]).is_default);
            assert(first_default(views(sources@), i as int));
        } else {
            assert forall|k: int| !(#[trigger] first_default(views(sources@), k)) by {
                if first_default(views(sources@), k) {
                    assert(!sources@[k].is_default);
                }
            }
        }
    }
    let s = &sources[at];
    Ok(
        MonitorSource {
            name: s.name.clone(),
            description: s.description.clone(),
            is_default: s.is_default,
        },
    )
}

/// What a connection to the sound server is doing.
#[derive(Debug, Clone, Copy, PartialEq, Eq, Structural)]
pub enum ServerState {
    Ready,
    Failed,
    Terminated,
    /// Still on its way.
    Connecting,
}

/// What to do with a connection that is being set up.
#[derive(Debug, Clone, Copy, PartialEq, Eq, Structural)]
pub enum ConnectionStep {
    /// Run the request.
    Run,
    /// Give up: the server refused.
    Refused,
    /// Disconnect and give up: the server took too long.
    TimedOut,
    /// Wait for the server to speak.
    Wait,
}

/// What follows for a connection in this state.
pub open spec fn connection_next(state: ServerState, past_deadline: bool) -> ConnectionStep {
    match state {
        ServerState::Ready => ConnectionStep::Run,
        ServerState::Failed => ConnectionStep::Refused,
        ServerState::Terminated => ConnectionStep::Refused,
        ServerState::Connecting => if past_deadline {
            ConnectionStep::TimedOut
        } else {
            ConnectionStep::Wait
        },
    }
}

/// What to do once the server has spoken: a ready or refused connection is settled
/// whatever the time; only a connection on its way can time out.
pub fn connection_step(state: ServerState, past_deadline: bool) -> (r: ConnectionStep)
    ensures
        r == match state {
            ServerState::Ready => ConnectionStep::Run,
            ServerState::Failed => ConnectionStep::Refused,
            ServerState::Terminated => ConnectionStep::Refused,
            ServerState::Connecting => if past_deadline {
                ConnectionStep::TimedOut
            } else {
                ConnectionStep::Wait
            },
        },
        r == connection_next(state, past_deadline),
{
    match state {
        ServerState::Ready => ConnectionStep::Run,
        ServerState::Failed => ConnectionStep::Refused,
        ServerState::Terminated => ConnectionStep::Refused,
        ServerState::Connecting => if past_deadline {
            ConnectionStep::TimedOut
        } else {
            ConnectionStep::Wait
        },
    }
}

/// The error of a connection that is given up.
pub fn connection_error(step: ConnectionStep) -> (r: Option<String>)
    ensures
        match step {
            ConnectionStep::Refused => r matches Some(e) && e@
                == "The sound server refused the connection"@,
            ConnectionStep::TimedOut => r matches Some(e) && e@
                == "Timed out connecting to the sound server"@,
            _ => r is None,
        },
{
    match step {
        ConnectionStep::Refused => Some("The sound server refused the connection".to_owned()),
        ConnectionStep::TimedOut => Some("Timed out connecting to the sound server".to_owned()),
        _ => None,
    }
}

/// What to do about a query that was sent to the server.
#[derive(Debug, Clone, Copy, PartialEq, Eq, Structural)]
pub enum QueryStep {
    /// The server has answered.
    Answered,
    /// Wait for the server to speak.
    Wait,
    /// Give up: the server took too long.
    TimedOut,
}

/// What follows for a query that runs or has been answered.
pub open spec fn query_next(running: bool, past_deadline: bool) -> QueryStep {
    if past_deadline {
        QueryStep::TimedOut
    } else if running {
        QueryStep::Wait
    } else {
        QueryStep::Answered
    }
}

/// What to do about a query. The time is looked at after each wait, before the answer is: an
/// answer that came with the deadline passed is too late. Before the first wait no time has
/// passed, so a query that is answered at once is never too late.
pub fn query_step(running: bool, past_deadline: bool) -> (r: QueryStep)
    ensures
        r == if past_deadline {
            QueryStep::TimedOut
        } else if running {
            QueryStep::Wait
        } else {
            QueryStep::Answered
        },
        r == query_next(running, past_deadline),
{
    if past_deadline {
        QueryStep::TimedOut
    } else if running {
        QueryStep::Wait
    } else {
        QueryStep::Answered
    }
}

/// The error of a query that is given up.
pub fn query_error(step: QueryStep) -> (r: Option<String>)
    ensures
        match step {
            QueryStep::TimedOut => r matches Some(e) && e@
                == "The sound server stopped responding"@,
            _ => r is None,
        },
{
    match step {
        QueryStep::TimedOut => Some("The sound server stopped responding".to_owned()),
        _ => None,
    }
}

/// How much one read of a capture takes.
#[derive(Debug, Clone, Copy, PartialEq, Eq, Structural)]
pub struct ReadPlan {
    pub frames: u64,
    pub bytes: u64,
    /// The fragment size asked of the server, in the server's 32 bits.
    pub fragsize: u32,
}

/// The plan reads one window at this sample rate, in frames of so many bytes.
pub open spec fn plans(p: ReadPlan, sample_rate: u32, bytes_per_frame: u32) -> bool {
    &&& p.frames == sample_rate as nat * READ_WINDOW_MS as nat / 1000
    &&& p.bytes == p.frames * bytes_per_frame
    &&& p.fragsize as int == p.bytes as int % 0x1_0000_0000
}

/// The read window at a sample rate, for frames of so many bytes.
pub fn read_plan(sample_rate: u32, bytes_per_frame: u32) -> (r: ReadPlan)
    ensures
        plans(r, sample_rate, bytes_per_frame),
        r.bytes <= u32::MAX ==> r.fragsize == r.bytes,
{
    let frames: u64 = sample_rate as u64 * READ_WINDOW_MS / 1000;
    proof {
        assert(frames * bytes_per_frame <= 0x1000_0000 * 0x1_0000_0000) by (nonlinear_arith)
            requires
                frames <= 0x1000_0000,
                bytes_per_frame <= 0x1_0000_0000,
        ;
    }
    let bytes: u64 = frames * bytes_per_frame as u64;
    ReadPlan { frames, bytes, fragsize: (bytes % 0x1_0000_0000) as u32 }
}

/// The text that refuses a capture format.
pub open spec fn invalid_format_text(channels: u8, sample_rate: u32) -> Seq<char> {
    "Invalid capture format: "@ + text::decimal(channels as nat) + " channel(s) at "@
        + text::decimal(sample_rate as nat) + " Hz"@
}

/// The refusal of a capture format.
pub fn invalid_format(channels: u8, sample_rate: u32) -> (r: String)
    ensures
        r@ == invalid_format_text(channels, sample_rate),
{
    let mut out = "Invalid capture format: ".to_owned();
    text::push_decimal(&mut out, channels as u64);
    out.append(" channel(s) at ");
    text::push_decimal(&mut out, sample_rate as u64);
    out.append(" Hz");
    out
}

/// What opening a capture begins with. The sound library gives the bytes of a frame, or none
/// where it rejects the format: then the capture fails here, before any thread is started.
pub fn open_plan(channels: u8, sample_rate: u32, frame_bytes: Option<u32>) -> (r: Result<
    ReadPlan,
    String,
>)
    ensures
        match frame_bytes {
            Some(n) => r matches Ok(p) && plans(p, sample_rate, n),
            None => r matches Err(e) && e@ == invalid_format_text(channels, sample_rate),
        },
{
    match frame_bytes {
        Some(n) => Ok(read_plan(sample_rate, n)),
        None => Err(invalid_format(channels, sample_rate)),
    }
}

/// Milliseconds that the server has to answer a request or to open a stream.
pub const SERVER_TIMEOUT_MS: u64 = 2000;

/// Microseconds that one wait for the server lasts.
pub const POLL_TIMEOUT_US: u64 = 50000;

/// Milliseconds that a stopped capture waits for its thread.
pub const STOP_TIMEOUT_MS: u64 = 500;

/// What the capture thread says of opening its stream.
#[derive(Debug, Clone)]
pub enum OpenReply {
    Opened,
    Refused(String),
    /// It said nothing in time.
    Silent,
}

/// Why a capture of that source does not run; nothing where it runs.
pub open spec fn open_error(source: Seq<char>, reply: OpenReply) -> Option<Seq<char>> {
    match reply {
        OpenReply::Opened => None,
        OpenReply::Refused(e) => Some(
            "Could not open system audio source '"@ + source + "': "@ + e@,
        ),
        OpenReply::Silent => Some("Timed out opening system audio source '"@ + source + "'"@),
    }
}

/// Whether the capture runs, and if not, why.
pub fn open_outcome(source: &str, reply: &OpenReply) -> (r: Result<(), String>)
    ensures
        match open_error(source@, *reply) {
            None => r is Ok,
            Some(e) => r matches Err(m) && m@ == e,
        },
{
    match reply {
        OpenReply::Opened => Ok(()),
        OpenReply::Refused(e) => Err(
            text::concat4("Could not open system audio source '", source, "': ", e.as_str()),
        ),
        OpenReply::Silent => Err(
            text::concat3("Timed out opening system audio source '", source, "'"),
        ),
    }
}

/// What becomes of a capture thread.
#[derive(Debug, Clone, Copy, PartialEq, Eq, Structural)]
pub enum ThreadFate {
    /// It goes on capturing, and the handle owns it.
    Capture,
    /// It is at its end: wait for it.
    Join,
    /// It may hang: it is told to stop, and nobody waits for it.
    Abandon,
}

/// The fate of the thread that gave this reply.
pub open spec fn fate_of(reply: OpenReply) -> ThreadFate {
    match reply {
        OpenReply::Opened => ThreadFate::Capture,
        OpenReply::Refused(_) => ThreadFate::Join,
        OpenReply::Silent => ThreadFate::Abandon,
    }
}

/// What becomes of the thread once it has replied, or has not in time.
pub fn thread_after_open(reply: &OpenReply) -> (r: ThreadFate)
    ensures
        r == fate_of(*reply),
{
    match reply {
        OpenReply::Opened => ThreadFate::Capture,
        OpenReply::Refused(_) => ThreadFate::Join,
        OpenReply::Silent => ThreadFate::Abandon,
    }
}

/// The fate of the thread of a stopped capture.
pub open spec fn fate_after_stop(ended_in_time: bool) -> ThreadFate {
    if ended_in_time {
        ThreadFate::Join
    } else {
        ThreadFate::Abandon
    }
}

/// What becomes of the thread of a capture that was told to stop: a read can hang without
/// bound, so a thread that did not end in time is left alone.
pub fn thread_after_stop(ended_in_time: bool) -> (r: ThreadFate)
    ensures
        r == if ended_in_time {
            ThreadFate::Join
        } else {
            ThreadFate::Abandon
        },
        r == fate_after_stop(ended_in_time),
{
    if ended_in_time {
        ThreadFate::Join
    } else {
        ThreadFate::Abandon
    }
}

/// How opening a capture ends: with an error or without, and with a thread or without. The
/// reply is the thread's; a format that the sound library rejects starts none.
pub struct Opening {
    pub error: Option<Seq<char>>,
    pub thread: Option<ThreadFate>,
}

/// How opening this source in this format ends.
pub open spec fn opening(
    source: Seq<char>,
    channels: u8,
    sample_rate: u32,
    frame_bytes: Option<u32>,
    reply: OpenReply,
) -> Opening {
    match frame_bytes {
        None => Opening {
            error: Some(invalid_format_text(channels, sample_rate)),
            thread: None,
        },
        Some(_) => Opening { error: open_error(source, reply), thread: Some(fate_of(reply)) },
    }
}

/// Opening succeeds if and only if the format is valid and the server opened the stream. Only
/// then does a thread go on capturing, and an invalid format starts none at all.
pub proof fn law_failed_openings_leave_no_capture(
    source: Seq<char>,
    channels: u8,
    sample_rate: u32,
    frame_bytes: Option<u32>,
    reply: OpenReply,
)
    ensures
        opening(source, channels, sample_rate, frame_bytes, reply).error is None
            <==> frame_bytes is Some && reply is Opened,
        opening(source, channels, sample_rate, frame_bytes, reply).error is None <==> opening(
            source,
            channels,
            sample_rate,
            frame_bytes,
            reply,
        ).thread == Some(ThreadFate::Capture),
        opening(source, channels, sample_rate, frame_bytes, reply).thread is None
            <==> frame_bytes is None,
{
}

/// A source is listed if and only if the server described it by a name and as the monitor of
/// an output device, and it is marked as default if and only if that is the default one.
pub proof fn law_listed_sources_are_the_monitors(
    infos: Seq<SourceInfo>,
    default_sink: Option<Seq<char>>,
    m: MonitorView,
)
    ensures
        monitors_of(infos, default_sink).contains(m) <==> exists|k: int|
            0 <= k < infos.len() && #[trigger] describes(infos[k], default_sink, m),
    decreases infos.len(),
{
    let all = monitors_of(infos, default_sink);
    if infos.len() == 0 {
        assert(!all.contains(m));
    } else {
        let head = infos.drop_last();
        let before = monitors_of(head, default_sink);
        let last = infos.len() - 1;
        law_listed_sources_are_the_monitors(head, default_sink, m);
        if all.contains(m) {
            let i = choose|i: int| 0 <= i < all.len() && all[i] == m;
            if i < before.len() {
                assert(before[i] == m);
                let k = choose|k: int|
                    0 <= k < head.len() && #[trigger] describes(head[k], default_sink, m);
                assert(describes(infos[k], default_sink, m));
            } else {
                assert(describes(infos[last], default_sink, m));
            }
        }
        if exists|k: int| 0 <= k < infos.len() && #[trigger] describes(infos[k], default_sink, m) {
            let k = choose|k: int|
                0 <= k < infos.len() && #[trigger] describes(infos[k], default_sink, m);
            if k < last {
                assert(describes(head[k], default_sink, m));
                let i = choose|i: int| 0 <= i < before.len() && before[i] == m;
                assert(all[i] == m);
            } else {
                assert(all[before.len() as int] == m);
            }
        }
    }
}

/// The description stands for this monitor source.
pub open spec fn describes(
    info: SourceInfo,
    default_sink: Option<Seq<char>>,
    m: MonitorView,
) -> bool {
    &&& info.monitor_of_sink is Some
    &&& text::opt_text(info.name) == Some(m.name)
    &&& m.description == text::text_or(text::opt_text(info.description), m.name)
    &&& m.is_default <==> default_sink is Some && text::opt_text(info.monitor_of_sink_name)
        == default_sink
}

/// Sources are looked at one by one, in their order: a source that the server calls a monitor
/// and gives a name is listed under that name, with its description if it has one, and any
/// other is left out.
pub proof fn law_sources_are_listed_one_by_one(
    some: Seq<SourceInfo>,
    more: Seq<SourceInfo>,
    default_sink: Option<Seq<char>>,
)
    ensures
        monitors_of(some + more, default_sink) == monitors_of(some, default_sink) + monitors_of(
            more,
            default_sink,
        ),
        some.len() == 1 && some[0].monitor_of_sink is Some && some[0].name is Some ==> {
            let listed = monitors_of(some, default_sink);
            &&& listed.len() == 1
            &&& listed[0].name == some[0].name->0@
            &&& some[0].description is Some ==> listed[0].description == some[0].description->0@
            &&& some[0].description is None ==> listed[0].description == some[0].name->0@
            &&& listed[0].is_default <==> some[0].monitor_of_sink_name is Some && default_sink
                == Some(some[0].monitor_of_sink_name->0@)
        },
        some.len() == 1 && (some[0].monitor_of_sink is None || some[0].name is None)
            ==> monitors_of(some, default_sink).len() == 0,
    decreases more.len(),
{
    if more.len() > 0 {
        law_sources_are_listed_one_by_one(some, more.drop_last(), default_sink);
        assert((some + more).drop_last() =~= some + more.drop_last());
        assert((some + more).last() == more.last());
    } else {
        assert(some + more =~= some);
        assert(monitors_of(some, default_sink) + monitors_of(more, default_sink) =~= monitors_of(
            some,
            default_sink,
        ));
    }
    if some.len() == 1 {
        assert(some.drop_last() =~= Seq::empty());
        reveal_with_fuel(monitors_of, 2);
    }
}

proof fn lemma_first_default(sources: Seq<MonitorView>, k: int)
    requires
        0 <= k < sources.len(),
        sources[k].is_default,
    ensures
        exists|i: int| #[trigger] first_default(sources, i),
    decreases k,
{
    if exists|j: int| 0 <= j < k && (#[trigger] sources[j]).is_default {
        let j = choose|j: int| 0 <= j < k && (#[trigger] sources[j]).is_default;
        lemma_first_default(sources, j);
    } else {
        assert(first_default(sources, k));
    }
}

/// A default source is taken if and only if there is one, and the first of several. Where
/// there is none the first source is taken. What comes after the one that is taken does not
/// matter.
pub proof fn law_the_first_default_is_taken(some: Seq<MonitorView>, more: Seq<MonitorView>)
    requires
        some.len() > 0,
    ensures
        some.contains(default_of(some)),
        default_of(some).is_default <==> exists|k: int|
            0 <= k < some.len() && (#[trigger] some[k]).is_default,
        default_of(some).is_default ==> default_of(some + more) == default_of(some),
        !default_of(some).is_default && more.len() > 0 && default_of(more).is_default
            ==> default_of(some + more) == default_of(more),
        !default_of(some).is_default ==> default_of(some) == some[0],
        !default_of(some + more).is_default ==> default_of(some + more) == some[0],
{
    let all = some + more;
    assert(some[0] == all[0]);
    if exists|i: int| #[trigger] first_default(some, i) {
        let i = choose|i: int| #[trigger] first_default(some, i);
        assert(some.contains(some[i]));
        assert forall|j: int| 0 <= j < i implies !(#[trigger] all[j]).is_default by {
            assert(all[j] == some[j]);
        }
        assert(first_default(all, i));
        let k = choose|k: int| #[trigger] first_default(all, k);
        if k < i {
            assert(!all[k].is_default);
        }
        if i < k {
            assert(!all[i].is_default);
        }
    } else {
        assert(some.contains(some[0]));
        assert forall|k: int| 0 <= k < some.len() implies !(#[trigger] some[k]).is_default by {
            if some[k].is_default {
                lemma_first_default(some, k);
            }
        }
        if exists|i: int| #[trigger] first_default(more, i) {
            let i = choose|i: int| #[trigger] first_default(more, i);
            let n = some.len() as int;
            assert forall|j: int| 0 <= j < n + i implies !(#[trigger] all[j]).is_default by {
                if j < n {
                    assert(all[j] == some[j]);
                } else {
                    assert(all[j] == more[j - n]);
                }
            }
            assert(first_default(all, n + i));
            let k = choose|k: int| #[trigger] first_default(all, k);
            if k < n + i {
                assert(!all[k].is_default);
            }
            if n + i < k {
                assert(!all[n + i].is_default);
            }
        }
        if more.len() > 0 && default_of(more).is_default && !(exists|i: int| #[trigger]
            first_default(more, i)) {
            lemma_first_default(more, 0);
        }
    }
    if exists|i: int| #[trigger] first_default(all, i) {
        let k = choose|k: int| #[trigger] first_default(all, k);
        assert(default_of(all) == all[k]);
    }
}

/// A ready connection is used and a lost one given up, whatever the time. One on its way is
/// waited for until the deadline, and no longer.
pub proof fn law_connections_are_not_waited_for_forever(state: ServerState, past_deadline: bool)
    ensures
        connection_next(state, past_deadline) == ConnectionStep::Run <==> state
            == ServerState::Ready,
        connection_next(state, past_deadline) == ConnectionStep::Refused <==> state
            == ServerState::Failed || state == ServerState::Terminated,
        connection_next(state, past_deadline) == ConnectionStep::Wait <==> state
            == ServerState::Connecting && !past_deadline,
{
}

/// An answer counts if and only if it came before the deadline, and no query is waited for
/// beyond it.
pub proof fn law_queries_are_not_waited_for_forever(running: bool, past_deadline: bool)
    ensures
        query_next(running, past_deadline) == QueryStep::Answered <==> !running && !past_deadline,
        query_next(running, past_deadline) == QueryStep::Wait <==> running && !past_deadline,
{
}

/// One read takes as many whole frames as 20 milliseconds hold, and all their bytes; the
/// server is asked for just as many wherever it can be told the number.
pub proof fn law_reads_take_whole_frames(p: ReadPlan, sample_rate: u32, bytes_per_frame: u32)
    requires
        plans(p, sample_rate, bytes_per_frame),
    ensures
        p.frames * 1000 <= sample_rate * 20 < (p.frames + 1) * 1000,
        p.bytes == p.frames * bytes_per_frame,
        p.bytes <= u32::MAX ==> p.fragsize == p.bytes,
{
}

/// A capture runs if and only if its stream was opened. An error names the source, and the
/// cause where the server gave one.
pub proof fn law_opening_errors_name_the_source(source: Seq<char>, reply: OpenReply)
    ensures
        open_error(source, reply) is None <==> reply is Opened,
        reply !is Opened ==> text::has(open_error(source, reply)->0, source),
        reply is Refused ==> text::has(open_error(source, reply)->0, reply->Refused_0@),
{
    match reply {
        OpenReply::Opened => {},
        OpenReply::Refused(e) => {
            let start = "Could not open system audio source '"@;
            let none = Seq::<char>::empty();
            text::law_pieces_stand_in_the_whole(start, source, "': "@ + e@);
            assert(start + source + ("': "@ + e@) =~= start + source + "': "@ + e@);
            text::law_pieces_stand_in_the_whole(start + source + "': "@, e@, none);
            assert(start + source + "': "@ + e@ + none =~= start + source + "': "@ + e@);
        },
        OpenReply::Silent => {
            text::law_pieces_stand_in_the_whole(
                "Timed out opening system audio source '"@,
                source,
                "'"@,
            );
        },
    }
}

/// The refusal of a format names both of its numbers.
pub proof fn law_refused_formats_are_named(channels: u8, sample_rate: u32)
    ensures
        text::has(invalid_format_text(channels, sample_rate), text::decimal(channels as nat)),
        text::has(invalid_format_text(channels, sample_rate), text::decimal(sample_rate as nat)),
{
    let whole = invalid_format_text(channels, sample_rate);
    let start = "Invalid capture format: "@;
    let c = text::decimal(channels as nat);
    let mid = " channel(s) at "@;
    let r = text::decimal(sample_rate as nat);
    text::law_pieces_stand_in_the_whole(start, c, mid + r + " Hz"@);
    assert(start + c + (mid + r + " Hz"@) =~= whole);
    text::law_pieces_stand_in_the_whole(start + c + mid, r, " Hz"@);
}

/// The thread of a stopped capture never goes on capturing, and is waited for if and only if
/// it has ended.
pub proof fn law_stopped_threads_do_not_capture(ended_in_time: bool)
    ensures
        fate_after_stop(ended_in_time) != ThreadFate::Capture,
        fate_after_stop(ended_in_time) == ThreadFate::Join <==> ended_in_time,
{
}

} // verus!
