//! Decisions of a recording session: what is captured and followed, in which order it is
//! taken down, and what a lost device leads to.
use crate::audio::device_monitor;
use crate::audio::device_monitor::DeviceMonitorType;
use crate::text;
use vstd::prelude::*;

verus! {

/// The stream manager in use.
pub enum StreamManagerType<S> {
    Standard(S),
}

/// What the mixer adapts its buffers to.
#[derive(Debug, Clone, Copy, PartialEq, Eq, Structural)]
pub enum InputDeviceKind {
    Wired,
    Bluetooth,
    Unknown,
}

/// A device to capture from, with its kind.
#[derive(Debug, Clone)]
pub struct CaptureDevice {
    pub name: String,
    pub kind: InputDeviceKind,
}

/// What a session knows between its steps.
#[derive(Debug, Clone, Copy, PartialEq, Eq, Structural)]
pub struct RecordingManager {
    /// The microphone came from the system's default and follows it.
    pub follow_default_mic: bool,
    /// The system audio device came from the system's default and follows it.
    pub follow_default_system: bool,
    /// The kinds that the mixer was set up for.
    pub mic_device_kind: Option<InputDeviceKind>,
    pub system_device_kind: Option<InputDeviceKind>,
}

/// How the channels of a recording are laid out, by their number.
#[derive(Debug, Clone, Copy, PartialEq, Eq, Structural)]
pub struct RecordingMode {
    pub channels: u16,
}

impl RecordingMode {
    /// All sound in one channel.
    pub fn mono() -> (r: RecordingMode)
        ensures
            r.channels == 1,
    {
        RecordingMode { channels: 1 }
    }

    /// The number of channels.
    pub fn channels(&self) -> (r: u16)
        ensures
            r == self.channels,
    {
        self.channels
    }
}

/// How a session is to be started once its devices are chosen.
#[derive(Debug, Clone, Copy, PartialEq, Eq, Structural)]
pub struct StartRequest {
    /// The audio is saved, not only the transcript.
    pub auto_save: bool,
    pub mode: RecordingMode,
}

/// All that starting a session hands to its parts.
#[derive(Debug, Clone)]
pub struct StartPlan {
    /// Is the mixed audio that is collected saved, and in how many channels?
    pub auto_save: bool,
    pub channels: u16,
    /// The layout for the mixer.
    pub mode: RecordingMode,
    /// Names and kinds for the mixer.
    pub mic_name: String,
    pub mic_kind: InputDeviceKind,
    pub system_name: String,
    pub system_kind: InputDeviceKind,
    /// Device names for the recording's metadata.
    pub saved_mic: Option<String>,
    pub saved_system: Option<String>,
    /// Names for the watcher of the system's defaults; it starts if there is any.
    pub watched_mic: Option<String>,
    pub watched_system: Option<String>,
}

/// A plan as texts.
pub struct PlanView {
    pub auto_save: bool,
    pub channels: u16,
    pub mic_name: Seq<char>,
    pub mic_kind: InputDeviceKind,
    pub system_name: Seq<char>,
    pub system_kind: InputDeviceKind,
    pub saved_mic: Option<Seq<char>>,
    pub saved_system: Option<Seq<char>>,
    pub watched_mic: Option<Seq<char>>,
    pub watched_system: Option<Seq<char>>,
}

impl View for StartPlan {
    type V = PlanView;

    open spec fn view(&self) -> PlanView {
        PlanView {
            auto_save: self.auto_save,
            channels: self.channels,
            mic_name: self.mic_name@,
            mic_kind: self.mic_kind,
            system_name: self.system_name@,
            system_kind: self.system_kind,
            saved_mic: text::opt_text(self.saved_mic),
            saved_system: text::opt_text(self.saved_system),
            watched_mic: text::opt_text(self.watched_mic),
            watched_system: text::opt_text(self.watched_system),
        }
    }
}

/// What a session that knows this hands to its parts when it starts with these devices.
pub open spec fn planned(
    m: RecordingManager,
    microphone: Option<CaptureDevice>,
    system_audio: Option<CaptureDevice>,
    auto_save: bool,
    mode: RecordingMode,
) -> PlanView {
    PlanView {
        auto_save,
        channels: mode.channels,
        mic_name: text::text_or(text::opt_text(name_of(microphone)), "No Microphone"@),
        mic_kind: match kind_of(microphone) {
            Some(k) => k,
            None => InputDeviceKind::Unknown,
        },
        system_name: text::text_or(text::opt_text(name_of(system_audio)), "No System Audio"@),
        system_kind: match kind_of(system_audio) {
            Some(k) => k,
            None => InputDeviceKind::Unknown,
        },
        saved_mic: text::opt_text(name_of(microphone)),
        saved_system: text::opt_text(name_of(system_audio)),
        watched_mic: if m.follow_default_mic {
            text::opt_text(name_of(microphone))
        } else {
            None
        },
        watched_system: if m.follow_default_system {
            text::opt_text(name_of(system_audio))
        } else {
            None
        },
    }
}

/// The session and the request after a start with the default devices; the error where there
/// is no microphone.
pub open spec fn with_defaults(
    m: RecordingManager,
    platform: Platform,
    has_microphone: bool,
    has_system_audio: bool,
    auto_save: bool,
) -> Result<(RecordingManager, StartRequest), Seq<char>> {
    if !has_microphone {
        Err(
            match platform {
                Platform::MacOs => "❌ No microphone device available for recording"@,
                Platform::Other => "No microphone device available"@,
            },
        )
    } else {
        Ok(
            (
                RecordingManager {
                    follow_default_mic: platform == Platform::Other,
                    follow_default_system: platform == Platform::Other && has_system_audio,
                    ..m
                },
                StartRequest { auto_save, mode: RecordingMode { channels: 1 } },
            ),
        )
    }
}

/// The name of a device, if there is one.
pub open spec fn name_of(d: Option<CaptureDevice>) -> Option<String> {
    match d {
        Some(d) => Some(d.name),
        None => None,
    }
}

/// The kind of a device, if there is one.
pub open spec fn kind_of(d: Option<CaptureDevice>) -> Option<InputDeviceKind> {
    match d {
        Some(d) => Some(d.kind),
        None => None,
    }
}

fn device_name(d: &Option<CaptureDevice>) -> (r: Option<String>)
    ensures
        r == name_of(*d),
{
    match d {
        Some(d) => Some(d.name.clone()),
        None => None,
    }
}

fn device_kind(d: &Option<CaptureDevice>) -> (r: Option<InputDeviceKind>)
    ensures
        r == kind_of(*d),
{
    match d {
        Some(d) => Some(d.kind),
        None => None,
    }
}

/// Is the session on a Mac, where a wired device is preferred to a Bluetooth default?
#[derive(Debug, Clone, Copy, PartialEq, Eq, Structural)]
pub enum Platform {
    MacOs,
    Other,
}

impl RecordingManager {
    /// A session that follows no default.
    pub fn new() -> (r: RecordingManager)
        ensures
            r == (RecordingManager {
                follow_default_mic: false,
                follow_default_system: false,
                mic_device_kind: None,
                system_device_kind: None,
            }),
    {
        RecordingManager {
            follow_default_mic: false,
            follow_default_system: false,
            mic_device_kind: None,
            system_device_kind: None,
        }
    }

    /// Says which roles came from the system's default and move with it.
    pub fn set_follow_system_default(&mut self, microphone: bool, system_audio: bool)
        ensures
            *final(self) == (RecordingManager {
                follow_default_mic: microphone,
                follow_default_system: system_audio,
                ..*old(self)
            }),
    {
        self.follow_default_mic = microphone;
        self.follow_default_system = system_audio;
    }

    /// A session with the default devices, in one channel, with the audio saved or not as
    /// asked: there must be a microphone. Roles taken from the system's default follow it,
    /// except on a Mac: there the devices were chosen to avoid a Bluetooth default, and
    /// following it would bring that one back.
    pub fn start_recording_with_defaults_and_auto_save(
        &mut self,
        platform: Platform,
        has_microphone: bool,
        has_system_audio: bool,
        auto_save: bool,
    ) -> (r: Result<StartRequest, String>)
        ensures
            match (
                r,
                with_defaults(*old(self), platform, has_microphone, has_system_audio, auto_save),
            ) {
                (Ok(request), Ok((after, asked))) => request == asked && *final(self) == after,
                (Err(e), Err(said)) => e@ == said && *final(self) == *old(self),
                _ => false,
            },
            match r {
                Ok(request) => has_microphone && request == (StartRequest {
                    auto_save,
                    mode: RecordingMode { channels: 1 },
                }) && *final(self) == (RecordingManager {
                    follow_default_mic: platform == Platform::Other,
                    follow_default_system: platform == Platform::Other && has_system_audio,
                    ..*old(self)
                }),
                Err(e) => !has_microphone && *final(self) == *old(self) && e@ == match platform {
                    Platform::MacOs => "❌ No microphone device available for recording"@,
                    Platform::Other => "No microphone device available"@,
                },
            },
    {
        if !has_microphone {
            return Err(
                match platform {
                    Platform::MacOs => "❌ No microphone device available for recording".to_owned(),
                    Platform::Other => "No microphone device available".to_owned(),
                },
            );
        }
        match platform {
            Platform::MacOs => self.set_follow_system_default(false, false),
            Platform::Other => self.set_follow_system_default(true, has_system_audio),
        }
        Ok(StartRequest { auto_save, mode: RecordingMode::mono() })
    }

    /// What starting with these devices hands to the parts of the session, once its state
    /// has started.
    pub fn start_recording(
        &mut self,
        microphone: &Option<CaptureDevice>,
        system_audio: &Option<CaptureDevice>,
        auto_save: bool,
        recording_mode: RecordingMode,
    ) -> (plan: StartPlan)
        ensures
            plan@ == planned(*old(self), *microphone, *system_audio, auto_save, recording_mode),
            plan.auto_save == auto_save,
            plan.channels == recording_mode.channels,
            plan.mode == recording_mode,
            *final(self) == (RecordingManager {
                mic_device_kind: kind_of(*microphone),
                system_device_kind: kind_of(*system_audio),
                ..*old(self)
            }),
            plan.mic_name@ == text::text_or(
                text::opt_text(name_of(*microphone)),
                "No Microphone"@,
            ),
            plan.mic_kind == match kind_of(*microphone) {
                Some(k) => k,
                None => InputDeviceKind::Unknown,
            },
            plan.system_name@ == text::text_or(
                text::opt_text(name_of(*system_audio)),
                "No System Audio"@,
            ),
            plan.system_kind == match kind_of(*system_audio) {
                Some(k) => k,
                None => InputDeviceKind::Unknown,
            },
            plan.saved_mic == name_of(*microphone),
            plan.saved_system == name_of(*system_audio),
            plan.watched_mic == if old(self).follow_default_mic {
                name_of(*microphone)
            } else {
                None
            },
            plan.watched_system == if old(self).follow_default_system {
                name_of(*system_audio)
            } else {
                None
            },
    {
        self.mic_device_kind = device_kind(microphone);
        self.system_device_kind = device_kind(system_audio);
        let (mic_name, mic_kind) = match microphone {
            Some(d) => (d.name.clone(), d.kind),
            None => ("No Microphone".to_owned(), InputDeviceKind::Unknown),
        };
        let (system_name, system_kind) = match system_audio {
            Some(d) => (d.name.clone(), d.kind),
            None => ("No System Audio".to_owned(), InputDeviceKind::Unknown),
        };
        let watched_mic = if self.follow_default_mic {
            device_name(microphone)
        } else {
            None
        };
        let watched_system = if self.follow_default_system {
            device_name(system_audio)
        } else {
            None
        };
        StartPlan {
            auto_save,
            channels: recording_mode.channels(),
            mode: recording_mode,
            mic_name,
            mic_kind,
            system_name,
            system_kind,
            saved_mic: device_name(microphone),
            saved_system: device_name(system_audio),
            watched_mic,
            watched_system,
        }
    }

    /// Does a stream that is swapped in come from a device of another kind than the mixer
    /// was set up for? The mixer keeps its buffers; this is worth a warning.
    pub fn install_migrated_stream(
        &self,
        role: DeviceMonitorType,
        new_kind: InputDeviceKind,
    ) -> (kind_changed: bool)
        ensures
            kind_changed == match role {
                DeviceMonitorType::Microphone => self.mic_device_kind is Some
                    && self.mic_device_kind != Some(new_kind),
                DeviceMonitorType::SystemAudio => self.system_device_kind is Some
                    && self.system_device_kind != Some(new_kind),
            },
            kind_changed == kind_changes(
                match role {
                    DeviceMonitorType::Microphone => self.mic_device_kind,
                    DeviceMonitorType::SystemAudio => self.system_device_kind,
                },
                new_kind,
            ),
    {
        let previous = match role {
            DeviceMonitorType::Microphone => self.mic_device_kind,
            DeviceMonitorType::SystemAudio => self.system_device_kind,
        };
        match previous {
            Some(kind) => kind != new_kind,
            None => false,
        }
    }
}

impl Default for RecordingManager {
    fn default() -> (r: RecordingManager)
        ensures
            !r.follow_default_mic && !r.follow_default_system && r.mic_device_kind is None
                && r.system_device_kind is None,
    {
        RecordingManager::new()
    }
}

/// Milliseconds that a started pipeline gets before the streams start.
pub const PIPELINE_PAUSE_MS: u64 = 50;

/// Milliseconds between stopping the streams and starting them again.
pub const RESTART_PAUSE_MS: u64 = 100;

/// What is done next to start a session.
#[derive(Debug, Clone, Copy, PartialEq, Eq, Structural)]
pub enum StartStep {
    /// Open what collects the mixed audio.
    Accumulate,
    StartState,
    /// Work out the plan and note the devices.
    Configure,
    StartPipeline,
    /// The streams feed the pipeline, so they start after it.
    StartStreams,
    StartMonitor,
    StartWatcher,
    Running,
    Failed,
}

/// The step after one that was done or not. A session needs its state, its pipeline and its
/// streams; it runs without a monitor.
pub open spec fn start_after(step: StartStep, done: bool, watches: bool) -> StartStep {
    match step {
        StartStep::Accumulate => StartStep::StartState,
        StartStep::StartState => if done {
            StartStep::Configure
        } else {
            StartStep::Failed
        },
        StartStep::Configure => StartStep::StartPipeline,
        StartStep::StartPipeline => if done {
            StartStep::StartStreams
        } else {
            StartStep::Failed
        },
        StartStep::StartStreams => if done {
            StartStep::StartMonitor
        } else {
            StartStep::Failed
        },
        StartStep::StartMonitor => if watches {
            StartStep::StartWatcher
        } else {
            StartStep::Running
        },
        StartStep::StartWatcher => StartStep::Running,
        StartStep::Running => StartStep::Running,
        StartStep::Failed => StartStep::Failed,
    }
}

impl StartStep {
    /// The step after this one; `watches` says whether any default is followed.
    pub fn after(self, done: bool, watches: bool) -> (r: StartStep)
        ensures
            r == start_after(self, done, watches),
    {
        match self {
            StartStep::Accumulate => StartStep::StartState,
            StartStep::StartState => if done {
                StartStep::Configure
            } else {
                StartStep::Failed
            },
            StartStep::Configure => StartStep::StartPipeline,
            StartStep::StartPipeline => if done {
                StartStep::StartStreams
            } else {
                StartStep::Failed
            },
            StartStep::StartStreams => if done {
                StartStep::StartMonitor
            } else {
                StartStep::Failed
            },
            StartStep::StartMonitor => if watches {
                StartStep::StartWatcher
            } else {
                StartStep::Running
            },
            StartStep::StartWatcher => StartStep::Running,
            StartStep::Running => StartStep::Running,
            StartStep::Failed => StartStep::Failed,
        }
    }
}

impl StartPlan {
    /// Is there a default to follow?
    pub fn watches(&self) -> (r: bool)
        ensures
            r == (self.watched_mic is Some || self.watched_system is Some),
    {
        self.watched_mic.is_some() || self.watched_system.is_some()
    }
}

/// The steps of taking a session down. A step that fails does not stop the others.
#[derive(Debug, Clone, Copy, PartialEq, Eq, Structural)]
pub enum StopStep {
    ReadDuration,
    StopDeviceMonitor,
    StopDefaultWatcher,
    StopState,
    StopStreams,
    StopPipeline,
    /// Process all audio that has piled up, then stop the pipeline.
    FlushPipeline,
    /// Let go of all devices.
    CleanState,
    SaveRecording,
}

/// The ways of ending a session.
#[derive(Debug, Clone, Copy, PartialEq, Eq, Structural)]
pub enum StopMode {
    /// Stop without saving, while the transcription goes on.
    StreamsOnly,
    /// Stop without saving, with all audio processed at once.
    ForceFlush,
    /// Stop and save.
    StopAndSave,
    /// Save what was recorded.
    SaveOnly,
    /// Let go of everything without saving.
    CleanUp,
}

/// The steps of a way of ending a session, in order.
pub open spec fn stop_sequence(mode: StopMode, recording: bool) -> Seq<StopStep> {
    match mode {
        StopMode::StreamsOnly => seq![
            StopStep::StopDeviceMonitor,
            StopStep::StopDefaultWatcher,
            StopStep::StopState,
            StopStep::StopStreams,
            StopStep::StopPipeline,
        ],
        StopMode::ForceFlush => seq![
            StopStep::StopDeviceMonitor,
            StopStep::StopDefaultWatcher,
            StopStep::StopState,
            StopStep::StopStreams,
            StopStep::FlushPipeline,
            StopStep::CleanState,
        ],
        StopMode::StopAndSave => seq![
            StopStep::ReadDuration,
            StopStep::StopState,
            StopStep::StopStreams,
            StopStep::StopPipeline,
            StopStep::SaveRecording,
        ],
        StopMode::SaveOnly => seq![StopStep::ReadDuration, StopStep::SaveRecording],
        StopMode::CleanUp => if recording {
            seq![
                StopStep::StopState,
                StopStep::StopStreams,
                StopStep::StopPipeline,
                StopStep::CleanState,
            ]
        } else {
            seq![StopStep::CleanState]
        },
    }
}

/// The steps of a way of ending a session that is recording or not, in order.
pub fn stop_steps(mode: StopMode, recording: bool) -> (r: Vec<StopStep>)
    ensures
        r@ == stop_sequence(mode, recording),
{
    let mut steps: Vec<StopStep> = Vec::new();
    match mode {
        StopMode::StreamsOnly => {
            steps.push(StopStep::StopDeviceMonitor);
            steps.push(StopStep::StopDefaultWatcher);
            steps.push(StopStep::StopState);
            steps.push(StopStep::StopStreams);
            steps.push(StopStep::StopPipeline);
        },
        StopMode::ForceFlush => {
            steps.push(StopStep::StopDeviceMonitor);
            steps.push(StopStep::StopDefaultWatcher);
            steps.push(StopStep::StopState);
            steps.push(StopStep::StopStreams);
            steps.push(StopStep::FlushPipeline);
            steps.push(StopStep::CleanState);
        },
        StopMode::StopAndSave => {
            steps.push(StopStep::ReadDuration);
            steps.push(StopStep::StopState);
            steps.push(StopStep::StopStreams);
            steps.push(StopStep::StopPipeline);
            steps.push(StopStep::SaveRecording);
        },
        StopMode::SaveOnly => {
            steps.push(StopStep::ReadDuration);
            steps.push(StopStep::SaveRecording);
        },
        StopMode::CleanUp => {
            if recording {
                steps.push(StopStep::StopState);
                steps.push(StopStep::StopStreams);
                steps.push(StopStep::StopPipeline);
            }
            steps.push(StopStep::CleanState);
        },
    }
    proof {
        assert(steps@ =~= stop_sequence(mode, recording));
    }
    steps
}

/// The streams to run once a lost device is back: the device in its role, and what runs
/// in the other role.
#[derive(Debug, Clone)]
pub struct ReconnectPlan {
    pub microphone: Option<String>,
    pub system_audio: Option<String>,
}

/// The streams that run once a lost device of a role is back, the microphone's first; none
/// where the device is not there.
pub open spec fn streams_after(
    available: Seq<String>,
    device_name: Seq<char>,
    device_type: DeviceMonitorType,
    microphone: Option<Seq<char>>,
    system_audio: Option<Seq<char>>,
) -> Option<(Option<Seq<char>>, Option<Seq<char>>)> {
    if !text::texts(available).contains(device_name) {
        None
    } else {
        Some(
            match device_type {
                DeviceMonitorType::Microphone => (Some(device_name), system_audio),
                DeviceMonitorType::SystemAudio => (microphone, Some(device_name)),
            },
        )
    }
}

/// Looks for a lost device among the available ones. If it is there, the streams restart
/// with it, and the other role keeps its device.
pub fn attempt_device_reconnect(
    available: &[String],
    device_name: &String,
    device_type: DeviceMonitorType,
    microphone: &Option<String>,
    system_audio: &Option<String>,
) -> (r: Option<ReconnectPlan>)
    ensures
        match (
            r,
            streams_after(
                available@,
                device_name@,
                device_type,
                text::opt_text(*microphone),
                text::opt_text(*system_audio),
            ),
        ) {
            (Some(plan), Some((mic, system))) => text::opt_text(plan.microphone) == mic
                && text::opt_text(plan.system_audio) == system,
            (None, None) => true,
            _ => false,
        },
        match r {
            Some(plan) => device_monitor::listed(available@, *device_name) && match device_type {
                DeviceMonitorType::Microphone => plan.microphone == Some(*device_name)
                    && plan.system_audio == *system_audio,
                DeviceMonitorType::SystemAudio => plan.microphone == *microphone
                    && plan.system_audio == Some(*device_name),
            },
            None => !device_monitor::listed(available@, *device_name),
        },
{
    if !device_monitor::is_listed(available, device_name) {
        return None;
    }
    Some(
        match device_type {
            DeviceMonitorType::Microphone => ReconnectPlan {
                microphone: Some(device_name.clone()),
                system_audio: text::clone_opt(system_audio),
            },
            DeviceMonitorType::SystemAudio => ReconnectPlan {
                microphone: text::clone_opt(microphone),
                system_audio: Some(device_name.clone()),
            },
        },
    )
}

/// Is a device of this kind another than the mixer was set up for?
pub open spec fn kind_changes(set_up_for: Option<InputDeviceKind>, kind: InputDeviceKind) -> bool {
    set_up_for is Some && set_up_for != Some(kind)
}

/// The device of a role, if it has one.
pub open spec fn device_of(
    device_type: DeviceMonitorType,
    microphone: Option<String>,
    system_audio: Option<String>,
) -> Option<String> {
    match device_type {
        DeviceMonitorType::Microphone => microphone,
        DeviceMonitorType::SystemAudio => system_audio,
    }
}

/// The device that the session waits for once one of a role is lost; none where the role
/// has no device.
pub fn handle_device_disconnect(
    device_type: DeviceMonitorType,
    microphone: &Option<String>,
    system_audio: &Option<String>,
) -> (r: Option<String>)
    ensures
        r == match device_type {
            DeviceMonitorType::Microphone => *microphone,
            DeviceMonitorType::SystemAudio => *system_audio,
        },
        r == device_of(device_type, *microphone, *system_audio),
{
    match device_type {
        DeviceMonitorType::Microphone => text::clone_opt(microphone),
        DeviceMonitorType::SystemAudio => text::clone_opt(system_audio),
    }
}

/// Why a lost device is still waited for after an attempt; nothing where the wait is over.
pub open spec fn still_waiting(attempt: Result<bool, String>) -> Option<Seq<char>> {
    match attempt {
        Ok(true) => None,
        Ok(false) => Some("Device not available"@),
        Err(cause) => Some(cause@),
    }
}

/// Whether the wait for a lost device ends after an attempt to reconnect it: it ends if
/// and only if the result is `Ok`.
pub fn handle_device_reconnect(attempt: Result<bool, String>) -> (r: Result<(), String>)
    ensures
        match attempt {
            Ok(true) => r is Ok,
            Ok(false) => r matches Err(e) && e@ == "Device not available"@,
            Err(cause) => r == Err::<(), String>(cause),
        },
        match still_waiting(attempt) {
            None => r is Ok,
            Some(e) => r matches Err(m) && m@ == e,
        },
{
    match attempt {
        Ok(true) => Ok(()),
        Ok(false) => Err("Device not available".to_owned()),
        Err(cause) => Err(cause),
    }
}

/// What is done next to bring a lost device back.
#[derive(Debug, Clone, Copy, PartialEq, Eq, Structural)]
pub enum ReconnectStep {
    /// Look for the device.
    Find,
    StopStreams,
    /// Start the streams of the plan.
    StartStreams,
    /// Note the device in its role.
    Remember,
    /// The session no longer waits for the device.
    EndWait,
    Reconnected,
    /// The device is not there yet.
    NotAvailable,
    Failed,
}

/// What doing a step came to.
#[derive(Debug, Clone, Copy, PartialEq, Eq, Structural)]
pub enum ReconnectReply {
    Done,
    /// The device is not among those that are there.
    Missing,
    Failed,
}

/// The step after one that came to this.
pub open spec fn reconnect_after(step: ReconnectStep, reply: ReconnectReply) -> ReconnectStep {
    match (step, reply) {
        (ReconnectStep::Find, ReconnectReply::Done) => ReconnectStep::StopStreams,
        (ReconnectStep::Find, ReconnectReply::Missing) => ReconnectStep::NotAvailable,
        (ReconnectStep::Find, ReconnectReply::Failed) => ReconnectStep::Failed,
        (ReconnectStep::StopStreams, ReconnectReply::Done) => ReconnectStep::StartStreams,
        (ReconnectStep::StopStreams, _) => ReconnectStep::Failed,
        (ReconnectStep::StartStreams, ReconnectReply::Done) => ReconnectStep::Remember,
        (ReconnectStep::StartStreams, _) => ReconnectStep::Failed,
        (ReconnectStep::Remember, _) => ReconnectStep::EndWait,
        (ReconnectStep::EndWait, _) => ReconnectStep::Reconnected,
        (ReconnectStep::Reconnected, _) => ReconnectStep::Reconnected,
        (ReconnectStep::NotAvailable, _) => ReconnectStep::NotAvailable,
        (ReconnectStep::Failed, _) => ReconnectStep::Failed,
    }
}

impl ReconnectStep {
    /// The step after this one.
    pub fn after(self, reply: ReconnectReply) -> (r: ReconnectStep)
        ensures
            r == reconnect_after(self, reply),
    {
        match self {
            ReconnectStep::Find => match reply {
                ReconnectReply::Done => ReconnectStep::StopStreams,
                ReconnectReply::Missing => ReconnectStep::NotAvailable,
                ReconnectReply::Failed => ReconnectStep::Failed,
            },
            ReconnectStep::StopStreams => match reply {
                ReconnectReply::Done => ReconnectStep::StartStreams,
                _ => ReconnectStep::Failed,
            },
            ReconnectStep::StartStreams => match reply {
                ReconnectReply::Done => ReconnectStep::Remember,
                _ => ReconnectStep::Failed,
            },
            ReconnectStep::Remember => ReconnectStep::EndWait,
            ReconnectStep::EndWait => ReconnectStep::Reconnected,
            ReconnectStep::Reconnected => ReconnectStep::Reconnected,
            ReconnectStep::NotAvailable => ReconnectStep::NotAvailable,
            ReconnectStep::Failed => ReconnectStep::Failed,
        }
    }
}

/// Where a start stands after a number of steps.
pub open spec fn start_run(replies: Seq<bool>, watches: bool) -> StartStep
    decreases replies.len(),
{
    if replies.len() == 0 {
        StartStep::Accumulate
    } else {
        start_after(start_run(replies.drop_last(), watches), replies.last(), watches)
    }
}

/// The start passed through a step, and the step was done.
pub open spec fn start_did(replies: Seq<bool>, watches: bool, step: StartStep) -> bool {
    exists|k: int|
        0 <= k < replies.len() && #[trigger] start_run(replies.take(k), watches) == step
            && replies[k]
}

proof fn lemma_start_did(replies: Seq<bool>, watches: bool, step: StartStep)
    requires
        replies.len() > 0,
    ensures
        start_did(replies.drop_last(), watches, step) || (start_run(replies.drop_last(), watches)
            == step && replies.last()) ==> start_did(replies, watches, step),
{
    let head = replies.drop_last();
    let end = head.len() as int;
    assert(replies.take(end) =~= head);
    if start_did(head, watches, step) {
        let k = choose|k: int|
            0 <= k < head.len() && #[trigger] start_run(head.take(k), watches) == step && head[k];
        assert(head.take(k) =~= replies.take(k));
        assert(start_run(replies.take(k), watches) == step);
    } else if start_run(head, watches) == step {
        assert(start_run(replies.take(end), watches) == step);
    }
}

proof fn lemma_start(replies: Seq<bool>, watches: bool)
    ensures
        ({
            let now = start_run(replies, watches);
            let streaming = now == StartStep::StartMonitor || now == StartStep::StartWatcher || now
                == StartStep::Running;
            let piped = streaming || now == StartStep::StartStreams;
            &&& piped || now == StartStep::Configure || now == StartStep::StartPipeline
                ==> start_did(replies, watches, StartStep::StartState)
            &&& piped ==> start_did(replies, watches, StartStep::StartPipeline)
            &&& streaming ==> start_did(replies, watches, StartStep::StartStreams)
            &&& now == StartStep::StartWatcher ==> watches
        }),
    decreases replies.len(),
{
    if replies.len() > 0 {
        lemma_start(replies.drop_last(), watches);
        lemma_start_did(replies, watches, StartStep::StartState);
        lemma_start_did(replies, watches, StartStep::StartPipeline);
        lemma_start_did(replies, watches, StartStep::StartStreams);
    }
}

/// A session that runs has its state, its pipeline and its streams started; the streams
/// start only once there is a pipeline to take their sound; and the system's defaults are
/// watched only where a role follows one.
pub proof fn law_running_sessions_are_complete(replies: Seq<bool>, watches: bool)
    ensures
        start_run(replies, watches) == StartStep::StartStreams ==> start_did(
            replies,
            watches,
            StartStep::StartPipeline,
        ),
        start_run(replies, watches) == StartStep::Running ==> start_did(
            replies,
            watches,
            StartStep::StartState,
        ) && start_did(replies, watches, StartStep::StartPipeline) && start_did(
            replies,
            watches,
            StartStep::StartStreams,
        ),
        start_run(replies, watches) == StartStep::StartWatcher ==> watches,
{
    lemma_start(replies, watches);
}

/// Where an attempt to reconnect stands after a number of replies.
pub open spec fn reconnect_run(replies: Seq<ReconnectReply>) -> ReconnectStep
    decreases replies.len(),
{
    if replies.len() == 0 {
        ReconnectStep::Find
    } else {
        reconnect_after(reconnect_run(replies.drop_last()), replies.last())
    }
}

/// The wait for a lost device ends only once the device was found and the streams have
/// stopped and started again: the first three replies were all of success.
pub proof fn law_wait_ends_with_running_streams(replies: Seq<ReconnectReply>)
    requires
        reconnect_run(replies) == ReconnectStep::EndWait || reconnect_run(replies)
            == ReconnectStep::Reconnected,
    ensures
        replies.len() >= 4,
        forall|i: int| 0 <= i < 3 ==> (#[trigger] replies[i]) == ReconnectReply::Done,
{
    lemma_reconnect(replies);
}

proof fn lemma_reconnect(replies: Seq<ReconnectReply>)
    ensures
        ({
            let now = reconnect_run(replies);
            let found = replies.len() >= 1 && replies[0] == ReconnectReply::Done;
            let stopped = found && replies.len() >= 2 && replies[1] == ReconnectReply::Done;
            let started = stopped && replies.len() >= 3 && replies[2] == ReconnectReply::Done;
            &&& now == ReconnectStep::Find ==> replies.len() == 0
            &&& now == ReconnectStep::StopStreams ==> found && replies.len() == 1
            &&& now == ReconnectStep::StartStreams ==> stopped && replies.len() == 2
            &&& now == ReconnectStep::Remember ==> started && replies.len() == 3
            &&& now == ReconnectStep::EndWait || now == ReconnectStep::Reconnected ==> started
                && replies.len() >= 4
        }),
    decreases replies.len(),
{
    if replies.len() > 0 {
        lemma_reconnect(replies.drop_last());
    }
}

/// A device that the user pinned is never followed: the watcher gets a role's device only
/// if the role was declared to follow the system's default.
pub proof fn law_pinned_devices_are_not_followed(
    before: RecordingManager,
    microphone: Option<CaptureDevice>,
    system_audio: Option<CaptureDevice>,
    watched_mic: Option<String>,
    watched_system: Option<String>,
)
    requires
        watched_mic == if before.follow_default_mic {
            name_of(microphone)
        } else {
            None
        },
        watched_system == if before.follow_default_system {
            name_of(system_audio)
        } else {
            None
        },
    ensures
        forall|i: int|
            0 <= i < device_monitor::roles(watched_mic, watched_system).len() ==> match (
            #[trigger] device_monitor::roles(watched_mic, watched_system)[i]).1 {
                DeviceMonitorType::Microphone => before.follow_default_mic,
                DeviceMonitorType::SystemAudio => before.follow_default_system,
            },
{
}

/// However a session ends, the state stops before the streams and the streams before the
/// pipeline; where the device monitor is stopped, it is stopped before anything else.
pub proof fn law_take_down_order(mode: StopMode, recording: bool, i: int, j: int)
    requires
        0 <= i < stop_sequence(mode, recording).len(),
        0 <= j < stop_sequence(mode, recording).len(),
    ensures
        stop_sequence(mode, recording)[i] == StopStep::StopState && stop_sequence(
            mode,
            recording,
        )[j] == StopStep::StopStreams ==> i < j,
        stop_sequence(mode, recording)[i] == StopStep::StopStreams && (stop_sequence(
            mode,
            recording,
        )[j] == StopStep::StopPipeline || stop_sequence(mode, recording)[j]
            == StopStep::FlushPipeline) ==> i < j,
        stop_sequence(mode, recording)[i] == StopStep::StopDeviceMonitor ==> i == 0,
        stop_sequence(mode, recording)[i] == StopStep::ReadDuration && stop_sequence(
            mode,
            recording,
        )[j] == StopStep::StopState ==> i < j,
{
}

/// A session that is saved is saved exactly once, as the last thing, after every step that
/// stops something, and with a duration that was read before; a session that is not to be
/// saved is not.
pub proof fn law_saving_is_the_last_step(mode: StopMode, recording: bool, i: int)
    requires
        0 <= i < stop_sequence(mode, recording).len(),
    ensures
        mode == StopMode::StopAndSave || mode == StopMode::SaveOnly ==> (stop_sequence(
            mode,
            recording,
        )[i] == StopStep::SaveRecording <==> i == stop_sequence(mode, recording).len() - 1),
        mode == StopMode::StopAndSave || mode == StopMode::SaveOnly ==> stop_sequence(
            mode,
            recording,
        )[0] == StopStep::ReadDuration && stop_sequence(mode, recording).len() >= 2,
        mode != StopMode::StopAndSave && mode != StopMode::SaveOnly ==> stop_sequence(
            mode,
            recording,
        )[i] != StopStep::SaveRecording,
{
}

/// Every way of ending a session that runs stops its state, its streams and its pipeline, each
/// once; where all audio is to be processed the pipeline is flushed and not merely stopped.
/// The two ways that leave the recorder running stop the monitor and the watcher too, and
/// what lets go of the devices comes last.
pub proof fn law_running_sessions_are_taken_down(mode: StopMode, recording: bool)
    ensures
        stop_sequence(mode, recording).len() > 0,
        stop_sequence(mode, recording).no_duplicates(),
        mode == StopMode::StreamsOnly || mode == StopMode::ForceFlush || mode
            == StopMode::StopAndSave || (mode == StopMode::CleanUp && recording) ==> stop_sequence(
            mode,
            recording,
        ).contains(StopStep::StopState) && stop_sequence(mode, recording).contains(
            StopStep::StopStreams,
        ) && (stop_sequence(mode, recording).contains(StopStep::StopPipeline) <==> mode
            != StopMode::ForceFlush),
        stop_sequence(mode, recording).contains(StopStep::FlushPipeline) <==> mode
            == StopMode::ForceFlush,
        stop_sequence(mode, recording).contains(StopStep::StopDeviceMonitor) <==> mode
            == StopMode::StreamsOnly || mode == StopMode::ForceFlush,
        stop_sequence(mode, recording).contains(StopStep::StopDefaultWatcher) <==> mode
            == StopMode::StreamsOnly || mode == StopMode::ForceFlush,
        stop_sequence(mode, recording).last() == StopStep::CleanState <==> mode
            == StopMode::ForceFlush || mode == StopMode::CleanUp,
        mode == StopMode::SaveOnly || (mode == StopMode::CleanUp && !recording) ==> !stop_sequence(
            mode,
            recording,
        ).contains(StopStep::StopState) && !stop_sequence(mode, recording).contains(
            StopStep::StopStreams,
        ) && !stop_sequence(mode, recording).contains(StopStep::StopPipeline),
{
    let s = stop_sequence(mode, recording);
    match mode {
        StopMode::StreamsOnly => {
            assert(s[0] == StopStep::StopDeviceMonitor);
            assert(s[1] == StopStep::StopDefaultWatcher);
            assert(s[2] == StopStep::StopState);
            assert(s[3] == StopStep::StopStreams);
            assert(s[4] == StopStep::StopPipeline);
        },
        StopMode::ForceFlush => {
            assert(s[0] == StopStep::StopDeviceMonitor);
            assert(s[1] == StopStep::StopDefaultWatcher);
            assert(s[2] == StopStep::StopState);
            assert(s[3] == StopStep::StopStreams);
            assert(s[4] == StopStep::FlushPipeline);
            assert(s[5] == StopStep::CleanState);
        },
        StopMode::StopAndSave => {
            assert(s[1] == StopStep::StopState);
            assert(s[2] == StopStep::StopStreams);
            assert(s[3] == StopStep::StopPipeline);
        },
        StopMode::SaveOnly => {},
        StopMode::CleanUp => {
            if recording {
                assert(s[0] == StopStep::StopState);
                assert(s[1] == StopStep::StopStreams);
                assert(s[2] == StopStep::StopPipeline);
            }
        },
    }
}

/// The start came to a step on its way.
pub open spec fn start_came_to(replies: Seq<bool>, watches: bool, step: StartStep) -> bool {
    exists|k: int| 0 <= k < replies.len() && #[trigger] start_run(replies.take(k), watches) == step
}

proof fn lemma_start_came(replies: Seq<bool>, watches: bool, step: StartStep)
    requires
        replies.len() > 0,
    ensures
        start_came_to(replies.drop_last(), watches, step) || start_run(
            replies.drop_last(),
            watches,
        ) == step ==> start_came_to(replies, watches, step),
{
    let head = replies.drop_last();
    let end = head.len() as int;
    assert(replies.take(end) =~= head);
    if start_came_to(head, watches, step) {
        let k = choose|k: int|
            0 <= k < head.len() && #[trigger] start_run(head.take(k), watches) == step;
        assert(head.take(k) =~= replies.take(k));
        assert(start_run(replies.take(k), watches) == step);
    } else if start_run(head, watches) == step {
        assert(start_run(replies.take(end), watches) == step);
    }
}

proof fn lemma_start_path(replies: Seq<bool>, watches: bool)
    ensures
        ({
            let now = start_run(replies, watches);
            let configured = now == StartStep::StartPipeline || now == StartStep::StartStreams
                || now == StartStep::StartMonitor || now == StartStep::StartWatcher || now
                == StartStep::Running;
            &&& now == StartStep::StartState || now == StartStep::Configure || configured
                ==> start_came_to(replies, watches, StartStep::Accumulate)
            &&& configured ==> start_came_to(replies, watches, StartStep::Configure)
            &&& now == StartStep::StartWatcher || now == StartStep::Running ==> start_came_to(
                replies,
                watches,
                StartStep::StartMonitor,
            )
            &&& now == StartStep::Running && watches ==> start_came_to(
                replies,
                watches,
                StartStep::StartWatcher,
            )
        }),
    decreases replies.len(),
{
    if replies.len() > 0 {
        lemma_start_path(replies.drop_last(), watches);
        lemma_start_came(replies, watches, StartStep::Accumulate);
        lemma_start_came(replies, watches, StartStep::Configure);
        lemma_start_came(replies, watches, StartStep::StartMonitor);
        lemma_start_came(replies, watches, StartStep::StartWatcher);
    }
}

/// A session that runs has its audio collected, its devices noted and its monitor tried, and
/// where a default is followed it is watched. A start in which every step is done runs after
/// its seventh step at the latest, and one in which the state, the pipeline or the streams
/// cannot be started fails for good.
pub proof fn law_starts_go_through_every_step(replies: Seq<bool>, watches: bool)
    ensures
        start_run(replies, watches) == StartStep::Running ==> start_came_to(
            replies,
            watches,
            StartStep::Accumulate,
        ) && start_came_to(replies, watches, StartStep::Configure) && start_came_to(
            replies,
            watches,
            StartStep::StartMonitor,
        ) && (watches ==> start_came_to(replies, watches, StartStep::StartWatcher)),
        replies.len() >= 7 && (forall|i: int| 0 <= i < replies.len() ==> #[trigger] replies[i])
            ==> start_run(replies, watches) == StartStep::Running,
        replies.len() > 0 && !replies.last() && (start_run(replies.drop_last(), watches)
            == StartStep::StartState || start_run(replies.drop_last(), watches)
            == StartStep::StartPipeline || start_run(replies.drop_last(), watches)
            == StartStep::StartStreams) ==> start_run(replies, watches) == StartStep::Failed,
        replies.len() > 0 && start_run(replies.drop_last(), watches) == StartStep::Failed
            ==> start_run(replies, watches) == StartStep::Failed,
        replies.len() > 0 && start_run(replies.drop_last(), watches) == StartStep::StartMonitor
            ==> start_run(replies, watches) != StartStep::Failed,
{
    lemma_start_path(replies, watches);
    if replies.len() >= 7 && forall|i: int| 0 <= i < replies.len() ==> #[trigger] replies[i] {
        lemma_all_done(replies, watches);
    }
}

proof fn lemma_all_done(replies: Seq<bool>, watches: bool)
    requires
        forall|i: int| 0 <= i < replies.len() ==> #[trigger] replies[i],
    ensures
        start_run(replies, watches) == if replies.len() == 0 {
            StartStep::Accumulate
        } else if replies.len() == 1 {
            StartStep::StartState
        } else if replies.len() == 2 {
            StartStep::Configure
        } else if replies.len() == 3 {
            StartStep::StartPipeline
        } else if replies.len() == 4 {
            StartStep::StartStreams
        } else if replies.len() == 5 {
            StartStep::StartMonitor
        } else if replies.len() == 6 && watches {
            StartStep::StartWatcher
        } else {
            StartStep::Running
        },
    decreases replies.len(),
{
    if replies.len() > 0 {
        let head = replies.drop_last();
        assert forall|i: int| 0 <= i < head.len() implies #[trigger] head[i] by {
            assert(replies[i]);
        }
        lemma_all_done(head, watches);
        assert(replies[replies.len() - 1]);
    }
}

/// The parts of a session get the devices as they were given: the mixer their names and kinds,
/// the metadata their names, and the watcher those of the roles that follow the system's
/// default and no others. Saving and channels are as asked.
pub proof fn law_devices_are_handed_on(
    m: RecordingManager,
    mic: CaptureDevice,
    system: CaptureDevice,
    auto_save: bool,
    mode: RecordingMode,
)
    ensures
        ({
            let both = planned(m, Some(mic), Some(system), auto_save, mode);
            &&& both.auto_save == auto_save && both.channels == mode.channels
            &&& both.mic_name == mic.name@ && both.mic_kind == mic.kind
            &&& both.system_name == system.name@ && both.system_kind == system.kind
            &&& both.saved_mic == Some(mic.name@) && both.saved_system == Some(system.name@)
            &&& m.follow_default_mic ==> both.watched_mic == Some(mic.name@)
            &&& !m.follow_default_mic ==> both.watched_mic is None
            &&& m.follow_default_system ==> both.watched_system == Some(system.name@)
            &&& !m.follow_default_system ==> both.watched_system is None
        }),
        ({
            let none = planned(m, None, None, auto_save, mode);
            &&& none.mic_name == "No Microphone"@ && none.system_name == "No System Audio"@
            &&& none.mic_kind == InputDeviceKind::Unknown && none.system_kind
                == InputDeviceKind::Unknown
            &&& none.saved_mic is None && none.saved_system is None
            &&& none.watched_mic is None && none.watched_system is None
        }),
{
}

/// What the parts get of one role does not depend on the other: giving up the device of one
/// role, or following its default, changes nothing for the other.
pub proof fn law_roles_are_handed_on_independently(
    m: RecordingManager,
    n: RecordingManager,
    microphone: Option<CaptureDevice>,
    system_audio: Option<CaptureDevice>,
    other: Option<CaptureDevice>,
    auto_save: bool,
    mode: RecordingMode,
)
    ensures
        n.follow_default_mic == m.follow_default_mic ==> {
            let a = planned(m, microphone, system_audio, auto_save, mode);
            let b = planned(n, microphone, other, auto_save, mode);
            &&& a.mic_name == b.mic_name && a.mic_kind == b.mic_kind
            &&& a.saved_mic == b.saved_mic && a.watched_mic == b.watched_mic
        },
        n.follow_default_system == m.follow_default_system ==> {
            let a = planned(m, microphone, system_audio, auto_save, mode);
            let b = planned(n, other, system_audio, auto_save, mode);
            &&& a.system_name == b.system_name && a.system_kind == b.system_kind
            &&& a.saved_system == b.saved_system && a.watched_system == b.watched_system
        },
{
}

/// The default devices need a microphone on every platform. They are recorded in one channel
/// and saved as asked; on a Mac they are not followed, elsewhere each one that there is.
pub proof fn law_default_devices(
    m: RecordingManager,
    platform: Platform,
    has_microphone: bool,
    has_system_audio: bool,
    auto_save: bool,
)
    ensures
        with_defaults(m, platform, has_microphone, has_system_audio, auto_save) is Ok
            <==> has_microphone,
        with_defaults(m, platform, has_microphone, has_system_audio, auto_save) matches Ok((
            after,
            request,
        )) ==> request.auto_save == auto_save && request.mode.channels == 1
            && after.mic_device_kind == m.mic_device_kind && after.system_device_kind
            == m.system_device_kind && (after.follow_default_mic <==> platform == Platform::Other)
            && (after.follow_default_system <==> platform == Platform::Other && has_system_audio),
{
}

/// A lost device that is listed again takes its own role, and the other role keeps its device;
/// one that is not listed restarts nothing.
pub proof fn law_a_device_comes_back_to_its_role(
    available: Seq<String>,
    device_name: Seq<char>,
    device_type: DeviceMonitorType,
    microphone: Option<Seq<char>>,
    system_audio: Option<Seq<char>>,
)
    ensures
        streams_after(available, device_name, device_type, microphone, system_audio) is Some
            <==> exists|j: int| 0 <= j < available.len() && (#[trigger] available[j])@
            == device_name,
        streams_after(available, device_name, device_type, microphone, system_audio) matches Some((
            mic,
            system,
        )) ==> (device_type == DeviceMonitorType::Microphone ==> mic == Some(device_name) && system
            == system_audio) && (device_type == DeviceMonitorType::SystemAudio ==> system == Some(
            device_name,
        ) && mic == microphone),
{
    let names = text::texts(available);
    if names.contains(device_name) {
        let j = choose|j: int| 0 <= j < names.len() && names[j] == device_name;
        assert(available[j]@ == device_name);
    }
    if exists|j: int| 0 <= j < available.len() && (#[trigger] available[j])@ == device_name {
        let j = choose|j: int| 0 <= j < available.len() && (#[trigger] available[j])@
            == device_name;
        assert(names[j] == device_name);
    }
}

/// An attempt to reconnect in which every step is done ends the wait after its fifth step; one
/// that does not find the device, or in which a step fails, never does.
pub proof fn law_reconnecting_ends_well_or_not(replies: Seq<ReconnectReply>)
    ensures
        replies.len() >= 5 && (forall|i: int|
            0 <= i < replies.len() ==> #[trigger] replies[i] == ReconnectReply::Done)
            ==> reconnect_run(replies) == ReconnectStep::Reconnected,
        replies.len() > 0 && replies[0] == ReconnectReply::Missing ==> reconnect_run(replies)
            == ReconnectStep::NotAvailable,
        replies.len() > 0 && replies[0] == ReconnectReply::Failed ==> reconnect_run(replies)
            == ReconnectStep::Failed,
    decreases replies.len(),
{
    if replies.len() > 0 {
        let head = replies.drop_last();
        law_reconnecting_ends_well_or_not(head);
        lemma_reconnect_count(head);
        if replies.len() == 1 {
            assert(head =~= Seq::<ReconnectReply>::empty());
            assert(reconnect_run(head) == ReconnectStep::Find);
        } else {
            assert(head[0] == replies[0]);
        }
        if forall|i: int| 0 <= i < replies.len() ==> #[trigger] replies[i] == ReconnectReply::Done {
            assert forall|i: int| 0 <= i < head.len() implies #[trigger] head[i]
                == ReconnectReply::Done by {
                assert(replies[i] == ReconnectReply::Done);
            }
            assert(replies[replies.len() - 1] == ReconnectReply::Done);
        }
    }
}

proof fn lemma_reconnect_count(replies: Seq<ReconnectReply>)
    ensures
        (forall|i: int| 0 <= i < replies.len() ==> #[trigger] replies[i] == ReconnectReply::Done)
            ==> reconnect_run(replies) == if replies.len() == 0 {
            ReconnectStep::Find
        } else if replies.len() == 1 {
            ReconnectStep::StopStreams
        } else if replies.len() == 2 {
            ReconnectStep::StartStreams
        } else if replies.len() == 3 {
            ReconnectStep::Remember
        } else if replies.len() == 4 {
            ReconnectStep::EndWait
        } else {
            ReconnectStep::Reconnected
        },
    decreases replies.len(),
{
    if replies.len() > 0 && forall|i: int|
        0 <= i < replies.len() ==> #[trigger] replies[i] == ReconnectReply::Done {
        let head = replies.drop_last();
        assert forall|i: int| 0 <= i < head.len() implies #[trigger] head[i]
            == ReconnectReply::Done by {
            assert(replies[i] == ReconnectReply::Done);
        }
        lemma_reconnect_count(head);
        assert(replies[replies.len() - 1] == ReconnectReply::Done);
    }
}

/// The device that is waited for is that of the role which lost one, whatever the other role
/// has.
pub proof fn law_the_lost_device_is_waited_for(
    lost: Option<String>,
    other: Option<String>,
    another: Option<String>,
)
    ensures
        device_of(DeviceMonitorType::Microphone, lost, other) == lost,
        device_of(DeviceMonitorType::SystemAudio, other, lost) == lost,
        device_of(DeviceMonitorType::Microphone, lost, other) == device_of(
            DeviceMonitorType::Microphone,
            lost,
            another,
        ),
{
}

/// The wait for a lost device ends if and only if an attempt brought it back, and a failed
/// attempt hands its cause on.
pub proof fn law_only_a_device_that_is_back_ends_the_wait(attempt: Result<bool, String>)
    ensures
        still_waiting(attempt) is None <==> attempt is Ok && attempt->Ok_0,
        attempt is Err ==> still_waiting(attempt) == Some(attempt->Err_0@),
{
}

/// A device of the kind that the mixer was set up for is nothing to warn of, one of any other
/// kind is, and where it was set up for none every kind is as good.
pub proof fn law_other_kinds_are_warned_of(set_up_for: InputDeviceKind, kind: InputDeviceKind)
    ensures
        kind_changes(Some(set_up_for), kind) <==> set_up_for != kind,
        !kind_changes(None, kind),
{
}

} // verus!
