use meetily::audio::capture::pulse::{
    connection_error, connection_step, default_monitor_source, invalid_format,
    list_monitor_sources, open_outcome, open_plan, query_error, query_step, read_plan, thread_after_open,
    thread_after_stop, ConnectionStep, MonitorSource, OpenReply, QueryStep, ServerState, SourceInfo,
    ThreadFate, DEFAULT_MONITOR,
};
use meetily::audio::device_monitor::DeviceMonitorType;
use meetily::audio::devices::configuration::DeviceType;
use meetily::audio::devices::linux::configure_linux_audio;
use meetily::audio::recording_manager::{
    attempt_device_reconnect, handle_device_disconnect, handle_device_reconnect, stop_steps,
    CaptureDevice, InputDeviceKind, Platform, ReconnectReply, ReconnectStep, RecordingManager,
    RecordingMode, StartStep, StopMode, StopStep,
};

fn source(name: &str, sink: Option<u32>, sink_name: Option<&str>) -> SourceInfo {
    SourceInfo {
        name: Some(name.to_string()),
        description: None,
        monitor_of_sink: sink,
        monitor_of_sink_name: sink_name.map(str::to_string),
    }
}

#[test]
fn only_named_monitors_are_listed() {
    let mut described = source("hdmi.monitor", Some(2), Some("hdmi"));
    described.description = Some("Monitor of HDMI".to_string());
    let mut nameless = source("", Some(3), None);
    nameless.name = None;
    let infos = vec![
        source("mic", None, None),
        source("card.monitor", Some(1), Some("card")),
        nameless,
        described,
    ];
    let found = list_monitor_sources(Ok(infos), &Some("hdmi".to_string())).unwrap();
    assert_eq!(found.len(), 2);
    assert_eq!(found[0].name, "card.monitor");
    assert_eq!(found[0].description, "card.monitor");
    assert!(!found[0].is_default);
    assert_eq!(found[1].description, "Monitor of HDMI");
    assert!(found[1].is_default);
    assert_eq!(default_monitor_source(Ok(found)).unwrap().name, "hdmi.monitor");
}

#[test]
fn no_default_sink_marks_nothing() {
    let infos = vec![source("a.monitor", Some(1), None), source("b.monitor", Some(2), Some("b"))];
    let found = list_monitor_sources(Ok(infos), &None).unwrap();
    assert!(found.iter().all(|s| !s.is_default));
    assert_eq!(default_monitor_source(Ok(found)).unwrap().name, "a.monitor");
}

#[test]
fn no_answer_is_not_an_empty_list() {
    let failed = list_monitor_sources(Err("The sound server stopped responding".to_string()), &None);
    assert_eq!(failed.unwrap_err(), "The sound server stopped responding");
    let none: Vec<MonitorSource> = vec![];
    assert_eq!(default_monitor_source(Ok(none)).unwrap_err(), "No system audio source available");
    assert_eq!(default_monitor_source(Err("x".to_string())).unwrap_err(), "x");
    assert_eq!(DEFAULT_MONITOR, "@DEFAULT_MONITOR@");
}

#[test]
fn connections_settle_or_time_out() {
    for late in [false, true] {
        assert_eq!(connection_step(ServerState::Ready, late), ConnectionStep::Run);
        assert_eq!(connection_step(ServerState::Failed, late), ConnectionStep::Refused);
        assert_eq!(connection_step(ServerState::Terminated, late), ConnectionStep::Refused);
    }
    assert_eq!(connection_step(ServerState::Connecting, false), ConnectionStep::Wait);
    assert_eq!(connection_step(ServerState::Connecting, true), ConnectionStep::TimedOut);
    assert_eq!(connection_error(ConnectionStep::Run), None);
    assert_eq!(
        connection_error(ConnectionStep::Refused).unwrap(),
        "The sound server refused the connection"
    );
    assert_eq!(
        connection_error(ConnectionStep::TimedOut).unwrap(),
        "Timed out connecting to the sound server"
    );
}

#[test]
fn reads_take_twenty_milliseconds() {
    let plan = read_plan(48_000, 8);
    assert_eq!(plan.frames, 960);
    assert_eq!(plan.bytes, 7680);
    assert_eq!(plan.fragsize, 7680);
    assert_eq!(read_plan(44_100, 4).frames, 882);
    assert_eq!(read_plan(49, 4).frames, 0);
    assert_eq!(invalid_format(0, 48_000), "Invalid capture format: 0 channel(s) at 48000 Hz");
    assert!(open_outcome("s", &OpenReply::Opened).is_ok());
    assert_eq!(
        open_outcome("s", &OpenReply::Refused("no".to_string())).unwrap_err(),
        "Could not open system audio source 's': no"
    );
    assert_eq!(
        open_outcome("s", &OpenReply::Silent).unwrap_err(),
        "Timed out opening system audio source 's'"
    );
}

#[test]
fn monitors_count_as_system_audio() {
    let inputs = vec![Some("Mic".to_string()), None];
    let alsa = vec![Some("Mic".to_string()), Some("card.monitor".to_string()), None];
    let devices = configure_linux_audio(Ok(inputs.clone()), Some(Ok(alsa))).unwrap();
    assert_eq!(devices.len(), 2);
    assert_eq!(devices[0].name, "Mic");
    assert_eq!(devices[0].device_type, DeviceType::Input);
    assert_eq!(devices[1].name, "card.monitor (System Audio)");
    assert_eq!(devices[1].device_type, DeviceType::Output);
    assert_eq!(configure_linux_audio(Ok(inputs.clone()), None).unwrap().len(), 1);
    let lost = || Err("no such host".to_string());
    assert_eq!(configure_linux_audio(lost(), None).unwrap_err(), "no such host");
    assert_eq!(configure_linux_audio(Ok(inputs), Some(lost())).unwrap_err(), "no such host");
}

fn device(name: &str, kind: InputDeviceKind) -> Option<CaptureDevice> {
    Some(CaptureDevice { name: name.to_string(), kind })
}

#[test]
fn pinned_roles_are_not_watched() {
    let mut m = RecordingManager::new();
    let mic = device("Mic", InputDeviceKind::Bluetooth);
    let plan = m.start_recording(&mic, &None, true, RecordingMode { channels: 2 });
    assert!(plan.auto_save);
    assert_eq!((plan.channels, plan.mode.channels()), (2, 2));
    assert_eq!(plan.watched_mic, None);
    assert_eq!(plan.mic_name, "Mic");
    assert_eq!(plan.system_name, "No System Audio");
    assert_eq!(plan.system_kind, InputDeviceKind::Unknown);
    assert_eq!(plan.saved_system, None);
    m.set_follow_system_default(true, true);
    let speakers = device("Speakers", InputDeviceKind::Wired);
    let plan = m.start_recording(&None, &speakers, false, RecordingMode::mono());
    assert!(!plan.auto_save);
    assert_eq!(plan.channels, 1);
    assert_eq!(plan.mic_name, "No Microphone");
    assert_eq!(plan.watched_mic, None);
    assert_eq!(plan.watched_system.as_deref(), Some("Speakers"));
    assert!(!m.install_migrated_stream(DeviceMonitorType::Microphone, InputDeviceKind::Wired));
    assert!(m.install_migrated_stream(DeviceMonitorType::SystemAudio, InputDeviceKind::Bluetooth));
    assert!(!m.install_migrated_stream(DeviceMonitorType::SystemAudio, InputDeviceKind::Wired));
}

#[test]
fn defaults_need_a_microphone() {
    let mut m = RecordingManager::default();
    assert_eq!(
        m.start_recording_with_defaults_and_auto_save(Platform::Other, false, true, true)
            .unwrap_err(),
        "No microphone device available"
    );
    assert_eq!(
        m.start_recording_with_defaults_and_auto_save(Platform::MacOs, false, true, true)
            .unwrap_err(),
        "❌ No microphone device available for recording"
    );
    assert!(!m.follow_default_mic);
    let request =
        m.start_recording_with_defaults_and_auto_save(Platform::Other, true, false, true).unwrap();
    assert!(request.auto_save);
    assert_eq!(request.mode, RecordingMode::mono());
    assert!(m.follow_default_mic && !m.follow_default_system);
    let request =
        m.start_recording_with_defaults_and_auto_save(Platform::MacOs, true, true, false).unwrap();
    assert!(!request.auto_save);
    assert_eq!(request.mode.channels(), 1);
    assert!(!m.follow_default_mic && !m.follow_default_system);
}

#[test]
fn sessions_are_taken_down_in_order() {
    assert_eq!(
        stop_steps(StopMode::ForceFlush, true),
        vec![
            StopStep::StopDeviceMonitor,
            StopStep::StopDefaultWatcher,
            StopStep::StopState,
            StopStep::StopStreams,
            StopStep::FlushPipeline,
            StopStep::CleanState,
        ]
    );
    assert_eq!(stop_steps(StopMode::CleanUp, false), vec![StopStep::CleanState]);
    assert_eq!(stop_steps(StopMode::CleanUp, true).len(), 4);
    assert_eq!(stop_steps(StopMode::StreamsOnly, true).len(), 5);
    assert_eq!(stop_steps(StopMode::StopAndSave, true)[0], StopStep::ReadDuration);
    assert_eq!(
        stop_steps(StopMode::SaveOnly, true),
        vec![StopStep::ReadDuration, StopStep::SaveRecording]
    );
}

#[test]
fn lost_devices_come_back_in_their_role() {
    let here = vec!["Mic".to_string(), "Speakers".to_string()];
    let mic = Some("Old".to_string());
    let system = Some("Speakers".to_string());
    let name = "Mic".to_string();
    let plan = attempt_device_reconnect(&here, &name, DeviceMonitorType::Microphone, &mic, &system)
        .unwrap();
    assert_eq!(plan.microphone.as_deref(), Some("Mic"));
    assert_eq!(plan.system_audio.as_deref(), Some("Speakers"));
    let plan = attempt_device_reconnect(&here, &name, DeviceMonitorType::SystemAudio, &mic, &None)
        .unwrap();
    assert_eq!(plan.microphone.as_deref(), Some("Old"));
    assert_eq!(plan.system_audio.as_deref(), Some("Mic"));
    let gone = "Gone".to_string();
    assert!(attempt_device_reconnect(&here, &gone, DeviceMonitorType::Microphone, &mic, &None)
        .is_none());
    assert_eq!(
        handle_device_disconnect(DeviceMonitorType::Microphone, &mic, &system).as_deref(),
        Some("Old")
    );
    assert_eq!(handle_device_disconnect(DeviceMonitorType::SystemAudio, &mic, &None), None);
    assert!(handle_device_reconnect(Ok(true)).is_ok());
    assert_eq!(handle_device_reconnect(Ok(false)).unwrap_err(), "Device not available");
    assert_eq!(handle_device_reconnect(Err("io".to_string())).unwrap_err(), "io");
}

fn start_course(replies: &[bool], watches: bool) -> Vec<StartStep> {
    let mut step = StartStep::Accumulate;
    let mut steps = vec![step];
    for done in replies {
        step = step.after(*done, watches);
        steps.push(step);
    }
    steps
}

#[test]
fn a_session_starts_its_parts_in_order() {
    assert_eq!(
        start_course(&[true; 7], true),
        vec![
            StartStep::Accumulate,
            StartStep::StartState,
            StartStep::Configure,
            StartStep::StartPipeline,
            StartStep::StartStreams,
            StartStep::StartMonitor,
            StartStep::StartWatcher,
            StartStep::Running,
        ]
    );
    assert_eq!(start_course(&[true; 6], false)[6], StartStep::Running);
}

#[test]
fn a_session_fails_without_state_pipeline_or_streams() {
    assert_eq!(start_course(&[true, false, true], true)[2], StartStep::Failed);
    assert_eq!(start_course(&[true, false, true], true)[3], StartStep::Failed);
    assert_eq!(start_course(&[true, true, true, false], true)[4], StartStep::Failed);
    assert_eq!(start_course(&[true, true, true, true, false], true)[5], StartStep::Failed);
}

#[test]
fn a_session_runs_without_a_monitor() {
    let steps = start_course(&[true, true, true, true, true, false], false);
    assert_eq!(steps[6], StartStep::Running);
}

#[test]
fn a_plan_watches_what_it_follows() {
    let mic = Some(CaptureDevice { name: "Mic".to_string(), kind: InputDeviceKind::Wired });
    let mut manager = RecordingManager::new();
    let mono = RecordingMode::mono();
    assert!(!manager.start_recording(&mic, &None, true, mono).watches());
    manager.set_follow_system_default(true, false);
    assert!(manager.start_recording(&mic, &None, true, mono).watches());
    assert!(!manager.start_recording(&None, &mic, true, mono).watches());
}

fn reconnect_course(replies: &[ReconnectReply]) -> ReconnectStep {
    replies.iter().fold(ReconnectStep::Find, |step, reply| step.after(*reply))
}

#[test]
fn reconnecting_restarts_the_streams() {
    let (done, failed, missing) =
        (ReconnectReply::Done, ReconnectReply::Failed, ReconnectReply::Missing);
    assert_eq!(reconnect_course(&[done]), ReconnectStep::StopStreams);
    assert_eq!(reconnect_course(&[done, done]), ReconnectStep::StartStreams);
    assert_eq!(reconnect_course(&[done, done, done]), ReconnectStep::Remember);
    assert_eq!(reconnect_course(&[done, done, done, done]), ReconnectStep::EndWait);
    assert_eq!(reconnect_course(&[done; 5]), ReconnectStep::Reconnected);
    assert_eq!(reconnect_course(&[missing, done]), ReconnectStep::NotAvailable);
    assert_eq!(reconnect_course(&[failed, done]), ReconnectStep::Failed);
    assert_eq!(reconnect_course(&[done, failed]), ReconnectStep::Failed);
    assert_eq!(reconnect_course(&[done, done, failed]), ReconnectStep::Failed);
}

#[test]
fn rejected_formats_open_nothing() {
    assert_eq!(
        open_plan(9, 1, None),
        Err("Invalid capture format: 9 channel(s) at 1 Hz".to_string())
    );
    assert_eq!(open_plan(2, 48000, Some(8)), Ok(read_plan(48000, 8)));
    let plan = open_plan(2, 48000, Some(8)).unwrap();
    assert_eq!((plan.frames, plan.bytes, plan.fragsize), (960, 7680, 7680));
}

#[test]
fn threads_end_as_their_capture_does() {
    assert_eq!(thread_after_open(&OpenReply::Opened), ThreadFate::Capture);
    assert_eq!(thread_after_open(&OpenReply::Refused("no".to_string())), ThreadFate::Join);
    assert_eq!(thread_after_open(&OpenReply::Silent), ThreadFate::Abandon);
    assert_eq!(thread_after_stop(true), ThreadFate::Join);
    assert_eq!(thread_after_stop(false), ThreadFate::Abandon);
}

#[test]
fn queries_wait_until_the_deadline() {
    assert_eq!(query_step(true, false), QueryStep::Wait);
    assert_eq!(query_step(false, false), QueryStep::Answered);
    assert_eq!(query_step(true, true), QueryStep::TimedOut);
    assert_eq!(query_step(false, true), QueryStep::TimedOut);
    assert_eq!(
        query_error(QueryStep::TimedOut).as_deref(),
        Some("The sound server stopped responding")
    );
    assert_eq!(query_error(QueryStep::Wait), None);
    assert_eq!(query_error(QueryStep::Answered), None);
}
