//! Which devices went missing or came back, and when the system's default device
//! has changed for good.
use crate::text;
use vstd::prelude::*;

verus! {

/// What the device monitor reports.
#[derive(Debug, Clone)]
pub enum DeviceEvent {
    /// A device in use has disconnected.
    DeviceDisconnected { device_name: String, device_type: DeviceMonitorType },
    /// A device that was reported as disconnected is there again.
    DeviceReconnected { device_name: String, device_type: DeviceMonitorType },
    /// The number of devices has changed.
    DeviceListChanged,
}

/// The role of a monitored device.
#[derive(Debug, Clone, Copy, PartialEq, Eq, Structural)]
pub enum DeviceMonitorType {
    Microphone,
    SystemAudio,
}

/// What the monitor knows of one device.
#[derive(Debug, Clone)]
pub struct MonitoredDevice {
    pub name: String,
    pub device_type: DeviceMonitorType,
    /// Checks in a row that did not find the device.
    pub consecutive_missing: u32,
    pub is_bluetooth: bool,
}

/// A name, in lower case, that speaks of a wireless device.
pub open spec fn speaks_of_bluetooth(lowered: Seq<char>) -> bool {
    text::has(lowered, "airpods"@) || text::has(lowered, "bluetooth"@) || text::has(
        lowered,
        "wireless"@,
    )
}

/// Does a name, given in lower case, speak of a wireless device?
pub fn is_bluetooth_name(lowered: &str) -> (r: bool)
    ensures
        r == speaks_of_bluetooth(lowered@),
{
    text::contains(lowered, "airpods") || text::contains(lowered, "bluetooth") || text::contains(
        lowered,
        "wireless",
    )
}

/// Seconds between two attempts to find a device again.
pub open spec fn retry_secs(d: MonitoredDevice) -> u64 {
    if d.is_bluetooth {
        5
    } else {
        3
    }
}

/// Missing checks in a row after which a device counts as disconnected. Bluetooth
/// devices get a longer grace period, since they drop out for moments.
pub open spec fn threshold(d: MonitoredDevice) -> u32 {
    if d.is_bluetooth {
        3
    } else {
        2
    }
}

/// The device after one check that found it or did not.
pub open spec fn checked(d: MonitoredDevice, found: bool) -> MonitoredDevice {
    MonitoredDevice {
        consecutive_missing: if found {
            0
        } else {
            (d.consecutive_missing + 1) as u32
        },
        ..d
    }
}

/// What one check reports: a disconnection when the number of missing checks reaches the
/// threshold, a reconnection when a disconnected device is found. An absence that is too
/// short for a disconnection is not reported at all.
pub open spec fn check_event(d: MonitoredDevice, found: bool) -> Option<DeviceEvent> {
    if found {
        if d.consecutive_missing >= threshold(d) {
            Some(
                DeviceEvent::DeviceReconnected {
                    device_name: d.name,
                    device_type: d.device_type,
                },
            )
        } else {
            None
        }
    } else if d.consecutive_missing + 1 == threshold(d) {
        Some(DeviceEvent::DeviceDisconnected { device_name: d.name, device_type: d.device_type })
    } else {
        None
    }
}

impl MonitoredDevice {
    /// A device that no check has missed yet.
    pub fn new(name: String, device_type: DeviceMonitorType) -> (r: MonitoredDevice)
        ensures
            r.name == name,
            r.device_type == device_type,
            r.consecutive_missing == 0,
            r.is_bluetooth == speaks_of_bluetooth(text::lower_case(name@)),
    {
        let lowered = text::to_lower_case(name.as_str());
        let is_bluetooth = is_bluetooth_name(lowered.as_str());
        MonitoredDevice { name, device_type, consecutive_missing: 0, is_bluetooth }
    }

    /// Missing checks in a row after which the device counts as disconnected.
    pub fn disconnect_threshold(&self) -> (r: u32)
        ensures
            r == threshold(*self),
    {
        if self.is_bluetooth {
            3
        } else {
            2
        }
    }

    /// Seconds between two attempts to find the device again.
    pub fn reconnect_interval(&self) -> (secs: u64)
        ensures
            secs == if self.is_bluetooth {
                5u64
            } else {
                3u64
            },
            secs == retry_secs(*self),
    {
        if self.is_bluetooth {
            5
        } else {
            3
        }
    }

    /// Takes one check into account.
    pub fn check(&mut self, found: bool) -> (event: Option<DeviceEvent>)
        requires
            !found ==> old(self).consecutive_missing < u32::MAX,
        ensures
            *final(self) == checked(*old(self), found),
            event == check_event(*old(self), found),
    {
        if found {
            let disconnected = self.consecutive_missing >= self.disconnect_threshold();
            self.consecutive_missing = 0;
            if disconnected {
                return Some(
                    DeviceEvent::DeviceReconnected {
                        device_name: self.name.clone(),
                        device_type: self.device_type,
                    },
                );
            }
            None
        } else {
            self.consecutive_missing = self.consecutive_missing + 1;
            if self.consecutive_missing == self.disconnect_threshold() {
                return Some(
                    DeviceEvent::DeviceDisconnected {
                        device_name: self.name.clone(),
                        device_type: self.device_type,
                    },
                );
            }
            None
        }
    }
}

/// Seconds from one round of the monitor to the next.
pub const CHECK_INTERVAL_SECS: u64 = 2;

/// A running monitor: its devices and the length of the last device list.
#[derive(Debug, Clone)]
pub struct MonitorState {
    pub devices: Vec<MonitoredDevice>,
    pub last_len: usize,
}

/// What one round of the monitor reports.
#[derive(Debug, Clone)]
pub struct MonitorRound {
    pub events: Vec<DeviceEvent>,
    /// Seconds until the next round.
    pub wait_secs: u64,
    /// The interval that the log speaks of: short while a device is missing. The rounds keep
    /// their pace all the same.
    pub logged_secs: u64,
}

/// Is there a device of that name in the list?
pub open spec fn listed(current: Seq<String>, name: String) -> bool {
    text::texts(current).contains(name@)
}

/// The devices after a round, one check each.
pub open spec fn checked_all(
    devices: Seq<MonitoredDevice>,
    current: Seq<String>,
) -> Seq<MonitoredDevice> {
    devices.map_values(|d: MonitoredDevice| checked(d, listed(current, d.name)))
}

/// The reports of a round's checks, in the order of the devices.
pub open spec fn check_events(
    devices: Seq<MonitoredDevice>,
    current: Seq<String>,
) -> Seq<DeviceEvent>
    decreases devices.len(),
{
    if devices.len() == 0 {
        Seq::empty()
    } else {
        let d = devices.last();
        let before = check_events(devices.drop_last(), current);
        match check_event(d, listed(current, d.name)) {
            Some(e) => before.push(e),
            None => before,
        }
    }
}

/// All that a round reports: first that the list changed its length, then the
/// reports of the checks.
pub open spec fn round_events(s: MonitorState, current: Seq<String>) -> Seq<DeviceEvent> {
    let changed = if current.len() != s.last_len {
        seq![DeviceEvent::DeviceListChanged]
    } else {
        Seq::empty()
    };
    changed + check_events(s.devices@, current)
}

/// The interval that the log speaks of after a round.
pub open spec fn logged_interval(devices: Seq<MonitoredDevice>) -> u64 {
    if any_missing(devices) {
        2
    } else {
        5
    }
}

/// Some device was not found by the last check.
pub open spec fn any_missing(devices: Seq<MonitoredDevice>) -> bool {
    exists|i: int| 0 <= i < devices.len() && (#[trigger] devices[i]).consecutive_missing > 0
}

/// Is a device of that name in the list?
pub fn is_listed(current: &[String], name: &String) -> (r: bool)
    ensures
        r == listed(current@, *name),
{
    let mut i: usize = 0;
    while i < current.len()
        invariant
            i <= current@.len(),
            forall|j: int| 0 <= j < i ==> (#[trigger] current@[j])@ != name@,
        decreases current@.len() - i,
    {
        if current[i] == *name {
            proof {
                assert(text::texts(current@)[i as int] == name@);
            }
            return true;
        }
        i = i + 1;
    }
    proof {
        if text::texts(current@).contains(name@) {
            let j = choose|j: int| 0 <= j < current@.len() && text::texts(current@)[j] == name@;
            assert(current@[j]@ == name@);
        }
    }
    false
}

impl MonitorState {
    /// One round: compares the device list with the last one and checks each device.
    pub fn round(&mut self, current: &[String]) -> (r: MonitorRound)
        requires
            forall|i: int|
                0 <= i < old(self).devices@.len() ==> (#[trigger] old(self).devices@[i]).consecutive_missing < u32::MAX,
        ensures
            final(self).devices@ == checked_all(old(self).devices@, current@),
            final(self).last_len == current@.len(),
            r.events@ == round_events(*old(self), current@),
            r.wait_secs == CHECK_INTERVAL_SECS,
            r.logged_secs == if any_missing(final(self).devices@) {
                2u64
            } else {
                5u64
            },
            r.logged_secs == logged_interval(final(self).devices@),
    {
        let mut events: Vec<DeviceEvent> = Vec::new();
        if current.len() != self.last_len {
            events.push(DeviceEvent::DeviceListChanged);
        }
        self.last_len = current.len();
        let ghost start = self.devices@;
        let ghost first = events@;
        let mut missing = false;
        let mut i: usize = 0;
        while i < self.devices.len()
            invariant
                i <= self.devices@.len(),
                self.devices@.len() == start.len(),
                self.last_len == current@.len(),
                forall|j: int| i <= j < start.len() ==> #[trigger] self.devices@[j] == start[j],
                forall|j: int|
                    0 <= j < i ==> #[trigger] self.devices@[j] == checked(
                        start[j],
                        listed(current@, start[j].name),
                    ),
                forall|j: int|
                    0 <= j < start.len() ==> (#[trigger] start[j]).consecutive_missing < u32::MAX,
                events@ == first + check_events(start.take(i as int), current@),
                missing == any_missing(self.devices@.take(i as int)),
            decreases self.devices@.len() - i,
        {
            let ghost before = self.devices@;
            let ghost before_events = events@;
            proof {
                assert(self.devices@[i as int] == start[i as int]);
            }
            let found = is_listed(current, &self.devices[i].name);
            let event = self.devices[i].check(found);
            if self.devices[i].consecutive_missing > 0 {
                missing = true;
            }
            proof {
                let now = start.take(i + 1);
                assert(now.drop_last() =~= start.take(i as int));
                assert(now.last() == start[i as int]);
                let kept = self.devices@.take(i as int);
                let grown = self.devices@.take(i + 1);
                assert(kept =~= before.take(i as int));
                if any_missing(kept) {
                    let k = choose|k: int|
                        0 <= k < kept.len() && (#[trigger] kept[k]).consecutive_missing > 0;
                    assert(grown[k] == kept[k]);
                }
                if any_missing(grown) {
                    let k = choose|k: int|
                        0 <= k < grown.len() && (#[trigger] grown[k]).consecutive_missing > 0;
                    if k < i {
                        assert(kept[k] == grown[k]);
                    }
                }
                if self.devices@[i as int].consecutive_missing > 0 {
                    assert(grown[i as int].consecutive_missing > 0);
                }
            }
            match event {
                Some(e) => {
                    events.push(e);
                    proof {
                        assert(events@ =~= first + check_events(start.take(i + 1), current@));
                    }
                },
                None => {},
            }
            i = i + 1;
        }
        proof {
            assert(start.take(start.len() as int) =~= start);
            assert(self.devices@.take(start.len() as int) =~= self.devices@);
            assert(self.devices@ =~= checked_all(start, current@));
        }
        MonitorRound {
            events,
            wait_secs: CHECK_INTERVAL_SECS,
            logged_secs: if missing {
                2
            } else {
                5
            },
        }
    }
}

/// The devices to monitor: the microphone, then the system audio device.
pub fn start_monitoring(
    running: bool,
    microphone: Option<String>,
    system_audio: Option<String>,
) -> (r: Result<Option<MonitorState>, String>)
    ensures
        running ==> r == Ok::<Option<MonitorState>, String>(None),
        !running && microphone is None && system_audio is None ==> (r matches Err(e) && e@
            == "No devices to monitor"@),
        !running && (microphone is Some || system_audio is Some) ==> (r matches Ok(Some(s))
            && s.last_len == 0 && s.devices@.len() == roles(microphone, system_audio).len()
            && forall|i: int|
            0 <= i < s.devices@.len() ==> fresh_for(
                #[trigger] s.devices@[i],
                roles(microphone, system_audio)[i],
            )),
{
    if running {
        return Ok(None);
    }
    let mut devices: Vec<MonitoredDevice> = Vec::new();
    match microphone {
        Some(name) => {
            devices.push(MonitoredDevice::new(name, DeviceMonitorType::Microphone));
        },
        None => {},
    }
    match system_audio {
        Some(name) => {
            devices.push(MonitoredDevice::new(name, DeviceMonitorType::SystemAudio));
        },
        None => {},
    }
    if devices.len() == 0 {
        return Err("No devices to monitor".to_owned());
    }
    Ok(Some(MonitorState { devices, last_len: 0 }))
}

/// The names given for the two roles, the microphone first.
pub open spec fn roles(
    microphone: Option<String>,
    system_audio: Option<String>,
) -> Seq<(String, DeviceMonitorType)> {
    let mic = match microphone {
        Some(name) => seq![(name, DeviceMonitorType::Microphone)],
        None => Seq::empty(),
    };
    match system_audio {
        Some(name) => mic.push((name, DeviceMonitorType::SystemAudio)),
        None => mic,
    }
}

/// A device just taken under watch.
pub open spec fn fresh_for(d: MonitoredDevice, role: (String, DeviceMonitorType)) -> bool {
    &&& d.name == role.0
    &&& d.device_type == role.1
    &&& d.consecutive_missing == 0
    &&& d.is_bluetooth == speaks_of_bluetooth(text::lower_case(role.0@))
}

/// The device after a number of checks in a row that all missed it.
pub open spec fn after_misses(d: MonitoredDevice, n: nat) -> MonitoredDevice
    decreases n,
{
    if n == 0 {
        d
    } else {
        checked(after_misses(d, (n - 1) as nat), false)
    }
}

proof fn lemma_after_misses(d: MonitoredDevice, n: nat)
    requires
        d.consecutive_missing + n <= u32::MAX,
    ensures
        after_misses(d, n) == (MonitoredDevice {
            consecutive_missing: (d.consecutive_missing + n) as u32,
            ..d
        }),
    decreases n,
{
    if n > 0 {
        lemma_after_misses(d, (n - 1) as nat);
    }
}

/// While a device stays away, its disconnection is reported exactly once: by the
/// check in which the number of misses reaches the threshold.
pub proof fn law_one_disconnection_per_absence(d: MonitoredDevice, n: nat)
    requires
        d.consecutive_missing == 0,
        n < u32::MAX,
    ensures
        check_event(after_misses(d, n), false) is Some <==> n + 1 == threshold(d),
        n + 1 == threshold(d) ==> check_event(after_misses(d, n), false) == Some(
            DeviceEvent::DeviceDisconnected { device_name: d.name, device_type: d.device_type },
        ),
{
    lemma_after_misses(d, n);
}

/// A device that is found is reported as reconnected if and only if it was missed often
/// enough to be disconnected, and from then on its absence counts from zero.
pub proof fn law_reconnection_follows_absence(d: MonitoredDevice, n: nat)
    requires
        d.consecutive_missing == 0,
        n <= u32::MAX,
    ensures
        check_event(after_misses(d, n), true) is Some <==> n >= threshold(d),
        n >= threshold(d) ==> check_event(after_misses(d, n), true) == Some(
            DeviceEvent::DeviceReconnected { device_name: d.name, device_type: d.device_type },
        ),
        checked(after_misses(d, n), true) == d,
{
    lemma_after_misses(d, n);
}

/// The device after checks that found it or did not, in their order.
pub open spec fn after_checks(d: MonitoredDevice, founds: Seq<bool>) -> MonitoredDevice
    decreases founds.len(),
{
    if founds.len() == 0 {
        d
    } else {
        checked(after_checks(d, founds.drop_last()), founds.last())
    }
}

/// Does the check at that place report the device as disconnected?
pub open spec fn disconnects_at(d: MonitoredDevice, founds: Seq<bool>, k: int) -> bool {
    0 <= k < founds.len() && check_event(after_checks(d, founds.take(k)), founds[k]) == Some(
        DeviceEvent::DeviceDisconnected { device_name: d.name, device_type: d.device_type },
    )
}

proof fn lemma_after_checks(d: MonitoredDevice, founds: Seq<bool>)
    requires
        d.consecutive_missing == 0,
        founds.len() <= u32::MAX,
    ensures
        after_checks(d, founds).consecutive_missing <= founds.len(),
        after_checks(d, founds) == (MonitoredDevice {
            consecutive_missing: after_checks(d, founds).consecutive_missing,
            ..d
        }),
        after_checks(d, founds).consecutive_missing >= threshold(d) ==> exists|k: int|
            #[trigger] disconnects_at(d, founds, k) && forall|j: int|
                k <= j < founds.len() ==> !#[trigger] founds[j],
    decreases founds.len(),
{
    if founds.len() > 0 {
        let before = founds.drop_last();
        lemma_after_checks(d, before);
        let last = founds.len() - 1;
        assert(founds.take(last) =~= before);
        if !founds[last] && after_checks(d, before).consecutive_missing >= threshold(d) {
            let k = choose|k: int|
                #[trigger] disconnects_at(d, before, k) && forall|j: int|
                    k <= j < before.len() ==> !#[trigger] before[j];
            assert(founds.take(k) =~= before.take(k));
            assert(founds[k] == before[k]);
            assert forall|j: int| k <= j < founds.len() implies !#[trigger] founds[j] by {
                if j < last {
                    assert(!before[j]);
                }
            }
            assert(disconnects_at(d, founds, k));
        } else if !founds[last] && after_checks(d, before).consecutive_missing + 1 >= threshold(d) {
            assert(disconnects_at(d, founds, last));
        }
    }
}

/// Every reconnection has a disconnection before it, and in between the device was never
/// there.
pub proof fn law_reconnection_has_a_disconnection(d: MonitoredDevice, founds: Seq<bool>)
    requires
        d.consecutive_missing == 0,
        founds.len() <= u32::MAX,
        check_event(after_checks(d, founds), true) is Some,
    ensures
        exists|k: int|
            #[trigger] disconnects_at(d, founds, k) && forall|j: int|
                k <= j < founds.len() ==> !#[trigger] founds[j],
{
    lemma_after_checks(d, founds);
}

/// Samples in a row that a new default must survive before it is acted on. Every
/// move to another device costs a short gap in the audio, and Bluetooth devices
/// flap while they connect.
pub const DEFAULT_CHANGE_DEBOUNCE_CYCLES: u32 = 2;

/// Seconds between two samples of the system's defaults.
pub const DEFAULT_SAMPLE_SECS: u64 = 2;

/// The system's default device of one role has changed.
#[derive(Debug, Clone)]
pub struct DefaultDeviceChange {
    pub device_type: DeviceMonitorType,
    pub old_name: String,
    pub new_name: String,
}

/// Follows the system's default device of one role.
#[derive(Debug, Clone)]
pub struct TrackedDefault {
    pub device_type: DeviceMonitorType,
    /// The device that the recording captures from.
    pub active_name: String,
    /// A new default that was seen but is not yet acted on.
    pub candidate: Option<String>,
    pub candidate_hits: u32,
}

/// What following one default depends on: the role, the active device, and the candidate
/// with the number of samples in a row that showed it.
pub struct Following {
    pub role: DeviceMonitorType,
    pub active: Seq<char>,
    pub candidate: Option<(Seq<char>, nat)>,
}

impl View for TrackedDefault {
    type V = Following;

    open spec fn view(&self) -> Following {
        Following {
            role: self.device_type,
            active: self.active_name@,
            candidate: match self.candidate {
                Some(c) => Some((c@, self.candidate_hits as nat)),
                None => None,
            },
        }
    }
}

/// Samples in a row that showed this default, the one just taken included.
pub open spec fn sightings(f: Following, current: Seq<char>) -> nat {
    match f.candidate {
        Some((name, hits)) if name == current => hits + 1,
        _ => 1,
    }
}

/// Does this sample complete a change of the default?
pub open spec fn completes_change(f: Following, current: Seq<char>) -> bool {
    current != f.active && sightings(f, current) >= DEFAULT_CHANGE_DEBOUNCE_CYCLES
}

/// What is known after one more sample.
pub open spec fn observed(f: Following, current: Seq<char>) -> Following {
    if current == f.active {
        Following { candidate: None, ..f }
    } else if completes_change(f, current) {
        Following { active: current, candidate: None, ..f }
    } else {
        Following { candidate: Some((current, sightings(f, current))), ..f }
    }
}

impl TrackedDefault {
    /// A candidate has been seen, but not often enough to act on it.
    pub open spec fn inv(&self) -> bool {
        match self.candidate {
            Some(c) => c@ != self.active_name@ && 1 <= self.candidate_hits
                < DEFAULT_CHANGE_DEBOUNCE_CYCLES,
            None => self.candidate_hits == 0,
        }
    }

    /// Starts from the device that is captured now.
    pub fn new(device_type: DeviceMonitorType, active_name: String) -> (r: TrackedDefault)
        ensures
            r.inv(),
            r.device_type == device_type,
            r@ == (Following { role: device_type, active: active_name@, candidate: None }),
    {
        TrackedDefault { device_type, active_name, candidate: None, candidate_hits: 0 }
    }

    /// Takes one sample of the system's default into account. The change is reported
    /// once the same new default has survived the debounce window.
    pub fn observe(&mut self, current: String) -> (change: Option<DefaultDeviceChange>)
        requires
            old(self).inv(),
        ensures
            final(self).inv(),
            final(self).device_type == old(self).device_type,
            final(self)@ == observed(old(self)@, current@),
            match change {
                Some(c) => completes_change(old(self)@, current@) && c.device_type == old(self).device_type && c.old_name == old(self).active_name && c.new_name == current,
                None => !completes_change(old(self)@, current@),
            },
    {
        if current == self.active_name {
            self.candidate = None;
            self.candidate_hits = 0;
            return None;
        }
        let again = match &self.candidate {
            Some(candidate) => *candidate == current,
            None => false,
        };
        if again {
            self.candidate_hits = self.candidate_hits + 1;
        } else {
            self.candidate = Some(current.clone());
            self.candidate_hits = 1;
        }
        if self.candidate_hits < DEFAULT_CHANGE_DEBOUNCE_CYCLES {
            return None;
        }
        let old_name = self.active_name.clone();
        self.active_name = current.clone();
        self.candidate = None;
        self.candidate_hits = 0;
        Some(DefaultDeviceChange { device_type: self.device_type, old_name, new_name: current })
    }
}

/// The roles that follow the system's default; a role without a name is pinned.
pub fn follow_defaults(
    microphone: Option<String>,
    system_audio: Option<String>,
) -> (r: Vec<TrackedDefault>)
    ensures
        r@.len() == roles(microphone, system_audio).len(),
        forall|i: int|
            0 <= i < r@.len() ==> (#[trigger] r@[i]).inv() && r@[i].device_type == roles(
                microphone,
                system_audio,
            )[i].1 && r@[i]@ == (Following {
                role: roles(microphone, system_audio)[i].1,
                active: roles(microphone, system_audio)[i].0@,
                candidate: None,
            }),
{
    let mut watched: Vec<TrackedDefault> = Vec::new();
    match microphone {
        Some(name) => {
            watched.push(TrackedDefault::new(DeviceMonitorType::Microphone, name));
        },
        None => {},
    }
    match system_audio {
        Some(name) => {
            watched.push(TrackedDefault::new(DeviceMonitorType::SystemAudio, name));
        },
        None => {},
    }
    watched
}

/// Is some followed role of that type? Only then its default is read.
pub fn follows(watched: &[TrackedDefault], device_type: DeviceMonitorType) -> (r: bool)
    ensures
        r == exists|i: int|
            0 <= i < watched@.len() && (#[trigger] watched@[i]).device_type == device_type,
{
    let mut i: usize = 0;
    while i < watched.len()
        invariant
            i <= watched@.len(),
            forall|j: int| 0 <= j < i ==> (#[trigger] watched@[j]).device_type != device_type,
        decreases watched@.len() - i,
    {
        if watched[i].device_type == device_type {
            return true;
        }
        i = i + 1;
    }
    false
}

/// The sample for a role, if its default could be read.
pub open spec fn sample_for(
    device_type: DeviceMonitorType,
    microphone: Option<String>,
    system_audio: Option<String>,
) -> Option<String> {
    match device_type {
        DeviceMonitorType::Microphone => microphone,
        DeviceMonitorType::SystemAudio => system_audio,
    }
}

/// What is known of a role after a round of samples: a default that could not be
/// read changes nothing.
pub open spec fn sampled(f: Following, sample: Option<String>) -> Following {
    match sample {
        Some(current) => observed(f, current@),
        None => f,
    }
}

/// The changes that a round completes, in the order of the roles, as role, old name
/// and new name.
pub open spec fn round_changes(
    watched: Seq<TrackedDefault>,
    microphone: Option<String>,
    system_audio: Option<String>,
) -> Seq<DefaultDeviceChange>
    decreases watched.len(),
{
    if watched.len() == 0 {
        Seq::empty()
    } else {
        let t = watched.last();
        let before = round_changes(watched.drop_last(), microphone, system_audio);
        match sample_for(t.device_type, microphone, system_audio) {
            Some(current) if completes_change(t@, current@) => before.push(
                DefaultDeviceChange {
                    device_type: t.device_type,
                    old_name: t.active_name,
                    new_name: current,
                },
            ),
            _ => before,
        }
    }
}

/// One round of samples for all followed roles.
pub fn watch_round(
    watched: &mut Vec<TrackedDefault>,
    microphone: &Option<String>,
    system_audio: &Option<String>,
) -> (changes: Vec<DefaultDeviceChange>)
    requires
        forall|i: int| 0 <= i < old(watched)@.len() ==> (#[trigger] old(watched)@[i]).inv(),
    ensures
        final(watched)@.len() == old(watched)@.len(),
        forall|i: int|
            0 <= i < old(watched)@.len() ==> (#[trigger] final(watched)@[i]).inv() && final(watched)@[i].device_type == old(watched)@[i].device_type && final(watched)@[i]@ == sampled(
                old(watched)@[i]@,
                sample_for(old(watched)@[i].device_type, *microphone, *system_audio),
            ),
        changes@ == round_changes(old(watched)@, *microphone, *system_audio),
{
    let ghost start = watched@;
    let mut changes: Vec<DefaultDeviceChange> = Vec::new();
    let mut i: usize = 0;
    while i < watched.len()
        invariant
            i <= watched@.len(),
            watched@.len() == start.len(),
            forall|j: int| i <= j < start.len() ==> #[trigger] watched@[j] == start[j],
            forall|j: int| 0 <= j < start.len() ==> (#[trigger] start[j]).inv(),
            forall|j: int|
                0 <= j < i ==> (#[trigger] watched@[j]).inv() && watched@[j].device_type
                    == start[j].device_type && watched@[j]@ == sampled(
                    start[j]@,
                    sample_for(start[j].device_type, *microphone, *system_audio),
                ),
            changes@ == round_changes(start.take(i as int), *microphone, *system_audio),
        decreases watched@.len() - i,
    {
        proof {
            assert(watched@[i as int] == start[i as int]);
            let now = start.take(i + 1);
            assert(now.drop_last() =~= start.take(i as int));
            assert(now.last() == start[i as int]);
        }
        let current = match watched[i].device_type {
            DeviceMonitorType::Microphone => text::clone_opt(microphone),
            DeviceMonitorType::SystemAudio => text::clone_opt(system_audio),
        };
        match current {
            Some(current) => {
                match watched[i].observe(current) {
                    Some(change) => {
                        changes.push(change);
                    },
                    None => {},
                }
            },
            None => {},
        }
        i = i + 1;
    }
    proof {
        assert(start.take(start.len() as int) =~= start);
    }
    changes
}

/// A new default that one sample shows for the first time changes nothing yet.
pub proof fn law_one_sample_is_not_enough(f: Following, current: Seq<char>)
    requires
        match f.candidate {
            Some((name, _)) => name != current,
            None => true,
        },
    ensures
        !completes_change(f, current),
        observed(f, current).active == f.active,
{
}

/// A new default that two samples in a row show is acted on, and not before.
pub proof fn law_two_samples_in_a_row_change_the_default(t: TrackedDefault, current: Seq<char>)
    requires
        t.inv(),
        current != t@.active,
        match t@.candidate {
            Some((name, _)) => name != current,
            None => true,
        },
    ensures
        !completes_change(t@, current),
        completes_change(observed(t@, current), current),
        observed(observed(t@, current), current) == (Following {
            active: current,
            candidate: None,
            ..t@
        }),
        !completes_change(observed(observed(t@, current), current), current),
{
}

/// When the default flips back, the sightings of the other device are forgotten.
pub proof fn law_flapping_default_is_ignored(f: Following, other: Seq<char>)
    requires
        other != f.active,
    ensures
        observed(f, f.active) == (Following { candidate: None, ..f }),
        !completes_change(observed(f, f.active), other),
{
}

/// Another candidate restarts the count.
pub proof fn law_other_candidate_restarts_the_count(
    f: Following,
    first: Seq<char>,
    second: Seq<char>,
)
    requires
        first != second,
        first != f.active,
        second != f.active,
        !completes_change(f, first),
    ensures
        !completes_change(observed(f, first), second),
        observed(observed(f, first), second).candidate == Some((second, 1nat)),
{
}

/// One check of one device, said of its own count and of the list alone: a listed device is
/// reported as back if it was missed at least twice, or three times with Bluetooth; a device
/// that is not listed is reported as lost by the check that makes it so many misses. Nothing
/// else is reported, and the report bears the device's name and role.
pub proof fn law_what_one_check_reports(d: MonitoredDevice, found: bool)
    ensures
        ({
            let needed = if d.is_bluetooth {
                3int
            } else {
                2int
            };
            check_event(d, found) == if found && d.consecutive_missing >= needed {
                Some(
                    DeviceEvent::DeviceReconnected {
                        device_name: d.name,
                        device_type: d.device_type,
                    },
                )
            } else if !found && d.consecutive_missing + 1 == needed {
                Some(
                    DeviceEvent::DeviceDisconnected {
                        device_name: d.name,
                        device_type: d.device_type,
                    },
                )
            } else {
                None
            }
        }),
{
}

/// A round checks every device by its own name: one that is listed starts to count from zero,
/// any other has one miss more, and nothing else of it changes.
pub proof fn law_every_device_is_checked(
    devices: Seq<MonitoredDevice>,
    current: Seq<String>,
    i: int,
)
    requires
        0 <= i < devices.len(),
        devices[i].consecutive_missing < u32::MAX,
    ensures
        checked_all(devices, current).len() == devices.len(),
        (exists|j: int| 0 <= j < current.len() && (#[trigger] current[j])@ == devices[i].name@)
            ==> checked_all(devices, current)[i] == (MonitoredDevice {
            consecutive_missing: 0,
            ..devices[i]
        }),
        (forall|j: int| 0 <= j < current.len() ==> (#[trigger] current[j])@ != devices[i].name@)
            ==> checked_all(devices, current)[i] == (MonitoredDevice {
            consecutive_missing: (devices[i].consecutive_missing + 1) as u32,
            ..devices[i]
        }),
{
    lemma_listed(current, devices[i].name);
}

proof fn lemma_listed(current: Seq<String>, name: String)
    ensures
        listed(current, name) <==> exists|j: int|
            0 <= j < current.len() && (#[trigger] current[j])@ == name@,
{
    let names = text::texts(current);
    if listed(current, name) {
        let j = choose|j: int| 0 <= j < names.len() && names[j] == name@;
        assert(current[j]@ == name@);
    }
    if exists|j: int| 0 <= j < current.len() && (#[trigger] current[j])@ == name@ {
        let j = choose|j: int| 0 <= j < current.len() && (#[trigger] current[j])@ == name@;
        assert(names[j] == name@);
    }
}

/// The devices are reported one after the other, whatever becomes of the others: the reports
/// of two lists of devices are those of the first and then those of the second, and the report
/// of a single device is that of its check. So no report is lost and none is made up.
pub proof fn law_devices_are_reported_independently(
    first: Seq<MonitoredDevice>,
    second: Seq<MonitoredDevice>,
    d: MonitoredDevice,
    current: Seq<String>,
)
    ensures
        check_events(first + second, current) == check_events(first, current) + check_events(
            second,
            current,
        ),
        check_events(seq![d], current) == match check_event(
            d,
            exists|j: int| 0 <= j < current.len() && (#[trigger] current[j])@ == d.name@,
        ) {
            Some(e) => seq![e],
            None => Seq::<DeviceEvent>::empty(),
        },
    decreases second.len(),
{
    lemma_listed(current, d.name);
    let one = seq![d];
    assert(one.drop_last() =~= Seq::<MonitoredDevice>::empty());
    assert(check_events(one.drop_last(), current) =~= Seq::<DeviceEvent>::empty());
    assert(one.last() == d);
    match check_event(d, listed(current, d.name)) {
        Some(e) => {
            assert(check_events(one, current) =~= seq![e]);
        },
        None => {},
    }
    if second.len() == 0 {
        assert(first + second =~= first);
        assert(check_events(first, current) + check_events(second, current) =~= check_events(
            first,
            current,
        ));
    } else {
        let head = second.drop_last();
        law_devices_are_reported_independently(first, head, d, current);
        assert((first + second).drop_last() =~= first + head);
        assert((first + second).last() == second.last());
        assert(check_events(first + second, current) =~= check_events(first, current)
            + check_events(second, current));
    }
}

/// Whatever the other devices do, the report of each device's check is among the reports of
/// the round. The round also says, once and first, that the list has another length.
pub proof fn law_no_report_is_lost(s: MonitorState, current: Seq<String>, i: int, e: DeviceEvent)
    requires
        0 <= i < s.devices@.len(),
        check_event(
            s.devices@[i],
            exists|j: int| 0 <= j < current.len() && (#[trigger] current[j])@
                == s.devices@[i].name@,
        ) == Some(e),
    ensures
        round_events(s, current).contains(e),
        current.len() != s.last_len ==> round_events(s, current)
            == seq![DeviceEvent::DeviceListChanged] + check_events(s.devices@, current),
        current.len() == s.last_len ==> round_events(s, current) == check_events(
            s.devices@,
            current,
        ),
{
    let devices = s.devices@;
    let d = devices[i];
    let before = devices.take(i);
    let after = devices.skip(i + 1);
    law_devices_are_reported_independently(before, seq![d], d, current);
    law_devices_are_reported_independently(before + seq![d], after, d, current);
    assert(devices =~= before + seq![d] + after);
    let all = check_events(devices, current);
    let at = check_events(before, current).len() as int;
    assert(all =~= check_events(before, current) + seq![e] + check_events(after, current));
    assert(all[at] == e);
    let round = round_events(s, current);
    if current.len() != s.last_len {
        assert(round[at + 1] == e);
    } else {
        assert(round =~= all);
        assert(round[at] == e);
    }
}

/// Both devices that are given are watched, the microphone first, each in its role; a role
/// without a device is not.
pub proof fn law_given_devices_are_watched(mic: String, system: String)
    ensures
        roles(Some(mic), Some(system)) == seq![
            (mic, DeviceMonitorType::Microphone),
            (system, DeviceMonitorType::SystemAudio),
        ],
        roles(Some(mic), None) == seq![(mic, DeviceMonitorType::Microphone)],
        roles(None, Some(system)) == seq![(system, DeviceMonitorType::SystemAudio)],
        roles(None, None) == Seq::<(String, DeviceMonitorType)>::empty(),
{
    assert(roles(Some(mic), Some(system)) =~= seq![
        (mic, DeviceMonitorType::Microphone),
        (system, DeviceMonitorType::SystemAudio),
    ]);
    assert(roles(None, Some(system)) =~= seq![(system, DeviceMonitorType::SystemAudio)]);
}

/// A name speaks of a wireless device if and only if one of the three words stands in it.
pub proof fn law_wireless_words(before: Seq<char>, after: Seq<char>)
    ensures
        speaks_of_bluetooth(before + "airpods"@ + after),
        speaks_of_bluetooth(before + "bluetooth"@ + after),
        speaks_of_bluetooth(before + "wireless"@ + after),
        speaks_of_bluetooth(before) ==> exists|at: int|
            #[trigger] text::stands_at(before, "airpods"@, at) || text::stands_at(
                before,
                "bluetooth"@,
                at,
            ) || text::stands_at(before, "wireless"@, at),
{
    text::law_pieces_stand_in_the_whole(before, "airpods"@, after);
    text::law_pieces_stand_in_the_whole(before, "bluetooth"@, after);
    text::law_pieces_stand_in_the_whole(before, "wireless"@, after);
    if text::has(before, "airpods"@) {
        let at = choose|at: int| #[trigger] text::stands_at(before, "airpods"@, at);
        assert(text::stands_at(before, "airpods"@, at));
    } else if text::has(before, "bluetooth"@) {
        let at = choose|at: int| #[trigger] text::stands_at(before, "bluetooth"@, at);
        assert(!text::stands_at(before, "airpods"@, at));
    } else if text::has(before, "wireless"@) {
        let at = choose|at: int| #[trigger] text::stands_at(before, "wireless"@, at);
        assert(!text::stands_at(before, "airpods"@, at));
    }
}

/// The roles follow their defaults one after the other, whatever becomes of the others: the
/// changes of two lists of roles are those of the first and then those of the second.
pub proof fn law_roles_change_independently(
    first: Seq<TrackedDefault>,
    second: Seq<TrackedDefault>,
    microphone: Option<String>,
    system_audio: Option<String>,
)
    ensures
        round_changes(first + second, microphone, system_audio) == round_changes(
            first,
            microphone,
            system_audio,
        ) + round_changes(second, microphone, system_audio),
    decreases second.len(),
{
    if second.len() == 0 {
        assert(first + second =~= first);
        assert(round_changes(first, microphone, system_audio) + round_changes(
            second,
            microphone,
            system_audio,
        ) =~= round_changes(first, microphone, system_audio));
    } else {
        let head = second.drop_last();
        law_roles_change_independently(first, head, microphone, system_audio);
        assert((first + second).drop_last() =~= first + head);
        assert((first + second).last() == second.last());
        assert(round_changes(first + second, microphone, system_audio) =~= round_changes(
            first,
            microphone,
            system_audio,
        ) + round_changes(second, microphone, system_audio));
    }
}

/// A role whose new default was seen once and is seen again is moved to it, by the sample of
/// its own role, and the change names the role, the device it leaves and the one it takes. A
/// role whose default is seen for the first time, is the active one or could not be read is
/// not moved.
pub proof fn law_second_sightings_move_a_role(
    t: TrackedDefault,
    microphone: Option<String>,
    system_audio: Option<String>,
)
    requires
        t.inv(),
    ensures
        ({
            let sample = match t.device_type {
                DeviceMonitorType::Microphone => microphone,
                DeviceMonitorType::SystemAudio => system_audio,
            };
            let moved = sample is Some && t.candidate is Some && sample->0@ == t.candidate->0@;
            round_changes(seq![t], microphone, system_audio) == if moved {
                seq![
                    DefaultDeviceChange {
                        device_type: t.device_type,
                        old_name: t.active_name,
                        new_name: sample->0,
                    },
                ]
            } else {
                Seq::<DefaultDeviceChange>::empty()
            }
        }),
        sampled(t@, None) == t@,
{
    let one = seq![t];
    assert(one.drop_last() =~= Seq::<TrackedDefault>::empty());
    let none = round_changes(one.drop_last(), microphone, system_audio);
    assert(none =~= Seq::<DefaultDeviceChange>::empty());
    assert(one.last() == t);
    match sample_for(t.device_type, microphone, system_audio) {
        Some(current) => {
            let change = DefaultDeviceChange {
                device_type: t.device_type,
                old_name: t.active_name,
                new_name: current,
            };
            assert(none.push(change) =~= seq![change]);
        },
        None => {},
    }
}

/// A Bluetooth device gets a longer grace before it counts as lost, and more time between the
/// attempts to find it again, than any other.
pub proof fn law_wireless_devices_get_more_time(wireless: MonitoredDevice, wired: MonitoredDevice)
    requires
        wireless.is_bluetooth,
        !wired.is_bluetooth,
    ensures
        threshold(wireless) == 3 && threshold(wired) == 2,
        retry_secs(wireless) == 5 && retry_secs(wired) == 3,
{
}

/// After a round the log speaks of the short interval where a device was not found, and of the
/// long one where each was.
pub proof fn law_missing_devices_shorten_the_interval(
    devices: Seq<MonitoredDevice>,
    current: Seq<String>,
    i: int,
)
    requires
        forall|k: int|
            0 <= k < devices.len() ==> (#[trigger] devices[k]).consecutive_missing < u32::MAX,
    ensures
        0 <= i < devices.len() && (forall|j: int|
            0 <= j < current.len() ==> (#[trigger] current[j])@ != devices[i].name@)
            ==> logged_interval(checked_all(devices, current)) == 2,
        (forall|k: int|
            0 <= k < devices.len() ==> text::texts(current).contains((#[trigger] devices[k]).name@))
            ==> logged_interval(checked_all(devices, current)) == 5,
{
    let after = checked_all(devices, current);
    if 0 <= i < devices.len() && (forall|j: int|
        0 <= j < current.len() ==> (#[trigger] current[j])@ != devices[i].name@) {
        lemma_listed(current, devices[i].name);
        assert(after[i].consecutive_missing > 0);
    }
    if forall|k: int|
        0 <= k < devices.len() ==> text::texts(current).contains((#[trigger] devices[k]).name@) {
        assert forall|k: int| 0 <= k < after.len() implies (
        #[trigger] after[k]).consecutive_missing == 0 by {
            assert(text::texts(current).contains(devices[k].name@));
        }
    }
}

} // verus!
