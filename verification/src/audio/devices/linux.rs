//! The devices that a Linux machine offers.
use crate::audio::devices::configuration;
use crate::audio::devices::configuration::{AudioDevice, DeviceType};
use crate::text;
use vstd::prelude::*;

verus! {

/// The input devices whose names could be read, in their order.
pub open spec fn inputs_of(names: Seq<Option<String>>) -> Seq<(Seq<char>, DeviceType)>
    decreases names.len(),
{
    if names.len() == 0 {
        Seq::empty()
    } else {
        let before = inputs_of(names.drop_last());
        match names.last() {
            Some(name) => before.push((name@, DeviceType::Input)),
            None => before,
        }
    }
}

/// The monitors among the devices whose names could be read, marked as system audio.
pub open spec fn monitors_of(names: Seq<Option<String>>) -> Seq<(Seq<char>, DeviceType)>
    decreases names.len(),
{
    if names.len() == 0 {
        Seq::empty()
    } else {
        let before = monitors_of(names.drop_last());
        match names.last() {
            Some(name) if text::has(name@, "monitor"@) => before.push(
                (name@ + " (System Audio)"@, DeviceType::Output),
            ),
            _ => before,
        }
    }
}

fn add_inputs(devices: &mut Vec<AudioDevice>, names: &[Option<String>])
    ensures
        configuration::device_views(final(devices)@) == configuration::device_views(old(devices)@)
            + inputs_of(names@),
{
    let ghost start = configuration::device_views(devices@);
    let mut i: usize = 0;
    proof {
        assert(start =~= start + inputs_of(names@.take(0)));
    }
    while i < names.len()
        invariant
            i <= names@.len(),
            configuration::device_views(devices@) == start + inputs_of(names@.take(i as int)),
        decreases names@.len() - i,
    {
        proof {
            let now = names@.take(i + 1);
            assert(now.drop_last() =~= names@.take(i as int));
            assert(now.last() == names@[i as int]);
        }
        let ghost before = devices@;
        match &names[i] {
            Some(name) => {
                let d = AudioDevice { name: name.clone(), device_type: DeviceType::Input };
                devices.push(d);
                proof {
                    assert(configuration::device_views(devices@) =~= configuration::device_views(
                        before,
                    ).push(configuration::device_view(d)));
                }
            },
            None => {},
        }
        i = i + 1;
    }
    proof {
        assert(names@.take(names@.len() as int) =~= names@);
    }
}

fn add_monitors(devices: &mut Vec<AudioDevice>, names: &[Option<String>])
    ensures
        configuration::device_views(final(devices)@) == configuration::device_views(old(devices)@)
            + monitors_of(names@),
{
    let ghost start = configuration::device_views(devices@);
    let mut i: usize = 0;
    proof {
        assert(start =~= start + monitors_of(names@.take(0)));
    }
    while i < names.len()
        invariant
            i <= names@.len(),
            configuration::device_views(devices@) == start + monitors_of(names@.take(i as int)),
        decreases names@.len() - i,
    {
        proof {
            let now = names@.take(i + 1);
            assert(now.drop_last() =~= names@.take(i as int));
            assert(now.last() == names@[i as int]);
        }
        let ghost before = devices@;
        match &names[i] {
            Some(name) => {
                if text::contains(name.as_str(), "monitor") {
                    let d = AudioDevice {
                        name: text::concat2(name.as_str(), " (System Audio)"),
                        device_type: DeviceType::Output,
                    };
                    devices.push(d);
                    proof {
                        assert(configuration::device_views(devices@)
                            =~= configuration::device_views(before).push(
                            configuration::device_view(d),
                        ));
                    }
                }
            },
            None => {},
        }
        i = i + 1;
    }
    proof {
        assert(names@.take(names@.len() as int) =~= names@);
    }
}

/// The devices of a machine with these input devices and, if it has an ALSA host, these of
/// that host.
pub open spec fn machine_devices(
    names: Seq<Option<String>>,
    alsa_names: Option<Seq<Option<String>>>,
) -> Seq<(Seq<char>, DeviceType)> {
    inputs_of(names) + match alsa_names {
        Some(alsa_names) => monitors_of(alsa_names),
        None => Seq::empty(),
    }
}

/// The devices of a machine, from the names of its input devices and of the input devices
/// of its ALSA host, if it has one. A device whose name cannot be read is left out; a list
/// that cannot be read is an error.
pub fn configure_linux_audio(
    inputs: Result<Vec<Option<String>>, String>,
    alsa_inputs: Option<Result<Vec<Option<String>>, String>>,
) -> (r: Result<Vec<AudioDevice>, String>)
    ensures
        match (inputs, alsa_inputs) {
            (Err(e), _) => r == Err::<Vec<AudioDevice>, String>(e),
            (Ok(_), Some(Err(e))) => r == Err::<Vec<AudioDevice>, String>(e),
            (Ok(names), Some(Ok(alsa_names))) => r matches Ok(devices)
                && configuration::device_views(devices@) == inputs_of(names@) + monitors_of(
                alsa_names@,
            ),
            (Ok(names), None) => r matches Ok(devices) && configuration::device_views(devices@)
                == inputs_of(names@),
        },
        r matches Ok(devices) ==> configuration::device_views(devices@) == machine_devices(
            inputs->Ok_0@,
            match alsa_inputs {
                Some(listed) => Some(listed->Ok_0@),
                None => None,
            },
        ),
        r is Ok <==> inputs is Ok && (alsa_inputs is None || alsa_inputs->0 is Ok),
{
    let mut devices: Vec<AudioDevice> = Vec::new();
    proof {
        assert(configuration::device_views(devices@) =~= Seq::empty());
    }
    match inputs {
        Ok(names) => add_inputs(&mut devices, &names),
        Err(e) => {
            return Err(e);
        },
    }
    proof {
        assert(configuration::device_views(devices@) + Seq::<(Seq<char>, DeviceType)>::empty()
            =~= configuration::device_views(devices@));
    }
    match alsa_inputs {
        Some(Ok(names)) => add_monitors(&mut devices, &names),
        Some(Err(e)) => {
            return Err(e);
        },
        None => {},
    }
    Ok(devices)
}

/// Input devices are listed one by one, in their order: a device whose name could be read
/// under that name, and any other not at all.
pub proof fn law_inputs_are_listed_one_by_one(
    some: Seq<Option<String>>,
    more: Seq<Option<String>>,
)
    ensures
        inputs_of(some + more) == inputs_of(some) + inputs_of(more),
        some.len() == 1 && some[0] is Some ==> inputs_of(some) == seq![
            (some[0]->0@, DeviceType::Input),
        ],
        some.len() == 1 && some[0] is None ==> inputs_of(some).len() == 0,
    decreases more.len(),
{
    if more.len() > 0 {
        law_inputs_are_listed_one_by_one(some, more.drop_last());
        assert((some + more).drop_last() =~= some + more.drop_last());
        assert((some + more).last() == more.last());
    } else {
        assert(some + more =~= some);
        assert(inputs_of(some) + inputs_of(more) =~= inputs_of(some));
    }
    if some.len() == 1 {
        assert(some.drop_last() =~= Seq::empty());
        reveal_with_fuel(inputs_of, 2);
        if some[0] is Some {
            assert(inputs_of(some) =~= seq![(some[0]->0@, DeviceType::Input)]);
        }
    }
}

/// The devices of the ALSA host are listed one by one, in their order: a device whose name
/// could be read and speaks of a monitor as system audio, and any other not at all.
pub proof fn law_monitors_are_listed_one_by_one(
    some: Seq<Option<String>>,
    more: Seq<Option<String>>,
)
    ensures
        monitors_of(some + more) == monitors_of(some) + monitors_of(more),
        some.len() == 1 && some[0] is Some && text::has(some[0]->0@, "monitor"@) ==> monitors_of(
            some,
        ) == seq![(some[0]->0@ + " (System Audio)"@, DeviceType::Output)],
        some.len() == 1 && (some[0] is None || !text::has(some[0]->0@, "monitor"@))
            ==> monitors_of(some).len() == 0,
    decreases more.len(),
{
    if more.len() > 0 {
        law_monitors_are_listed_one_by_one(some, more.drop_last());
        assert((some + more).drop_last() =~= some + more.drop_last());
        assert((some + more).last() == more.last());
    } else {
        assert(some + more =~= some);
        assert(monitors_of(some) + monitors_of(more) =~= monitors_of(some));
    }
    if some.len() == 1 {
        assert(some.drop_last() =~= Seq::empty());
        reveal_with_fuel(monitors_of, 2);
        if some[0] is Some && text::has(some[0]->0@, "monitor"@) {
            assert(monitors_of(some) =~= seq![
                (some[0]->0@ + " (System Audio)"@, DeviceType::Output),
            ]);
        }
    }
}

/// Every input device whose name could be read is among the machine's devices, and so is
/// every monitor of its ALSA host. The input devices come first, and the ALSA host takes
/// none of them away.
pub proof fn law_no_device_is_left_out(
    names: Seq<Option<String>>,
    alsa_names: Seq<Option<String>>,
    i: int,
)
    ensures
        0 <= i < names.len() && names[i] is Some ==> {
            &&& machine_devices(names, None).contains((names[i]->0@, DeviceType::Input))
            &&& machine_devices(names, Some(alsa_names)).contains(
                (names[i]->0@, DeviceType::Input),
            )
        },
        0 <= i < alsa_names.len() && alsa_names[i] is Some && text::has(
            alsa_names[i]->0@,
            "monitor"@,
        ) ==> machine_devices(names, Some(alsa_names)).contains(
            (alsa_names[i]->0@ + " (System Audio)"@, DeviceType::Output),
        ),
        machine_devices(names, None).is_prefix_of(machine_devices(names, Some(alsa_names))),
{
    let all = machine_devices(names, Some(alsa_names));
    let inputs = machine_devices(names, None);
    assert(inputs =~= inputs_of(names));
    assert(inputs =~= all.take(inputs.len() as int));
    if 0 <= i < names.len() && names[i] is Some {
        let before = names.take(i);
        let one = seq![names[i]];
        let rest = names.skip(i + 1);
        assert(names =~= before + (one + rest));
        law_inputs_are_listed_one_by_one(before, one + rest);
        law_inputs_are_listed_one_by_one(one, rest);
        let at = inputs_of(before).len() as int;
        assert(inputs[at] == (names[i]->0@, DeviceType::Input));
        assert(all[at] == (names[i]->0@, DeviceType::Input));
    }
    if 0 <= i < alsa_names.len() && alsa_names[i] is Some && text::has(
        alsa_names[i]->0@,
        "monitor"@,
    ) {
        let before = alsa_names.take(i);
        let one = seq![alsa_names[i]];
        let rest = alsa_names.skip(i + 1);
        assert(alsa_names =~= before + (one + rest));
        law_monitors_are_listed_one_by_one(before, one + rest);
        law_monitors_are_listed_one_by_one(one, rest);
        let at = inputs.len() + monitors_of(before).len();
        assert(all[at as int] == (alsa_names[i]->0@ + " (System Audio)"@, DeviceType::Output));
    }
}

} // verus!
