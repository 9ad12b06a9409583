//! Audio devices as the recorder sees them.
use vstd::prelude::*;

verus! {

#[derive(Debug, Clone, Copy, PartialEq, Eq, Structural)]
pub enum DeviceType {
    Input,
    Output,
}

#[derive(Debug, Clone)]
pub struct AudioDevice {
    pub name: String,
    pub device_type: DeviceType,
}

/// A device as name and type.
pub open spec fn device_view(d: AudioDevice) -> (Seq<char>, DeviceType) {
    (d.name@, d.device_type)
}

/// The devices as names and types.
pub open spec fn device_views(devices: Seq<AudioDevice>) -> Seq<(Seq<char>, DeviceType)> {
    devices.map_values(|d: AudioDevice| device_view(d))
}

} // verus!
