//! The audio devices that the sound server exposes over D-Bus.

use vstd::prelude::*;

verus! {

/// Whether a device plays audio (a sink) or captures it (a source).
#[derive(Copy, Clone, PartialEq, Eq, Structural, Debug)]
pub enum DeviceType {
    Sink,
    Source,
}

/// One audio device as enumerated over the sound server's D-Bus interface:
/// its object path, its kind, one volume level per channel, and its mute flag.
pub struct Device {
    pub path: String,
    pub device_type: DeviceType,
    pub volume: Vec<u32>,
    pub mute: bool,
    pub name: String,
}

/// The property values fetched for one device object, before its kind is
/// known: the plain values that the D-Bus transport hands to the library.
pub struct DeviceRecord {
    pub path: String,
    pub name: String,
    pub volume: Vec<u32>,
    pub mute: bool,
}

/// The device that a fetched record describes, once its kind is known.
pub open spec fn device_of_record(device_type: DeviceType, record: DeviceRecord) -> Device {
    Device {
        path: record.path,
        device_type: device_type,
        volume: record.volume,
        mute: record.mute,
        name: record.name,
    }
}

impl Device {
    /// Set the device's mute flag; every other field keeps its value.
    pub fn set_mute(&mut self, mute: bool)
        ensures
            final(self).mute == mute,
            final(self).path == old(self).path,
            final(self).device_type == old(self).device_type,
            final(self).volume == old(self).volume,
            final(self).name == old(self).name,
    {
        self.mute = mute;
    }

    /// The volume of the first channel, which a one-slider control displays.
    /// The device must have at least one channel.
    pub fn primary_volume(&self) -> (level: u32)
        requires
            self.volume@.len() > 0,
        ensures
            level == self.volume@[0],
    {
        self.volume[0]
    }

    /// Set the device's per-channel volume; every other field keeps its value.
    pub fn set_volume(&mut self, volume: Vec<u32>)
        ensures
            final(self).volume == volume,
            final(self).path == old(self).path,
            final(self).device_type == old(self).device_type,
            final(self).mute == old(self).mute,
            final(self).name == old(self).name,
    {
        self.volume = volume;
    }
}

} // verus!
