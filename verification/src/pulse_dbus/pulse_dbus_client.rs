//! The client snapshot built from one device-enumeration pass.
//!
//! The transport asks the sound server's core object for its `Sinks` and
//! `Sources` object paths, fetches each device's `Name`, `Volume` and `Mute`
//! properties, and hands the resulting records to [`PulesDbusClient::get_devices`],
//! which turns them into [`Device`] values of the given kind.

use vstd::prelude::*;

use crate::pulse_dbus::device::{Device, DeviceRecord, DeviceType, device_of_record};

verus! {

/// A snapshot of the sound server's devices, taken once at startup.
pub struct PulesDbusClient {
    pub sinks: Vec<Device>,
    pub sources: Vec<Device>,
}

impl PulesDbusClient {
    /// A client that holds exactly the given enumerated devices.
    pub fn new(sinks: Vec<Device>, sources: Vec<Device>) -> (client: Self)
        ensures
            client.sinks == sinks,
            client.sources == sources,
    {
        Self { sinks, sources }
    }

    /// The core property that lists the object paths of devices of this kind.
    pub fn devices_property_name(device_type: DeviceType) -> (name: &'static str)
        ensures
            device_type == DeviceType::Sink ==> name@ == "Sinks"@,
            device_type == DeviceType::Source ==> name@ == "Sources"@,
    {
        match device_type {
            DeviceType::Sink => "Sinks",
            DeviceType::Source => "Sources",
        }
    }

    /// The devices of one kind, in enumeration order: the `i`th device is the
    /// `i`th fetched record stamped with `device_type`.
    pub fn get_devices(device_type: DeviceType, records: Vec<DeviceRecord>) -> (devices: Vec<
        Device,
    >)
        ensures
            devices@.len() == records@.len(),
            forall|i: int|
                0 <= i < records@.len() ==> devices@[i] == device_of_record(
                    device_type,
                    records@[i],
                ),
    {
        let ghost all = records@;
        let mut records = records;
        let mut devices: Vec<Device> = Vec::new();
        while records.len() > 0
            invariant
                devices@.len() + records@.len() == all.len(),
                records@ == all.subrange(devices@.len() as int, all.len() as int),
                forall|i: int|
                    0 <= i < devices@.len() ==> devices@[i] == device_of_record(
                        device_type,
                        all[i],
                    ),
            decreases records@.len(),
        {
            let record = records.remove(0);
            let ghost fetched = record;
            let DeviceRecord { path, name, volume, mute } = record;
            let device = Device { path, device_type, volume, mute, name };
            proof {
                assert(device == device_of_record(device_type, fetched));
            }
            devices.push(device);
            proof {
                assert(records@ =~= all.subrange(devices@.len() as int, all.len() as int));
            }
        }
        devices
    }
}

} // verus!
