use pulseaudio_applet::pulse_dbus::device::{Device, DeviceRecord, DeviceType};
use pulseaudio_applet::pulse_dbus::parse_server_address;
use pulseaudio_applet::pulse_dbus::pulse_dbus_client::PulesDbusClient;

fn record(path: &str, name: &str, volume: Vec<u32>, mute: bool) -> DeviceRecord {
    DeviceRecord {
        path: path.to_string(),
        name: name.to_string(),
        volume,
        mute,
    }
}

#[test]
fn parses_unix_socket_address() {
    let raw = "unix:path=/run/user/1000/pulse/dbus-socket";
    assert_eq!(parse_server_address(raw), "/run/user/1000/pulse/dbus-socket");
}

#[test]
fn keeps_address_without_separator() {
    assert_eq!(parse_server_address("tcp:localhost"), "tcp:localhost");
}

#[test]
fn takes_piece_after_last_separator() {
    assert_eq!(parse_server_address("a=b=c"), "c");
}

#[test]
fn trailing_separator_gives_empty_address() {
    assert_eq!(parse_server_address("unix:path="), "");
}

#[test]
fn empty_lookup_reply_stays_empty() {
    assert_eq!(parse_server_address(""), "");
}

#[test]
fn builds_devices_in_enumeration_order() {
    let records = vec![
        record("/org/pulseaudio/core1/sink0", "alsa_output", vec![65536, 65536], false),
        record("/org/pulseaudio/core1/sink1", "hdmi_output", vec![32768], true),
    ];
    let devices = PulesDbusClient::get_devices(DeviceType::Sink, records);
    assert_eq!(devices.len(), 2);
    assert_eq!(devices[0].path, "/org/pulseaudio/core1/sink0");
    assert_eq!(devices[0].name, "alsa_output");
    assert_eq!(devices[0].volume, vec![65536, 65536]);
    assert!(!devices[0].mute);
    assert_eq!(devices[0].device_type, DeviceType::Sink);
    assert_eq!(devices[1].path, "/org/pulseaudio/core1/sink1");
    assert_eq!(devices[1].name, "hdmi_output");
    assert_eq!(devices[1].volume, vec![32768]);
    assert!(devices[1].mute);
    assert_eq!(devices[1].device_type, DeviceType::Sink);
}

#[test]
fn stamps_sources_with_their_kind() {
    let records = vec![record("/org/pulseaudio/core1/source0", "mic", vec![100], false)];
    let devices = PulesDbusClient::get_devices(DeviceType::Source, records);
    assert_eq!(devices.len(), 1);
    assert_eq!(devices[0].device_type, DeviceType::Source);
}

#[test]
fn no_devices_enumerated_gives_no_devices() {
    let devices = PulesDbusClient::get_devices(DeviceType::Sink, Vec::new());
    assert!(devices.is_empty());
}

#[test]
fn client_holds_the_enumerated_devices() {
    let sinks = PulesDbusClient::get_devices(
        DeviceType::Sink,
        vec![record("/s0", "out", vec![1], false)],
    );
    let sources = PulesDbusClient::get_devices(
        DeviceType::Source,
        vec![record("/i0", "in", vec![2], true), record("/i1", "in2", vec![3], false)],
    );
    let client = PulesDbusClient::new(sinks, sources);
    assert_eq!(client.sinks.len(), 1);
    assert_eq!(client.sources.len(), 2);
    assert_eq!(client.sinks[0].path, "/s0");
    assert_eq!(client.sources[1].name, "in2");
}

#[test]
fn property_name_matches_device_kind() {
    assert_eq!(PulesDbusClient::devices_property_name(DeviceType::Sink), "Sinks");
    assert_eq!(PulesDbusClient::devices_property_name(DeviceType::Source), "Sources");
}

#[test]
fn set_mute_changes_only_the_mute_flag() {
    let mut device = Device {
        path: "/s0".to_string(),
        device_type: DeviceType::Sink,
        volume: vec![10, 20],
        mute: false,
        name: "out".to_string(),
    };
    device.set_mute(true);
    assert!(device.mute);
    assert_eq!(device.path, "/s0");
    assert_eq!(device.volume, vec![10, 20]);
    assert_eq!(device.name, "out");
    device.set_mute(false);
    assert!(!device.mute);
}

#[test]
fn set_volume_changes_only_the_volume() {
    let mut device = Device {
        path: "/s0".to_string(),
        device_type: DeviceType::Sink,
        volume: vec![10, 20],
        mute: true,
        name: "out".to_string(),
    };
    device.set_volume(vec![55]);
    assert_eq!(device.volume, vec![55]);
    assert!(device.mute);
    assert_eq!(device.name, "out");
}

#[test]
fn primary_volume_is_the_first_channel() {
    let device = Device {
        path: "/s0".to_string(),
        device_type: DeviceType::Sink,
        volume: vec![42, 7],
        mute: false,
        name: "out".to_string(),
    };
    assert_eq!(device.primary_volume(), 42);
}
