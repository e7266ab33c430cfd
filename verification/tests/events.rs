use plugged::event::{classify, device_key, device_name, Action, DeviceEvent, EventKind, Property};

fn prop(key: &str, value: &str) -> Property {
    Property { key: key.to_string(), value: value.to_string() }
}

fn event(
    devpath: &str,
    sysname: &str,
    devtype: Option<&str>,
    kind: EventKind,
    properties: Vec<Property>,
) -> DeviceEvent {
    DeviceEvent {
        devpath: devpath.to_string(),
        sysname: sysname.to_string(),
        devtype: devtype.map(|t| t.to_string()),
        kind,
        properties,
    }
}

#[test]
fn database_name_is_preferred_over_devnode_path() {
    let ev = event(
        "/devices/usb1/1-1",
        "1-1",
        Some("usb_device"),
        EventKind::Add,
        vec![prop("DEVNAME", "/dev/bus/usb/001/002"), prop("ID_MODEL_FROM_DATABASE", "Flash Drive")],
    );
    assert_eq!(device_name(&ev), "Flash Drive");
}

#[test]
fn empty_property_values_are_skipped() {
    let ev = event(
        "/devices/usb1/1-2",
        "1-2",
        Some("usb_device"),
        EventKind::Add,
        vec![prop("ID_MODEL", ""), prop("ID_VENDOR", "Example Corp")],
    );
    assert_eq!(device_name(&ev), "Example Corp");
}

#[test]
fn sysname_is_the_last_fallback() {
    let ev = event(
        "/devices/usb1/1-3",
        "1-3",
        Some("usb_device"),
        EventKind::Remove,
        vec![],
    );
    assert_eq!(device_name(&ev), "1-3");
}

#[test]
fn key_is_the_device_path() {
    let ev = event(
        "/devices/usb1/1-1",
        "1-1",
        Some("usb_device"),
        EventKind::Add,
        vec![],
    );
    assert_eq!(device_key(&ev), "/devices/usb1/1-1");
}

#[test]
fn add_event_classifies_as_connected() {
    let ev = event(
        "/devices/usb1/1-1",
        "1-1",
        Some("usb_device"),
        EventKind::Add,
        vec![prop("ID_MODEL_FROM_DATABASE", "Flash Drive")],
    );
    let c = classify(&ev).expect("a usb_device Add event is relevant");
    assert_eq!(c.key, "/devices/usb1/1-1");
    assert_eq!(c.name, "Flash Drive");
    assert_eq!(c.action, Action::Connected);
}

#[test]
fn interface_subnode_is_dropped_even_with_valid_kind() {
    let ev = event(
        "/devices/usb1/1-1/1-1:1.0",
        "1-1:1.0",
        Some("usb_interface"),
        EventKind::Add,
        vec![prop("ID_MODEL_FROM_DATABASE", "Flash Drive")],
    );
    assert!(classify(&ev).is_none());
    let removal = event(
        "/devices/usb1/1-1/1-1:1.0",
        "1-1:1.0",
        Some("usb_interface"),
        EventKind::Remove,
        vec![],
    );
    assert!(classify(&removal).is_none());
}

#[test]
fn missing_devtype_is_dropped() {
    let ev = event("/devices/usb1", "usb1", None, EventKind::Add, vec![]);
    assert!(classify(&ev).is_none());
}

#[test]
fn other_event_kinds_are_dropped() {
    let ev = event(
        "/devices/usb1/1-1",
        "1-1",
        Some("usb_device"),
        EventKind::Other,
        vec![prop("ID_MODEL_FROM_DATABASE", "Flash Drive")],
    );
    assert!(classify(&ev).is_none());
}

#[test]
fn classification_is_repeatable() {
    let ev = event(
        "/devices/usb1/1-1",
        "1-1",
        Some("usb_device"),
        EventKind::Add,
        vec![prop("ID_SERIAL", "ABC123")],
    );
    let first = classify(&ev).expect("relevant event");
    let second = classify(&ev).expect("relevant event");
    assert_eq!(first.key, second.key);
    assert_eq!(first.name, second.name);
    assert_eq!(first.action, second.action);
}
