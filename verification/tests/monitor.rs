use plugged::cache::NameCache;
use plugged::event::{Action, DeviceEvent, EventKind, Property};
use plugged::monitor::{continue_running, drain_cycle, handle_event, next_phase, Phase};

fn prop(key: &str, value: &str) -> Property {
    Property { key: key.to_string(), value: value.to_string() }
}

fn usb_event(devpath: &str, kind: EventKind, properties: Vec<Property>) -> DeviceEvent {
    DeviceEvent {
        devpath: devpath.to_string(),
        sysname: devpath.rsplit('/').next().unwrap_or("").to_string(),
        devtype: Some("usb_device".to_string()),
        kind,
        properties,
    }
}

#[test]
fn remove_recovers_the_name_recorded_at_add_time() {
    let mut cache = NameCache::new();

    let add = usb_event(
        "/devices/usb1/1-1",
        EventKind::Add,
        vec![prop("ID_MODEL_FROM_DATABASE", "Flash Drive")],
    );
    let connected = handle_event(&mut cache, &add).expect("Add should dispatch");
    assert_eq!(connected.name, "Flash Drive");
    assert_eq!(connected.action, Action::Connected);

    let remove = usb_event("/devices/usb1/1-1", EventKind::Remove, vec![]);
    let disconnected = handle_event(&mut cache, &remove).expect("Remove should dispatch");
    assert_eq!(disconnected.name, "Flash Drive");
    assert_eq!(disconnected.action, Action::Disconnected);

    // The entry was taken out: a second Remove falls back to the event's own
    // derivation, here the short symbolic name.
    let again = handle_event(&mut cache, &remove).expect("Remove should dispatch");
    assert_eq!(again.name, "1-1");
}

#[test]
fn remove_of_an_unseen_key_derives_from_the_event_itself() {
    let mut cache = NameCache::new();
    let remove = usb_event(
        "/devices/usb3/3-2",
        EventKind::Remove,
        vec![prop("ID_VENDOR", "Example Corp")],
    );
    let dispatched = handle_event(&mut cache, &remove).expect("Remove should dispatch");
    assert_eq!(dispatched.name, "Example Corp");
    assert_eq!(dispatched.action, Action::Disconnected);
}

#[test]
fn a_later_add_overwrites_the_recorded_name() {
    let mut cache = NameCache::new();
    let first = usb_event(
        "/devices/usb1/1-1",
        EventKind::Add,
        vec![prop("ID_MODEL", "Old Name")],
    );
    let second = usb_event(
        "/devices/usb1/1-1",
        EventKind::Add,
        vec![prop("ID_MODEL", "New Name")],
    );
    handle_event(&mut cache, &first);
    handle_event(&mut cache, &second);
    let remove = usb_event("/devices/usb1/1-1", EventKind::Remove, vec![]);
    let dispatched = handle_event(&mut cache, &remove).expect("Remove should dispatch");
    assert_eq!(dispatched.name, "New Name");
}

#[test]
fn irrelevant_events_change_nothing() {
    let mut cache = NameCache::new();
    let interface = DeviceEvent {
        devpath: "/devices/usb1/1-1/1-1:1.0".to_string(),
        sysname: "1-1:1.0".to_string(),
        devtype: Some("usb_interface".to_string()),
        kind: EventKind::Add,
        properties: vec![prop("ID_MODEL_FROM_DATABASE", "Flash Drive")],
    };
    assert!(handle_event(&mut cache, &interface).is_none());
}

#[test]
fn a_drained_batch_dispatches_in_delivery_order() {
    let mut cache = NameCache::new();
    let batch = vec![
        usb_event(
            "/devices/usb1/1-1",
            EventKind::Add,
            vec![prop("ID_MODEL_FROM_DATABASE", "Flash Drive")],
        ),
        DeviceEvent {
            devpath: "/devices/usb1/1-1/1-1:1.0".to_string(),
            sysname: "1-1:1.0".to_string(),
            devtype: Some("usb_interface".to_string()),
            kind: EventKind::Add,
            properties: vec![],
        },
        usb_event(
            "/devices/usb2/2-4",
            EventKind::Add,
            vec![prop("ID_MODEL", "Keyboard")],
        ),
        usb_event("/devices/usb1/1-1", EventKind::Remove, vec![]),
    ];
    let dispatches = drain_cycle(&mut cache, &batch);
    assert_eq!(dispatches.len(), 3);
    assert_eq!(dispatches[0].name, "Flash Drive");
    assert_eq!(dispatches[0].action, Action::Connected);
    assert_eq!(dispatches[1].name, "Keyboard");
    assert_eq!(dispatches[1].action, Action::Connected);
    assert_eq!(dispatches[2].name, "Flash Drive");
    assert_eq!(dispatches[2].action, Action::Disconnected);
}

#[test]
fn shutdown_request_ends_the_loop_at_the_next_observation() {
    let phase = Phase::Running;
    assert!(continue_running(phase));
    let phase = next_phase(phase, true);
    assert_eq!(phase, Phase::ShuttingDown);
    assert!(!continue_running(phase));
}

#[test]
fn shutdown_latches_even_if_the_flag_clears() {
    let phase = next_phase(Phase::ShuttingDown, false);
    assert_eq!(phase, Phase::ShuttingDown);
}

#[test]
fn the_loop_keeps_running_without_a_shutdown_request() {
    let phase = next_phase(Phase::Running, false);
    assert_eq!(phase, Phase::Running);
    assert!(continue_running(phase));
}
