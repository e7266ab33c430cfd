//! Classification of raw device-bus events.
//!
//! A raw event arrives as a plain-value snapshot: the device path, the short
//! symbolic name, the device type, the event kind and the descriptive
//! properties. Classification filters out everything that is not a whole USB
//! device and reduces the rest to a `{key, name, action}` triple.

use crate::text::str_eq;
use vstd::prelude::*;
use vstd::string::StrSliceExecFns;

verus! {

/// What the bus reported happened to a device.
#[derive(Clone, Copy, Debug, PartialEq, Eq, Structural)]
pub enum EventKind {
    Add,
    Remove,
    Other,
}

/// The action the daemon takes for a relevant event.
#[derive(Clone, Copy, Debug, PartialEq, Eq, Structural)]
pub enum Action {
    Connected,
    Disconnected,
}

/// One descriptive property of a device event.
#[derive(Debug)]
pub struct Property {
    pub key: String,
    pub value: String,
}

/// Plain-value snapshot of a raw bus event.
#[derive(Debug)]
pub struct DeviceEvent {
    /// Bus path of the device; stable for the duration of one attachment.
    pub devpath: String,
    /// Short symbolic device name; the last fallback for a readable name.
    pub sysname: String,
    /// Device type, when the bus reported one. Only `"usb_device"` is acted
    /// upon; interface sub-nodes of a composite device carry other types.
    pub devtype: Option<String>,
    /// What happened to the device.
    pub kind: EventKind,
    /// Descriptive properties, in the order the bus handed them out.
    pub properties: Vec<Property>,
}

/// A relevant event, reduced to what the dispatcher needs.
#[derive(Debug)]
pub struct Classified {
    /// Stable identifier of the device: its bus path.
    pub key: String,
    /// Human-readable device name.
    pub name: String,
    /// Whether the device was plugged in or pulled out.
    pub action: Action,
}

/// Value of the first property named `key`, if any.
pub open spec fn lookup_prop(props: Seq<Property>, key: Seq<char>) -> Option<Seq<char>>
    decreases props.len(),
{
    if props.len() == 0 {
        None
    } else if props[0].key@ == key {
        Some(props[0].value@)
    } else {
        lookup_prop(props.skip(1), key)
    }
}

/// A looked-up property is usable as a name when it is present and non-empty.
pub open spec fn usable(r: Option<Seq<char>>) -> bool {
    r is Some && r->0.len() > 0
}

/// The human-readable name of the event's device: the first usable property
/// in a fixed preference order — human-curated database names before raw
/// vendor/model codes before serials before the device node path — with the
/// short symbolic name as the last fallback.
pub open spec fn spec_device_name(ev: DeviceEvent) -> Seq<char> {
    let p = ev.properties@;
    if usable(lookup_prop(p, "ID_MODEL_FROM_DATABASE"@)) {
        lookup_prop(p, "ID_MODEL_FROM_DATABASE"@)->0
    } else if usable(lookup_prop(p, "ID_MODEL"@)) {
        lookup_prop(p, "ID_MODEL"@)->0
    } else if usable(lookup_prop(p, "ID_VENDOR_FROM_DATABASE"@)) {
        lookup_prop(p, "ID_VENDOR_FROM_DATABASE"@)->0
    } else if usable(lookup_prop(p, "ID_VENDOR"@)) {
        lookup_prop(p, "ID_VENDOR"@)->0
    } else if usable(lookup_prop(p, "ID_SERIAL"@)) {
        lookup_prop(p, "ID_SERIAL"@)->0
    } else if usable(lookup_prop(p, "ID_SERIAL_SHORT"@)) {
        lookup_prop(p, "ID_SERIAL_SHORT"@)->0
    } else if usable(lookup_prop(p, "DEVNAME"@)) {
        lookup_prop(p, "DEVNAME"@)->0
    } else {
        ev.sysname@
    }
}

/// The event concerns a whole USB device, not an interface sub-node.
pub open spec fn spec_is_usb_device(ev: DeviceEvent) -> bool {
    ev.devtype is Some && ev.devtype->0@ == "usb_device"@
}

/// The action owed to an event kind: Add connects, Remove disconnects,
/// anything else is ignored.
pub open spec fn spec_action(kind: EventKind) -> Option<Action> {
    match kind {
        EventKind::Add => Some(Action::Connected),
        EventKind::Remove => Some(Action::Disconnected),
        EventKind::Other => None,
    }
}

/// Classification of a raw event: `None` for anything irrelevant, otherwise
/// the key (the device path), the derived name, and the action.
pub open spec fn spec_classify(ev: DeviceEvent) -> Option<(Seq<char>, Seq<char>, Action)> {
    if !spec_is_usb_device(ev) {
        None
    } else {
        match spec_action(ev.kind) {
            Some(action) => Some((ev.devpath@, spec_device_name(ev), action)),
            None => None,
        }
    }
}

/// Value of the first property named `key`, copied out.
fn find_prop(props: &Vec<Property>, key: &str) -> (r: Option<String>)
    ensures
        match r {
            Some(v) => lookup_prop(props@, key@) == Some(v@),
            None => lookup_prop(props@, key@) is None,
        },
{
    let n = props.len();
    let mut i: usize = 0;
    proof {
        assert(props@.skip(0) =~= props@);
    }
    while i < n
        invariant
            n == props@.len(),
            i <= n,
            lookup_prop(props@, key@) == lookup_prop(props@.skip(i as int), key@),
        decreases n - i,
    {
        let ghost tail = props@.skip(i as int);
        proof {
            assert(tail[0] == props@[i as int]);
        }
        if str_eq(props[i].key.as_str(), key) {
            return Some(props[i].value.clone());
        }
        proof {
            assert(tail.skip(1) =~= props@.skip(i + 1));
        }
        i += 1;
    }
    proof {
        assert(props@.skip(i as int) =~= Seq::<Property>::empty());
    }
    None
}

/// The first property named `key` whose value is usable as a name.
fn find_usable(props: &Vec<Property>, key: &str) -> (r: Option<String>)
    ensures
        match r {
            Some(v) => lookup_prop(props@, key@) == Some(v@) && v@.len() > 0,
            None => !usable(lookup_prop(props@, key@)),
        },
{
    match find_prop(props, key) {
        Some(v) => {
            if v.as_str().unicode_len() == 0 {
                None
            } else {
                Some(v)
            }
        },
        None => None,
    }
}

/// Derives the human-readable device name, probing the fixed property
/// preference order and falling back to the short symbolic name.
pub fn device_name(ev: &DeviceEvent) -> (name: String)
    ensures
        name@ == spec_device_name(*ev),
{
    if let Some(v) = find_usable(&ev.properties, "ID_MODEL_FROM_DATABASE") {
        return v;
    }
    if let Some(v) = find_usable(&ev.properties, "ID_MODEL") {
        return v;
    }
    if let Some(v) = find_usable(&ev.properties, "ID_VENDOR_FROM_DATABASE") {
        return v;
    }
    if let Some(v) = find_usable(&ev.properties, "ID_VENDOR") {
        return v;
    }
    if let Some(v) = find_usable(&ev.properties, "ID_SERIAL") {
        return v;
    }
    if let Some(v) = find_usable(&ev.properties, "ID_SERIAL_SHORT") {
        return v;
    }
    if let Some(v) = find_usable(&ev.properties, "DEVNAME") {
        return v;
    }
    ev.sysname.clone()
}

/// The stable per-device key: the bus path.
pub fn device_key(ev: &DeviceEvent) -> (key: String)
    ensures
        key@ == ev.devpath@,
{
    ev.devpath.clone()
}

/// Classifies a raw event. Pure function of the event snapshot: two calls on
/// the same snapshot return the same triple, and the snapshot is never
/// changed.
pub fn classify(ev: &DeviceEvent) -> (r: Option<Classified>)
    ensures
        r is Some <==> spec_classify(*ev) is Some,
        r is Some ==> r->0.key@ == (spec_classify(*ev)->0).0,
        r is Some ==> r->0.name@ == (spec_classify(*ev)->0).1,
        r is Some ==> r->0.action == (spec_classify(*ev)->0).2,
{
    let usb = match &ev.devtype {
        Some(t) => str_eq(t.as_str(), "usb_device"),
        None => false,
    };
    if !usb {
        return None;
    }
    match ev.kind {
        EventKind::Add => Some(
            Classified {
                key: device_key(ev),
                name: device_name(ev),
                action: Action::Connected,
            },
        ),
        EventKind::Remove => Some(
            Classified {
                key: device_key(ev),
                name: device_name(ev),
                action: Action::Disconnected,
            },
        ),
        EventKind::Other => None,
    }
}

/// Preference order is deterministic: a usable vendor-database model name is
/// chosen over every later property, in particular over the raw device node
/// path.
pub proof fn lemma_database_name_preferred(ev: DeviceEvent, v: Seq<char>)
    requires
        lookup_prop(ev.properties@, "ID_MODEL_FROM_DATABASE"@) == Some(v),
        v.len() > 0,
    ensures
        spec_device_name(ev) == v,
{
}

/// An event whose device type is not exactly `"usb_device"` is never acted
/// on, whatever its kind.
pub proof fn lemma_non_usb_ignored(ev: DeviceEvent)
    requires
        !spec_is_usb_device(ev),
    ensures
        spec_classify(ev) is None,
{
}

} // verus!
