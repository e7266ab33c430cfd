use plugged::cache::NameCache;

#[test]
fn take_returns_the_recorded_name_once() {
    let mut cache = NameCache::new();
    cache.record("/devices/usb1/1-1".to_string(), "Flash Drive".to_string());
    let key = "/devices/usb1/1-1".to_string();
    let name = cache.take(&key, "fallback".to_string());
    assert_eq!(name, "Flash Drive");
    let name = cache.take(&key, "fallback".to_string());
    assert_eq!(name, "fallback");
}

#[test]
fn take_of_an_unknown_key_returns_the_fallback() {
    let mut cache = NameCache::new();
    cache.record("/devices/usb1/1-1".to_string(), "Flash Drive".to_string());
    let other = "/devices/usb2/2-1".to_string();
    let name = cache.take(&other, "Webcam".to_string());
    assert_eq!(name, "Webcam");
    // The entry for the recorded key is still there.
    let key = "/devices/usb1/1-1".to_string();
    assert_eq!(cache.take(&key, "fallback".to_string()), "Flash Drive");
}

#[test]
fn record_overwrites_a_stale_entry() {
    let mut cache = NameCache::new();
    cache.record("/devices/usb1/1-1".to_string(), "Old Name".to_string());
    cache.record("/devices/usb1/1-1".to_string(), "New Name".to_string());
    let key = "/devices/usb1/1-1".to_string();
    assert_eq!(cache.take(&key, "fallback".to_string()), "New Name");
    assert_eq!(cache.take(&key, "fallback".to_string()), "fallback");
}

#[test]
fn entries_are_kept_per_key() {
    let mut cache = NameCache::new();
    cache.record("/devices/usb1/1-1".to_string(), "Flash Drive".to_string());
    cache.record("/devices/usb2/2-1".to_string(), "Keyboard".to_string());
    let first = "/devices/usb1/1-1".to_string();
    let second = "/devices/usb2/2-1".to_string();
    assert_eq!(cache.take(&second, "fallback".to_string()), "Keyboard");
    assert_eq!(cache.take(&first, "fallback".to_string()), "Flash Drive");
}
