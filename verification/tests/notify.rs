use plugged::notify::{render_body, Notifier};

#[test]
fn renders_template_placeholders() {
    let template = "Device {{device_name}} {{action}}.";
    let rendered = render_body(template, "USB Drive", "connected");
    assert_eq!(rendered, "Device USB Drive connected.");
}

#[test]
fn template_without_placeholders_is_unchanged() {
    let template = "A device changed.";
    let rendered = render_body(template, "USB Drive", "connected");
    assert_eq!(rendered, "A device changed.");
}

#[test]
fn unknown_placeholder_is_left_verbatim() {
    let template = "{{serial}}: {{device_name}} {{action}}";
    let rendered = render_body(template, "Mouse", "disconnected");
    assert_eq!(rendered, "{{serial}}: Mouse disconnected");
}

#[test]
fn repeated_placeholders_are_all_substituted() {
    let template = "{{action}} {{action}}";
    let rendered = render_body(template, "Mouse", "connected");
    assert_eq!(rendered, "connected connected");
}

#[test]
fn enabled_notifier_renders_a_body() {
    let notifier = Notifier::new(true, "Device {{device_name}} {{action}}.".to_string());
    let body = notifier.notify("USB Drive", "connected");
    assert_eq!(body, Some("Device USB Drive connected.".to_string()));
}

#[test]
fn disabled_notifier_stays_silent() {
    let notifier = Notifier::new(false, "Device {{device_name}} {{action}}.".to_string());
    let body = notifier.notify("USB Drive", "connected");
    assert_eq!(body, None);
}
