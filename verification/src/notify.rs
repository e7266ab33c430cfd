//! Notification bodies.
//!
//! The body is the user's template with the two named placeholders
//! substituted. Showing the body on the desktop, and the one-time transport
//! initialization and teardown, are the shell's duty; the notifier here
//! decides whether a notification is owed and what it says.

use crate::text::{contains_pat, lemma_replace_absent_identity, replace_all, spec_replace};
use vstd::prelude::*;

verus! {

/// Body for `template`, `device_name` and `action`: first every
/// `{{device_name}}`, then every `{{action}}` substituted; anything else,
/// including unknown placeholders, left verbatim.
pub open spec fn spec_render(
    template: Seq<char>,
    device_name: Seq<char>,
    action: Seq<char>,
) -> Seq<char> {
    spec_replace(spec_replace(template, "{{device_name}}"@, device_name), "{{action}}"@, action)
}

/// Renders a notification body by pure string substitution.
pub fn render_body(template: &str, device_name: &str, action: &str) -> (body: String)
    ensures
        body@ == spec_render(template@, device_name@, action@),
{
    proof {
        reveal_strlit("{{device_name}}");
        reveal_strlit("{{action}}");
    }
    let step = replace_all(template, "{{device_name}}", device_name);
    replace_all(step.as_str(), "{{action}}", action)
}

/// A template containing neither placeholder renders to itself.
pub proof fn lemma_render_no_placeholders(
    template: Seq<char>,
    device_name: Seq<char>,
    action: Seq<char>,
)
    requires
        !contains_pat(template, "{{device_name}}"@),
        !contains_pat(template, "{{action}}"@),
    ensures
        spec_render(template, device_name, action) == template,
{
    reveal_strlit("{{device_name}}");
    reveal_strlit("{{action}}");
    lemma_replace_absent_identity(template, "{{device_name}}"@, device_name);
    lemma_replace_absent_identity(template, "{{action}}"@, action);
}

/// Decides whether a notification is owed for a classified event, and what
/// its body says.
pub struct Notifier {
    enabled: bool,
    template: String,
}

impl Notifier {
    /// Whether notifications are switched on.
    pub closed spec fn spec_enabled(self) -> bool {
        self.enabled
    }

    /// The body template.
    pub closed spec fn spec_template(self) -> Seq<char> {
        self.template@
    }

    /// Creates the notifier. The process-wide transport initialization — and
    /// the matching teardown at exit — is the shell's duty, performed exactly
    /// when `enabled` holds.
    pub fn new(enabled: bool, template: String) -> (n: Notifier)
        ensures
            n.spec_enabled() == enabled,
            n.spec_template() == template@,
    {
        Notifier { enabled, template }
    }

    /// The notification body owed for a device and action: the rendered
    /// template when notifications are enabled, nothing otherwise.
    pub fn notify(&self, device_name: &str, action: &str) -> (body: Option<String>)
        ensures
            self.spec_enabled() ==> body is Some && body->0@ == spec_render(
                self.spec_template(),
                device_name@,
                action@,
            ),
            !self.spec_enabled() ==> body is None,
    {
        if !self.enabled {
            return None;
        }
        Some(render_body(self.template.as_str(), device_name, action))
    }
}

} // verus!
