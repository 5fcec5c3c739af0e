//! Decisions shown on the pages of the settings window: which item is selected, what a
//! control allows, and what the status texts say.
use vstd::prelude::*;

use crate::sections::{section_index, Section};
use crate::text::{chars_of, line_bounds, lines};

verus! {

/// The selected position among `len` items: `selected`, or the last item when `selected`
/// is past it (0 when there are no items).
pub fn clamp_selection(selected: usize, len: usize) -> (i: usize)
    ensures
        i == (if len == 0 { 0 } else if selected < len { selected as int } else { len - 1 }),
{
    let last = if len == 0 {
        0
    } else {
        len - 1
    };
    if selected < last {
        selected
    } else {
        last
    }
}

/// The position of the section before the one at `current` (the first stays the first).
pub fn previous_section_index(current: usize) -> (i: usize)
    ensures
        i == (if current == 0 { 0 } else { current - 1 }),
{
    if current == 0 {
        0
    } else {
        current - 1
    }
}

/// The position of the section after the one at `current` (the last stays the last).
pub fn next_section_index(current: usize) -> (i: usize)
    ensures
        i == (if current + 1 <= section_index(Section::Applications) {
            current + 1
        } else {
            section_index(Section::Applications) as int
        }),
{
    let last = Section::Applications.index();
    if current < last {
        current + 1
    } else {
        last
    }
}

/// How a user is described beside its name: the administrator has user id 0.
pub fn user_role(uid: u32) -> (role: &'static str)
    ensures
        role@ == (if uid == 0 { "Administrator"@ } else { "User"@ }),
{
    if uid == 0 {
        "Administrator"
    } else {
        "User"
    }
}

/// Whether the selected user may be deleted: there is one, and it is not `root`.
pub fn can_delete_user(selected: Option<&str>) -> (b: bool)
    ensures
        b == (selected matches Some(name) && name@ != "root"@),
{
    match selected {
        Some(name) => !crate::values::text_is(name, "root"),
        None => false,
    }
}

/// Whether `password` may be used to join a network: any password for an open network, and
/// 8 to 63 bytes for a secured one.
pub fn wifi_password_acceptable(secured: bool, password: &str) -> (b: bool)
    ensures
        b == (!secured || (8 <= password.len() && password.len() <= 63)),
{
    let n = password.len();
    !secured || (8 <= n && n <= 63)
}

/// The connection status of Wi-Fi: connected to the network `ssid`, not connected, or
/// unavailable when there is no adapter or it is off.
pub fn connection_status(connected: bool, available: bool, enabled: bool, ssid: &str) -> (s: String)
    ensures
        s@ == (if connected {
            "Connected to "@ + ssid@
        } else if available && enabled {
            "Not connected"@
        } else {
            "Unavailable"@
        }),
{
    if connected {
        let mut s = String::from_str("Connected to ");
        s.append(ssid);
        s
    } else if available && enabled {
        String::from_str("Not connected")
    } else {
        String::from_str("Unavailable")
    }
}

/// Whether diagnostics are shared: only while they are enabled and consent was given.
pub fn effective_consent(enabled: bool, consent: bool) -> (b: bool)
    ensures
        b == (enabled && consent),
{
    enabled && consent
}

/// The consent shown: granted only while diagnostics are enabled and consent was given.
pub fn consent_label(enabled: bool, consent: bool) -> (s: &'static str)
    ensures
        s@ == (if enabled && consent { "Granted"@ } else { "Not sending"@ }),
{
    if enabled && consent {
        "Granted"
    } else {
        "Not sending"
    }
}

/// The label of the button that gives or withdraws consent to diagnostics.
pub fn consent_button_label(consent: bool) -> (s: &'static str)
    ensures
        s@ == (if consent { "Withdraw Consent"@ } else { "Allow Sharing"@ }),
{
    if consent {
        "Withdraw Consent"
    } else {
        "Allow Sharing"
    }
}

/// Why joining a Wi-Fi network is refused before it is tried: `selected` tells whether the
/// selected network is secured, or is `None` when no network is selected. No network
/// selected, or a secured network with a password that is not 8 to 63 bytes, is refused
/// with the message given; otherwise the result is `None` and the connection may be tried.
pub fn wifi_connect_refusal(selected: Option<bool>, password: &str) -> (r: Option<&'static str>)
    ensures
        selected is None ==> (r matches Some(m) && m@ == "Select a Wi-Fi network."@),
        selected matches Some(secured) ==> (r is None <==> (!secured || (8 <= password.len() && password.len() <= 63))),
        selected matches Some(secured) && r is Some ==> (r matches Some(m) && m@ == "Wi-Fi passwords must be 8 to 63 bytes."@),
{
    match selected {
        None => Some("Select a Wi-Fi network."),
        Some(secured) => if wifi_password_acceptable(secured, password) {
            None
        } else {
            Some("Wi-Fi passwords must be 8 to 63 bytes.")
        },
    }
}

/// The user for automatic login after the switch went from `was_enabled` to `enabled`:
/// unchanged (`None`) while the switch did not move, the selected user once it is turned
/// on (no user when none is selected), and no user once it is turned off.
pub fn auto_login_user_after(was_enabled: bool, enabled: bool, selected: Option<&str>) -> (u: Option<String>)
    ensures
        was_enabled == enabled ==> u is None,
        was_enabled != enabled && enabled ==> (u matches Some(s) && s@ == match selected {
            Some(n) => n@,
            None => Seq::<char>::empty(),
        }),
        was_enabled != enabled && !enabled ==> (u matches Some(s) && s@ == Seq::<char>::empty()),
{
    if was_enabled == enabled {
        return None;
    }
    if enabled {
        match selected {
            Some(n) => Some(String::from_str(n)),
            None => Some(String::new()),
        }
    } else {
        Some(String::new())
    }
}

/// The number of security events that the audit log `text` records: one per line.
pub fn security_event_count(text: &str) -> (n: usize)
    ensures
        n == lines(text@).len(),
{
    let v = chars_of(text);
    assert(v@.subrange(0, v@.len() as int) == v@);
    let ls = line_bounds(&v, 0, v.len());
    ls.len()
}

/// The position of the first of `names` that is `name`, if one is: the user that the
/// account page selects first, the one that signs in automatically.
pub fn position_of(names: &Vec<String>, name: &str) -> (r: Option<usize>)
    ensures
        r matches Some(i) ==> i < names@.len() && names@[i as int]@ == name@ && forall|k: int|
            0 <= k < i ==> (#[trigger] names@[k])@ != name@,
        r is None ==> forall|k: int| 0 <= k < names@.len() ==> (#[trigger] names@[k])@ != name@,
{
    let mut i: usize = 0;
    while i < names.len()
        invariant
            i <= names@.len(),
            forall|k: int| 0 <= k < i ==> (#[trigger] names@[k])@ != name@,
        decreases names.len() - i,
    {
        if crate::values::text_is(names[i].as_str(), name) {
            return Some(i);
        }
        i = i + 1;
    }
    None
}

} // verus!
