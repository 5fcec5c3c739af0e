//! When the settings shown are saved: a change is saved once it has stayed the same for
//! a short delay, a failed save is not repeated until the settings change again, and a
//! successful save becomes what the files hold.
use vstd::prelude::*;

use crate::preferences::{Preferences, PreferencesView};

verus! {

/// How long, in milliseconds, a change must stay the same before it is saved.
pub const AUTOSAVE_DELAY_MS: u64 = 450;

/// A change waiting to be saved: the settings and the moment (in milliseconds) from which
/// they may be saved.
pub struct PendingSave {
    pub snapshot: Preferences,
    pub deadline: u64,
}

/// What the autosave knows: the settings the files hold, the change waiting to be saved,
/// and the settings whose save failed last.
pub struct AutosaveState {
    pub persisted: Preferences,
    pub pending: Option<PendingSave>,
    pub failed: Option<Preferences>,
}

/// What to do about the settings shown.
#[derive(Clone, Copy, Debug, PartialEq, Eq)]
pub enum AutosaveAction {
    /// Nothing: the settings are saved, or their save failed and they did not change since.
    Nothing,
    /// Look again at the moment given (in milliseconds).
    CheckAgainAt(u64),
    /// Save the settings shown over those the files hold.
    Save,
}

/// What a finished save changes on the screen.
#[derive(Clone, Copy, Debug, PartialEq, Eq)]
pub struct SaveOutcome {
    /// Whether consent to diagnostics is to be withdrawn, because diagnostics are off.
    pub withdraw_consent: bool,
    /// Whether the status line, which reports an earlier failed save, is to be cleared.
    pub clear_status: bool,
}

/// The settings of an optional snapshot.
pub open spec fn view_of(p: Option<Preferences>) -> Option<PreferencesView> {
    match p {
        Some(q) => Some(q@),
        None => None,
    }
}

/// The settings and deadline of an optional pending save.
pub open spec fn pending_view(p: Option<PendingSave>) -> Option<(PreferencesView, u64)> {
    match p {
        Some(q) => Some((q.snapshot@, q.deadline)),
        None => None,
    }
}

/// Whether `status` reports a failed save.
pub open spec fn reports_failed_save(status: Seq<char>) -> bool {
    "Unable to save settings:"@.is_prefix_of(status)
}

/// What the autosave knows, as mathematical values.
pub struct AutosaveView {
    pub persisted: PreferencesView,
    pub pending: Option<(PreferencesView, u64)>,
    pub failed: Option<PreferencesView>,
}

impl View for AutosaveState {
    type V = AutosaveView;

    open spec fn view(&self) -> AutosaveView {
        AutosaveView {
            persisted: self.persisted@,
            pending: pending_view(self.pending),
            failed: view_of(self.failed),
        }
    }
}

/// The autosave after it looked at the settings shown, `snapshot`, at the moment `now`, and
/// what is to be done. Nothing is to be done when they are those the files hold or those
/// whose save failed last. Otherwise a change not yet waiting starts to wait for the delay,
/// and the settings are to be saved once the change has waited until its deadline.
pub open spec fn paint_step(s: AutosaveView, snapshot: PreferencesView, now: u64) -> (AutosaveView, AutosaveAction) {
    if snapshot == s.persisted || s.failed == Some(snapshot) {
        (s, AutosaveAction::Nothing)
    } else {
        let deadline = match s.pending {
            Some((p, d)) => if p == snapshot { d } else { (now + AUTOSAVE_DELAY_MS) as u64 },
            None => (now + AUTOSAVE_DELAY_MS) as u64,
        };
        (
            AutosaveView { pending: Some((snapshot, deadline)), ..s },
            if now < deadline {
                AutosaveAction::CheckAgainAt(deadline)
            } else {
                AutosaveAction::Save
            },
        )
    }
}

/// The autosave after the save of `snapshot` ended, successfully when `ok`.
pub open spec fn saved_step(s: AutosaveView, snapshot: PreferencesView, ok: bool) -> AutosaveView {
    if ok {
        AutosaveView { persisted: snapshot, pending: None, failed: None }
    } else {
        AutosaveView { pending: None, failed: Some(snapshot), ..s }
    }
}

impl AutosaveState {
    /// The autosave of settings that the files hold.
    pub fn new(persisted: Preferences) -> (s: AutosaveState)
        ensures
            s@ == (AutosaveView { persisted: persisted@, pending: None, failed: None }),
    {
        AutosaveState { persisted, pending: None, failed: None }
    }

    /// Looks at the settings shown, `snapshot`, at the moment `now` (in milliseconds).
    pub fn paint(&mut self, snapshot: &Preferences, now: u64) -> (a: AutosaveAction)
        requires
            now + AUTOSAVE_DELAY_MS <= u64::MAX,
        ensures
            (final(self)@, a) == paint_step(old(self)@, snapshot@, now),
    {
        let failed_same = match &self.failed {
            Some(f) => f.same_as(snapshot),
            None => false,
        };
        if snapshot.same_as(&self.persisted) || failed_same {
            return AutosaveAction::Nothing;
        }
        let waiting = match &self.pending {
            Some(p) => p.snapshot.same_as(snapshot),
            None => false,
        };
        if !waiting {
            self.pending = Some(PendingSave { snapshot: snapshot.duplicate(), deadline: now + AUTOSAVE_DELAY_MS });
        }
        let deadline = match &self.pending {
            Some(p) => p.deadline,
            None => now,
        };
        if now < deadline {
            AutosaveAction::CheckAgainAt(deadline)
        } else {
            AutosaveAction::Save
        }
    }

    /// Records the end of the save of `snapshot`, successful when `ok`; `status` is the
    /// status line shown.
    pub fn saved(&mut self, snapshot: &Preferences, ok: bool, status: &str) -> (o: SaveOutcome)
        ensures
            final(self)@ == saved_step(old(self)@, snapshot@, ok),
            o.withdraw_consent == (ok && !snapshot.diagnostics_enabled),
            o.clear_status == (ok && reports_failed_save(status@)),
    {
        self.pending = None;
        if ok {
            self.persisted = snapshot.duplicate();
            self.failed = None;
            SaveOutcome {
                withdraw_consent: !snapshot.diagnostics_enabled,
                clear_status: starts_with(status, "Unable to save settings:"),
            }
        } else {
            self.failed = Some(snapshot.duplicate());
            SaveOutcome { withdraw_consent: false, clear_status: false }
        }
    }
}

/// A successful save forgets any failed save: the settings saved are what the files hold,
/// no failed save stays on record, and any settings shown later that differ from those
/// saved are scheduled to be saved, even settings whose save failed before.
pub proof fn lemma_success_clears_failure(
    s: AutosaveView,
    snapshot: PreferencesView,
    t: AutosaveView,
    later: PreferencesView,
    now: u64,
)
    requires
        t == saved_step(s, snapshot, true),
        later != snapshot,
        now + AUTOSAVE_DELAY_MS <= u64::MAX,
    ensures
        t.persisted == snapshot,
        t.failed is None,
        t.pending is None,
        paint_step(t, later, now).1 != AutosaveAction::Nothing,
{
}

/// Settings just saved, or whose save just failed, are not saved again while they stay the same.
pub proof fn lemma_no_repeated_save(s: AutosaveView, snapshot: PreferencesView, ok: bool, now: u64)
    ensures
        paint_step(saved_step(s, snapshot, ok), snapshot, now).1 == AutosaveAction::Nothing,
{
}

/// Settings are saved only after they have waited, unchanged, until the deadline set when
/// they were first seen, at least the delay after that moment; settings the files hold are
/// never saved.
pub proof fn lemma_save_waits_for_delay(s: AutosaveView, snapshot: PreferencesView, now: u64)
    requires
        now + AUTOSAVE_DELAY_MS <= u64::MAX,
        paint_step(s, snapshot, now).1 == AutosaveAction::Save,
    ensures
        snapshot != s.persisted,
        s.pending matches Some((p, d)) && p == snapshot && d <= now,
{
}

/// While the settings shown stay the same, their deadline stays the same.
pub proof fn lemma_deadline_kept(s: AutosaveView, snapshot: PreferencesView, t1: u64, t2: u64)
    requires
        t1 + AUTOSAVE_DELAY_MS <= u64::MAX,
        t2 + AUTOSAVE_DELAY_MS <= u64::MAX,
        paint_step(s, snapshot, t1).1 != AutosaveAction::Nothing,
    ensures
        paint_step(paint_step(s, snapshot, t1).0, snapshot, t2).0.pending == paint_step(s, snapshot, t1).0.pending,
{
}

/// Whether `s` begins with `prefix`.
pub fn starts_with(s: &str, prefix: &str) -> (b: bool)
    ensures
        b == prefix@.is_prefix_of(s@),
{
    let v = crate::text::chars_of(s);
    let p = crate::text::chars_of(prefix);
    if p.len() > v.len() {
        return false;
    }
    let r = crate::values::range_is(&v, 0, p.len(), prefix);
    assert(r == (v@.subrange(0, p@.len() as int) == prefix@));
    if r {
        assert(prefix@.is_prefix_of(s@));
    } else {
        assert(!prefix@.is_prefix_of(s@)) by {
            if prefix@.is_prefix_of(s@) {
                assert(v@.subrange(0, p@.len() as int) =~= prefix@);
            }
        }
    }
    r
}

/// The status line shown after a save failed with the error described by `error`.
pub fn save_failed_status(error: &str) -> (s: String)
    ensures
        s@ == "Unable to save settings: "@ + error@,
{
    let mut s = String::from_str("Unable to save settings: ");
    s.append(error);
    s
}

} // verus!
