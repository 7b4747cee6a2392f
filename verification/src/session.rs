//! The glue between menu, wizard, enrolment and the people store: what the
//! overlay does when a wizard opens, when a run finishes, and whom a new
//! enrolment is for. Saving and logging are left to the caller.

use vstd::prelude::*;
use crate::enroll::{begun, EnrollKind, EnrollPhase, EnrollSession, EnrollView, PhaseView};
use crate::face::FACE_ENROLL_NEED;
use crate::voice::VOICE_ENROLL_NEED;
use crate::hands::GESTURE_ENROLL_NEED;
use crate::gate::GateMode;
use crate::wizard::{WizardEvent, WizardView};
use crate::gate::AuthSession;
use crate::hands::{action_for, default_gesture_map, default_map_spec, map_lookup, GestureAction, GestureClass};
use crate::persist::{
    id_at, lemma_edit_at, lemma_id_at_unique, no_id, personal_map, without_id,
    after_upsert, edit_person, position_of, samples_of, upsert_id, without_class, PersonView,
    ProfileStore,
};
use crate::radial::{RadialAction, RadialMenu, Settings, SettingsPage, WizardHits};
use crate::text::{dec, trim, trimmed};
use crate::ux::{at_least_one, ux_button_up, ux_listen_for, ux_tick, BuddyUx, Phase, UxEvent, LISTEN_MAX_MS};
use crate::gaze::{lock_reset, lock_update, sat_sub, GazeLock};
use crate::radial::menu_reset;
use crate::wizard::{opened_view, wiz_is_open, FirstRunWizard};

verus! {

/// A run of `kind` is under way: prompting or capturing, not idle,
/// finished or failed.
pub open spec fn capturing_spec<E, S>(v: EnrollView<E, S>, kind: EnrollKind) -> bool {
    v.kind == kind && (v.phase is Prompt || v.phase is Capturing)
}

pub fn enroll_capturing<E, S>(enroll: &EnrollSession<E, S>, kind: EnrollKind) -> (b: bool)
    ensures
        b == capturing_spec(enroll@, kind),
{
    enroll.kind == kind && match enroll.phase {
        EnrollPhase::Idle | EnrollPhase::Done { .. } | EnrollPhase::Failed { .. } => false,
        _ => true,
    }
}

/// Which wizard buttons to hit-test: none while the wizard is closed.
pub fn wizard_hits(wizard: &FirstRunWizard) -> (h: Option<WizardHits>)
    ensures
        h == if wiz_is_open(wizard@) {
            Some(WizardHits {
                can_skip: wizard@.step == crate::wizard::WizardStep::Face
                    || wizard@.step == crate::wizard::WizardStep::Voice || wizard@.step is Hands,
                can_next: wizard@.step == crate::wizard::WizardStep::Name
                    || wizard@.step == crate::wizard::WizardStep::Done,
                can_add: wizard@.step == crate::wizard::WizardStep::Done,
            })
        } else {
            None
        },
{
    if wizard.is_open() {
        Some(WizardHits {
            can_skip: wizard.can_skip(),
            can_next: wizard.can_next(),
            can_add: wizard.can_add_another(),
        })
    } else {
        None
    }
}

/// Close the wizard's panel and unfreeze the icon layout.
pub fn close_wizard_chrome(menu: &mut RadialMenu)
    ensures
        *final(menu) == (RadialMenu { wizard_open: false, settings_open: false, freeze_ms: None, ..*old(menu) }),
{
    menu.wizard_open = false;
    menu.settings_open = false;
    menu.freeze_ms = None;
}

/// The name offered for the next person: `P` and one more than the count.
pub open spec fn default_name<E, L>(s: Seq<PersonView<E, L>>) -> Seq<char> {
    "P"@ + dec((s.len() + 1) as nat)
}

/// Open the wizard for the next default name, show its panel with the
/// layout frozen, and start listening (for `listen_ms`) unless already.
pub fn show_wizard<E, L>(
    wizard: &mut FirstRunWizard,
    menu: &mut RadialMenu,
    ux: &mut BuddyUx,
    profiles: &ProfileStore<E, L>,
    now_ms: u64,
    first_run: bool,
    listen_ms: u64,
)
    requires
        profiles@.len() < usize::MAX,
        now_ms + at_least_one(listen_ms) <= u64::MAX,
    ensures
        final(wizard)@ == opened_view(default_name(profiles@), first_run),
        *final(menu) == (RadialMenu { wizard_open: true, settings_open: true, freeze_ms: Some(now_ms), ..*old(menu) }),
        *final(ux) == if old(ux).phase != Phase::Listening { ux_listen_for(*old(ux), now_ms, listen_ms) } else { *old(ux) },
{
    let name = profiles.next_default_name();
    *wizard = FirstRunWizard::open(name.as_str(), first_run);
    menu.wizard_open = true;
    menu.settings_open = true;
    menu.freeze_ms = Some(now_ms);
    if ux.phase != Phase::Listening {
        ux.enter_listen_for(now_ms, listen_ms);
    }
}

/// Open the first-run wizard when a gate is on and nobody is enrolled yet;
/// whether it opened.
pub fn maybe_offer_wizard<E, L, T: Copy>(
    wizard: &mut FirstRunWizard,
    menu: &mut RadialMenu,
    ux: &mut BuddyUx,
    profiles: &ProfileStore<E, L>,
    settings: &Settings<T>,
    now_ms: u64,
    listen_ms: u64,
) -> (opened: bool)
    requires
        now_ms + at_least_one(listen_ms) <= u64::MAX,
    ensures
        opened == (!wiz_is_open(old(wizard)@) && settings.gate != crate::gate::GateMode::Off && profiles@.len() == 0),
        opened ==> final(wizard)@ == opened_view("P1"@, true)
            && *final(menu) == (RadialMenu { wizard_open: true, settings_open: true, freeze_ms: Some(now_ms), ..*old(menu) })
            && *final(ux) == if old(ux).phase != Phase::Listening { ux_listen_for(*old(ux), now_ms, listen_ms) } else { *old(ux) },
        !opened ==> final(wizard)@ == old(wizard)@ && *final(menu) == *old(menu) && *final(ux) == *old(ux),
{
    if wizard.is_open() {
        return false;
    }
    if FirstRunWizard::should_offer(settings.gate, profiles.enrolled_count()) {
        show_wizard(wizard, menu, ux, profiles, now_ms, true, listen_ms);
        proof {
            reveal_strlit("P");
            reveal_strlit("P1");
            assert(dec(1) == seq!['1']);
            assert(default_name(profiles@) =~= "P1"@);
        }
        return true;
    }
    false
}


/// Whom a new enrolment from the People tab is for: the selected person,
/// else a new person under the next default name (added to the store).
pub fn person_target<E, L, T: Copy>(profiles: &mut ProfileStore<E, L>, settings: &Settings<T>, now_ms: u64) -> (r: (String, Option<String>))
    requires
        old(profiles)@.len() < usize::MAX,
    ensures
        settings.selected_person < old(profiles)@.len() ==> final(profiles)@ == old(profiles)@
            && r.0@ == old(profiles)@[settings.selected_person as int].name
            && r.1 is Some && r.1->0@ == old(profiles)@[settings.selected_person as int].id,
        settings.selected_person >= old(profiles)@.len() ==> final(profiles)@ == after_upsert(old(profiles)@, default_name(old(profiles)@), now_ms)
            && r.0@ == default_name(old(profiles)@)
            && r.1 is Some && r.1->0@ == upsert_id(old(profiles)@, default_name(old(profiles)@), now_ms),
{
    if settings.selected_person < profiles.people.len() {
        let p = &profiles.people[settings.selected_person];
        return (p.name.clone(), Some(p.id.clone()));
    }
    let name = profiles.next_default_name();
    let id = profiles.upsert_named(name.as_str(), now_ms);
    (name, Some(id))
}

/// Give the wizard's person a store entry (by name) the first time it needs
/// one, and select them.
pub fn ensure_wizard_person<E, L, T: Copy>(wizard: &mut FirstRunWizard, profiles: &mut ProfileStore<E, L>, settings: &mut Settings<T>, now_ms: u64)
    ensures
        old(wizard)@.person_id is Some ==> final(wizard)@ == old(wizard)@ && final(profiles)@ == old(profiles)@ && *final(settings) == *old(settings),
        old(wizard)@.person_id is None ==> ({
            let id = upsert_id(old(profiles)@, old(wizard)@.name, now_ms);
            &&& final(profiles)@ == after_upsert(old(profiles)@, old(wizard)@.name, now_ms)
            &&& final(wizard)@ == (crate::wizard::WizardView { person_id: Some(id), ..old(wizard)@ })
            &&& final(settings).selected_person == match position_of(final(profiles)@, id) {
                Some(i) => i as usize,
                None => old(settings).selected_person,
            }
            &&& *final(settings) == (Settings { selected_person: final(settings).selected_person, ..*old(settings) })
        }),
{
    if wizard.person_id.is_some() {
        return;
    }
    let id = profiles.upsert_named(wizard.person_name.as_str(), now_ms);
    match profiles.position(id.as_str()) {
        Some(i) => {
            settings.selected_person = i;
        },
        None => {},
    }
    wizard.person_id = Some(id);
}

/// A person who just enrolled face or voice in the wizard counts as
/// recognised by that modality right away.
pub fn stamp_wizard_auth(wizard: &FirstRunWizard, auth: &mut AuthSession, now_ms: u64)
    requires
        now_ms + old(auth).hold_ms <= u64::MAX,
    ensures
        (wizard.person_id is None || !(wizard.face_ok || wizard.voice_ok)) ==> *final(auth) == *old(auth),
        wizard.person_id is Some && wizard.face_ok ==> crate::gate::opt_view(final(auth).face_id) == Some(wizard.person_id->0@)
            && final(auth).face_until == now_ms + old(auth).hold_ms,
        wizard.person_id is Some && wizard.voice_ok ==> crate::gate::opt_view(final(auth).voice_id) == Some(wizard.person_id->0@)
            && final(auth).voice_until == now_ms + old(auth).hold_ms,
        wizard.person_id is Some && !wizard.face_ok ==> final(auth).face_id == old(auth).face_id && final(auth).face_until == old(auth).face_until,
        wizard.person_id is Some && !wizard.voice_ok ==> final(auth).voice_id == old(auth).voice_id && final(auth).voice_until == old(auth).voice_until,
{
    match &wizard.person_id {
        None => {},
        Some(id) => {
            if wizard.face_ok {
                auth.note_face(id.as_str(), wizard.person_name.as_str(), now_ms);
            }
            if wizard.voice_ok {
                auth.note_voice(id.as_str(), wizard.person_name.as_str(), now_ms);
            }
        },
    }
}


/// An enrolment machine with nothing running and nothing kept.
pub open spec fn enroll_cleared<E, S>(v: EnrollView<E, S>) -> bool {
    &&& v.phase == PhaseView::Idle
    &&& v.person == Seq::<char>::empty()
    &&& v.person_id is None
    &&& v.kind == EnrollKind::Face
    &&& v.gesture is None
    &&& v.accepted.len() == 0
    &&& v.samples.len() == 0
    &&& v.rejects == 0
    &&& v.need == FACE_ENROLL_NEED
    &&& v.last_reject is None
}

/// What the overlay does with a menu action besides the menu's own fields
/// (`apply_action`) and the People tab (`apply_identity_action`): Dismiss
/// hides the buddy; a slider carries the gaze window into the dwell timer
/// unless `gaze_fixed` pins it; an enrolment shows the People tab; a gate
/// change offers the first-run wizard; and the wizard's buttons drive the
/// wizard (Next first credits the person with what they just enrolled; Skip
/// and Add-another drop the run under way; Cancel records that the offer was
/// declined). `listen_ms` is how long an opened wizard listens. Returns the
/// wizard's event, for `apply_wizard_event`.
pub fn menu_step<E, S: Copy, L, T: Copy>(
    act: RadialAction<T>,
    ux: &mut BuddyUx,
    menu: &mut RadialMenu,
    settings: &mut Settings<T>,
    profiles: &ProfileStore<E, L>,
    enroll: &mut EnrollSession<E, S>,
    auth: &mut AuthSession,
    wizard: &mut FirstRunWizard,
    declined: &mut bool,
    lock: &mut GazeLock,
    now_ms: u64,
    listen_ms: u64,
    gaze_fixed: bool,
) -> (ev: WizardEvent)
    requires
        (act is CycleGate || act is OpenWizard) ==> now_ms + at_least_one(listen_ms) <= u64::MAX,
        (act is OpenWizard || act is WizardAddAnother) ==> profiles@.len() < usize::MAX,
        act is WizardAdvance ==> now_ms + old(auth).hold_ms <= u64::MAX,
    ensures
        act is Dismiss ==> *final(ux) == (BuddyUx { phase: Phase::Hidden, ..*old(ux) }),
        (act is SetListenMs || act is SetGazeMs || act is SetStroke) ==> *final(lock) == if gaze_fixed {
            *old(lock)
        } else {
            GazeLock { need_ms: old(settings).gaze_lock_ms, ..*old(lock) }
        },
        (act is StartEnrollFace || act is StartEnrollVoice || act is StartEnrollHands) ==> *final(settings) == (Settings {
            page: SettingsPage::People,
            ..*old(settings)
        }) && *final(menu) == (RadialMenu { settings_open: true, ..*old(menu) }),
        act is CycleGate ==> ({
            let opened = !wiz_is_open(old(wizard)@) && old(settings).gate != GateMode::Off && profiles@.len() == 0;
            &&& *final(declined) == if opened { false } else { *old(declined) }
            &&& opened ==> final(wizard)@ == opened_view("P1"@, true)
                && *final(menu) == (RadialMenu { wizard_open: true, settings_open: true, freeze_ms: Some(now_ms), ..*old(menu) })
                && *final(ux) == if old(ux).phase != Phase::Listening { ux_listen_for(*old(ux), now_ms, listen_ms) } else { *old(ux) }
            &&& !opened ==> final(wizard)@ == old(wizard)@ && *final(menu) == *old(menu) && *final(ux) == *old(ux)
        }),
        act is OpenWizard ==> !*final(declined)
            && final(wizard)@ == opened_view(default_name(profiles@), false)
            && *final(menu) == (RadialMenu { wizard_open: true, settings_open: true, freeze_ms: Some(now_ms), ..*old(menu) })
            && *final(ux) == if old(ux).phase != Phase::Listening { ux_listen_for(*old(ux), now_ms, listen_ms) } else { *old(ux) },
        act is WizardAdvance ==> (final(wizard)@, ev) == crate::wizard::advance_spec(old(wizard)@)
            && ((old(wizard).person_id is None || !(old(wizard).face_ok || old(wizard).voice_ok)) ==> *final(auth) == *old(auth))
            && (old(wizard).person_id is Some && old(wizard).face_ok ==> crate::gate::opt_view(final(auth).face_id) == Some(old(wizard).person_id->0@)
                && final(auth).face_until == now_ms + old(auth).hold_ms)
            && (old(wizard).person_id is Some && old(wizard).voice_ok ==> crate::gate::opt_view(final(auth).voice_id) == Some(old(wizard).person_id->0@)
                && final(auth).voice_until == now_ms + old(auth).hold_ms)
            && (old(wizard).person_id is Some && !old(wizard).face_ok ==> final(auth).face_id == old(auth).face_id && final(auth).face_until == old(auth).face_until)
            && (old(wizard).person_id is Some && !old(wizard).voice_ok ==> final(auth).voice_id == old(auth).voice_id && final(auth).voice_until == old(auth).voice_until),
        act is WizardSkip ==> (final(wizard)@, ev) == crate::wizard::skip_spec(old(wizard)@) && enroll_cleared(final(enroll)@),
        act is WizardCancel ==> (final(wizard)@, ev) == crate::wizard::cancel_spec(old(wizard)@) && *final(declined),
        act is WizardAddAnother ==> (final(wizard)@, ev) == crate::wizard::add_another_spec(old(wizard)@, default_name(profiles@))
            && enroll_cleared(final(enroll)@),
        !(act is Dismiss || act is CycleGate || act is OpenWizard) ==> *final(ux) == *old(ux),
        !(act is StartEnrollFace || act is StartEnrollVoice || act is StartEnrollHands || act is CycleGate || act is OpenWizard)
            ==> *final(menu) == *old(menu),
        !(act is StartEnrollFace || act is StartEnrollVoice || act is StartEnrollHands) ==> *final(settings) == *old(settings),
        !(act is WizardSkip || act is WizardAddAnother) ==> final(enroll)@ == old(enroll)@,
        !(act is WizardAdvance) ==> *final(auth) == *old(auth),
        !(act is CycleGate || act is OpenWizard || act is WizardAdvance || act is WizardSkip || act is WizardCancel || act is WizardAddAnother)
            ==> final(wizard)@ == old(wizard)@,
        !(act is CycleGate || act is OpenWizard || act is WizardCancel) ==> *final(declined) == *old(declined),
        !(act is SetListenMs || act is SetGazeMs || act is SetStroke) ==> *final(lock) == *old(lock),
        !(act is WizardAdvance || act is WizardSkip || act is WizardCancel || act is WizardAddAnother) ==> ev == WizardEvent::Nothing,
{
    match act {
        RadialAction::Dismiss => {
            ux.phase = Phase::Hidden;
            WizardEvent::Nothing
        },
        RadialAction::SetListenMs(_) | RadialAction::SetGazeMs(_) | RadialAction::SetStroke(_) => {
            if !gaze_fixed {
                lock.need_ms = settings.gaze_lock_ms;
            }
            WizardEvent::Nothing
        },
        RadialAction::StartEnrollFace | RadialAction::StartEnrollVoice | RadialAction::StartEnrollHands => {
            settings.page = SettingsPage::People;
            menu.settings_open = true;
            WizardEvent::Nothing
        },
        RadialAction::CycleGate => {
            if maybe_offer_wizard(wizard, menu, ux, profiles, settings, now_ms, listen_ms) {
                *declined = false;
            }
            WizardEvent::Nothing
        },
        RadialAction::OpenWizard => {
            *declined = false;
            show_wizard(wizard, menu, ux, profiles, now_ms, false, listen_ms);
            WizardEvent::Nothing
        },
        RadialAction::WizardAdvance => {
            stamp_wizard_auth(wizard, auth, now_ms);
            wizard.advance()
        },
        RadialAction::WizardSkip => {
            enroll.cancel();
            wizard.skip()
        },
        RadialAction::WizardCancel => {
            *declined = true;
            wizard.cancel()
        },
        RadialAction::WizardAddAnother => {
            let name = profiles.next_default_name();
            enroll.cancel();
            wizard.add_another(name.as_str())
        },
        _ => WizardEvent::Nothing,
    }
}

/// The outcome of releasing a press: `(ux, menu, lock, event, started)`. A tap
/// asks to listen; listening starts (for `listen_ms`, with the menu and the
/// gaze dwell reset) only when `allowed`, i.e. the gating mode admits whoever
/// is recognised. A refused tap leaves the buddy visible and idle.
pub open spec fn tap_spec(u: BuddyUx, m: RadialMenu, l: GazeLock, allowed: bool, within_move: bool, now_ms: u64, seed: u64, listen_ms: u64) -> (BuddyUx, RadialMenu, GazeLock, UxEvent, bool) {
    let (u1, ev) = ux_button_up(u, within_move, now_ms, seed);
    if ev == UxEvent::StartListen {
        if allowed {
            (ux_listen_for(u, now_ms, listen_ms), menu_reset(m), lock_reset(l), ev, true)
        } else {
            (BuddyUx { press_ms: None, dragging: false, ..u }, m, l, ev, false)
        }
    } else {
        (u1, m, l, ev, false)
    }
}

/// Release a press (`within_move`: the pointer stayed within the tap radius).
/// Returns the tap event and whether listening started.
pub fn release_tap(
    ux: &mut BuddyUx,
    menu: &mut RadialMenu,
    lock: &mut GazeLock,
    auth: &AuthSession,
    gate: GateMode,
    within_move: bool,
    now_ms: u64,
    seed: u64,
    listen_ms: u64,
) -> (r: (UxEvent, bool))
    requires
        now_ms + LISTEN_MAX_MS <= u64::MAX,
        now_ms + at_least_one(listen_ms) <= u64::MAX,
    ensures
        (*final(ux), *final(menu), *final(lock), r.0, r.1) == tap_spec(
            *old(ux),
            *old(menu),
            *old(lock),
            auth.allows(gate, now_ms),
            within_move,
            now_ms,
            seed,
            listen_ms,
        ),
{
    let before = *ux;
    let ev = ux.button_up(within_move, now_ms, seed);
    if ev == UxEvent::StartListen {
        if auth.allows_listen(gate, now_ms) {
            *ux = before;
            ux.enter_listen_for(now_ms, listen_ms);
            menu.reset();
            lock.reset();
            return (ev, true);
        }
        *ux = BuddyUx { press_ms: None, dragging: false, ..before };
        return (ev, false);
    }
    (ev, false)
}

/// One frame of the gaze dwell while visible: `(ux, menu, lock, event,
/// started)`. When the dwell completes, listening starts only if `allowed`;
/// the dwell restarts either way.
pub open spec fn dwell_spec(u: BuddyUx, m: RadialMenu, l: GazeLock, allowed: bool, over: bool, now_ms: u64, listen_ms: u64) -> (BuddyUx, RadialMenu, GazeLock, UxEvent, bool) {
    let (l1, ev) = lock_update(l, now_ms, over);
    if ev == UxEvent::StartListen {
        if allowed {
            (ux_listen_for(u, now_ms, listen_ms), menu_reset(m), lock_reset(l1), ev, true)
        } else {
            (u, m, lock_reset(l1), ev, false)
        }
    } else {
        (u, m, l1, ev, false)
    }
}

/// Feed whether the look is on the buddy (`over`, hysteresis applied).
pub fn gaze_dwell(
    ux: &mut BuddyUx,
    menu: &mut RadialMenu,
    lock: &mut GazeLock,
    auth: &AuthSession,
    gate: GateMode,
    over: bool,
    now_ms: u64,
    listen_ms: u64,
) -> (r: (UxEvent, bool))
    requires
        now_ms + at_least_one(listen_ms) <= u64::MAX,
    ensures
        (*final(ux), *final(menu), *final(lock), r.0, r.1) == dwell_spec(
            *old(ux),
            *old(menu),
            *old(lock),
            auth.allows(gate, now_ms),
            over,
            now_ms,
            listen_ms,
        ),
{
    let ev = lock.update(now_ms, over);
    if ev == UxEvent::StartListen {
        lock.reset();
        if auth.allows_listen(gate, now_ms) {
            ux.enter_listen_for(now_ms, listen_ms);
            menu.reset();
            return (ev, true);
        }
        return (ev, false);
    }
    (ev, false)
}

/// Gating holds for both ways into listening: a tap or a completed gaze
/// dwell starts listening only when the gating mode admits, and a refused one
/// leaves the buddy as visible and idle as it was.
pub proof fn law_listening_needs_admission(u: BuddyUx, m: RadialMenu, l: GazeLock, allowed: bool, within_move: bool, over: bool, now_ms: u64, seed: u64, listen_ms: u64)
    requires
        u.phase == Phase::VisibleIdle,
    ensures
        tap_spec(u, m, l, allowed, within_move, now_ms, seed, listen_ms).0.phase == Phase::Listening ==> allowed,
        dwell_spec(u, m, l, allowed, over, now_ms, listen_ms).0.phase == Phase::Listening ==> allowed,
        !allowed ==> tap_spec(u, m, l, allowed, within_move, now_ms, seed, listen_ms).0.phase == Phase::VisibleIdle,
        !allowed ==> dwell_spec(u, m, l, allowed, over, now_ms, listen_ms).0 == u,
{
}

/// The listening deadline: hidden once it has passed, but not while a panel
/// (settings, the wizard, calibration) is open.
pub open spec fn listen_tick_spec(u: BuddyUx, m: RadialMenu, now_ms: u64) -> (BuddyUx, UxEvent) {
    if m.settings_open || m.wizard_open || m.calib_open {
        (u, UxEvent::Nothing)
    } else {
        ux_tick(u, now_ms)
    }
}

pub fn listen_tick(ux: &mut BuddyUx, menu: &RadialMenu, now_ms: u64) -> (ev: UxEvent)
    ensures
        (*final(ux), ev) == listen_tick_spec(*old(ux), *menu, now_ms),
{
    if menu.panel_open() {
        UxEvent::Nothing
    } else {
        ux.tick(now_ms)
    }
}

/// An open panel holds listening past its deadline; with every panel
/// closed, listening ends (hidden) once the deadline is reached.
pub proof fn law_open_panel_pauses_hide(u: BuddyUx, m: RadialMenu, now_ms: u64)
    ensures
        (m.settings_open || m.wizard_open || m.calib_open) ==> listen_tick_spec(u, m, now_ms) == (u, UxEvent::Nothing),
        !(m.settings_open || m.wizard_open || m.calib_open) && u.phase == Phase::Listening && now_ms >= u.listen_until_ms
            ==> listen_tick_spec(u, m, now_ms).0.phase == Phase::Hidden && listen_tick_spec(u, m, now_ms).1 == UxEvent::Hide,
{
}

/// A worker snapshot older than this is ignored.
pub const SNAP_FRESH_MS: u64 = 400;
/// Gestures act at most this often.
pub const GESTURE_ACTION_MS: u64 = 480;

/// Where a worker snapshot goes.
#[derive(Clone, Copy, Debug, PartialEq, Eq, Structural)]
pub enum SnapRoute {
    /// Stale, or already handled.
    Skip,
    /// Into the running enrolment of its modality.
    Enroll,
    /// To identification (matching against the people store).
    Identify,
}

pub open spec fn route_spec(capturing: bool, now_ms: u64, t_ms: u64, last_ms: u64) -> SnapRoute {
    if sat_sub(now_ms, t_ms) <= SNAP_FRESH_MS && t_ms != last_ms {
        if capturing { SnapRoute::Enroll } else { SnapRoute::Identify }
    } else {
        SnapRoute::Skip
    }
}

/// Route a snapshot of modality `kind` stamped `t_ms`: fresh and new ones go
/// to a running enrolment of that modality, else to identification; the
/// stamp of the last handled snapshot moves on when one is taken.
pub fn route_snap<E, S>(enroll: &EnrollSession<E, S>, kind: EnrollKind, now_ms: u64, t_ms: u64, last_ms: &mut u64) -> (r: SnapRoute)
    ensures
        r == route_spec(capturing_spec(enroll@, kind), now_ms, t_ms, *old(last_ms)),
        *final(last_ms) == if r == SnapRoute::Skip { *old(last_ms) } else { t_ms },
{
    if now_ms.saturating_sub(t_ms) <= SNAP_FRESH_MS && t_ms != *last_ms {
        *last_ms = t_ms;
        if enroll_capturing(enroll, kind) { SnapRoute::Enroll } else { SnapRoute::Identify }
    } else {
        SnapRoute::Skip
    }
}

/// The gesture map for whoever is recognised: their own (the defaults with
/// their overrides), else the defaults.
pub open spec fn map_for<E, L>(s: Seq<PersonView<E, L>>, who: Option<Seq<char>>) -> Seq<(GestureClass, GestureAction)> {
    match who {
        Some(id) => if no_id(s, id) {
            default_map_spec()
        } else {
            personal_map(s[choose|i: int| id_at(s, id, i)].map)
        },
        None => default_map_spec(),
    }
}

/// Which action a held hand asks for: nothing within `GESTURE_ACTION_MS` of
/// the last one, without a fresh hand (`hand_ms`), when the gesture gate
/// refuses (`allowed`), or for an unknown or unsure class; else the class's
/// action in `map`.
pub open spec fn gesture_spec(now_ms: u64, last_ms: u64, hand_ms: Option<u64>, class: GestureClass, confident: bool, allowed: bool, map: Seq<(GestureClass, GestureAction)>) -> Option<GestureAction> {
    if sat_sub(now_ms, last_ms) < GESTURE_ACTION_MS {
        None
    } else {
        match hand_ms {
            None => None,
            Some(t) => if sat_sub(now_ms, t) > SNAP_FRESH_MS || !allowed || class == GestureClass::Unknown || !confident {
                None
            } else {
                Some(map_lookup(map, class))
            },
        }
    }
}

/// Turn the latest hand (seen at `hand_ms`, classified as `class`, with
/// `confident` saying the score cleared the bar) into an action, at most
/// once per `GESTURE_ACTION_MS`; `last_ms` is the time of the last action.
pub fn gesture_action<E, L>(
    now_ms: u64,
    last_ms: &mut u64,
    hand_ms: Option<u64>,
    class: GestureClass,
    confident: bool,
    profiles: &ProfileStore<E, L>,
    auth: &AuthSession,
    gate: GateMode,
    need_face: bool,
) -> (r: Option<GestureAction>)
    ensures
        r == gesture_spec(
            now_ms,
            *old(last_ms),
            hand_ms,
            class,
            confident,
            auth.allows_gesture_spec(gate, need_face, now_ms),
            map_for(profiles@, crate::gate::opt_view(auth.state.person_id)),
        ),
        *final(last_ms) == if r is Some { now_ms } else { *old(last_ms) },
{
    if now_ms.saturating_sub(*last_ms) < GESTURE_ACTION_MS {
        return None;
    }
    let t = match hand_ms {
        Some(t) => t,
        None => return None,
    };
    if now_ms.saturating_sub(t) > SNAP_FRESH_MS {
        return None;
    }
    if !auth.allows_gesture(gate, need_face, now_ms) {
        return None;
    }
    if class == GestureClass::Unknown || !confident {
        return None;
    }
    let map = match &auth.state.person_id {
        Some(id) => match profiles.get(id.as_str()) {
            Some(p) => {
                proof {
                    let i = choose|i: int| id_at(profiles@, id@, i) && p@ == profiles@[i];
                    let k = choose|k: int| id_at(profiles@, id@, k);
                    lemma_id_at_unique(profiles@, id@, i, k);
                }
                p.map()
            },
            None => default_gesture_map(),
        },
        None => default_gesture_map(),
    };
    *last_ms = now_ms;
    Some(action_for(class, &map))
}

/// What a gesture does to the overlay: `(ux, menu, lock)`. A palm starts
/// listening only from the idle buddy and only when `allowed`; a fist hides;
/// peace toggles the settings panel while listening; mute toggles muting.
pub open spec fn gesture_effect_spec(u: BuddyUx, m: RadialMenu, l: GazeLock, allowed: bool, act: GestureAction, now_ms: u64, listen_ms: u64) -> (BuddyUx, RadialMenu, GazeLock) {
    match act {
        GestureAction::Listen => if u.phase == Phase::VisibleIdle && allowed {
            (ux_listen_for(u, now_ms, listen_ms), menu_reset(m), lock_reset(l))
        } else {
            (u, m, l)
        },
        GestureAction::Dismiss => (BuddyUx { phase: Phase::Hidden, ..u }, m, l),
        GestureAction::Settings => if u.phase == Phase::Listening {
            (u, RadialMenu { settings_open: !m.settings_open, ..m }, l)
        } else {
            (u, m, l)
        },
        GestureAction::Mute => (u, RadialMenu { muted: !m.muted, ..m }, l),
        _ => (u, m, l),
    }
}

pub fn apply_gesture(
    act: GestureAction,
    ux: &mut BuddyUx,
    menu: &mut RadialMenu,
    lock: &mut GazeLock,
    auth: &AuthSession,
    gate: GateMode,
    now_ms: u64,
    listen_ms: u64,
)
    requires
        now_ms + at_least_one(listen_ms) <= u64::MAX,
    ensures
        (*final(ux), *final(menu), *final(lock)) == gesture_effect_spec(
            *old(ux),
            *old(menu),
            *old(lock),
            auth.allows(gate, now_ms),
            act,
            now_ms,
            listen_ms,
        ),
{
    match act {
        GestureAction::Listen => {
            if ux.phase == Phase::VisibleIdle && auth.allows_listen(gate, now_ms) {
                ux.enter_listen_for(now_ms, listen_ms);
                menu.reset();
                lock.reset();
            }
        },
        GestureAction::Dismiss => {
            ux.phase = Phase::Hidden;
        },
        GestureAction::Settings => {
            if ux.phase == Phase::Listening {
                menu.settings_open = !menu.settings_open;
            }
        },
        GestureAction::Mute => {
            menu.muted = !menu.muted;
        },
        _ => {},
    }
}

/// A palm, like a tap or a gaze dwell, starts listening only when the
/// gating mode admits.
pub proof fn law_gesture_listen_needs_admission(u: BuddyUx, m: RadialMenu, l: GazeLock, allowed: bool, act: GestureAction, now_ms: u64, listen_ms: u64)
    requires
        u.phase == Phase::VisibleIdle,
    ensures
        gesture_effect_spec(u, m, l, allowed, act, now_ms, listen_ms).0.phase == Phase::Listening ==> allowed,
{
}

/// The name a finished run is filed under: its own, or the next default
/// name when it was left blank.
pub open spec fn filed_name<E, S, L>(v: EnrollView<E, S>, s: Seq<PersonView<E, L>>) -> Seq<char> {
    if trim(v.person).len() == 0 { default_name(s) } else { v.person }
}

/// The id a finished run is filed under: the run's person, else whoever
/// has (or now gets) the filed name.
pub open spec fn filed_id<E, S, L>(v: EnrollView<E, S>, s: Seq<PersonView<E, L>>, now_ms: u64) -> Seq<char> {
    match v.person_id {
        Some(p) => p,
        None => upsert_id(s, filed_name(v, s), now_ms),
    }
}

/// The store after filing a finished run: face and voice runs replace that
/// modality's vectors; a gesture run replaces the samples of its class.
pub open spec fn filed_store<E, S>(v: EnrollView<E, S>, samples: Seq<Vec<S>>, s: Seq<PersonView<E, Vec<S>>>, now_ms: u64) -> Seq<PersonView<E, Vec<S>>> {
    let s1 = match v.person_id {
        Some(_) => s,
        None => after_upsert(s, filed_name(v, s), now_ms),
    };
    let id = filed_id(v, s, now_ms);
    match v.kind {
        EnrollKind::Face => edit_person(s1, id, |p: PersonView<E, Vec<S>>| PersonView { face: v.accepted, ..p }),
        EnrollKind::Voice => edit_person(s1, id, |p: PersonView<E, Vec<S>>| PersonView { voice: v.accepted, ..p }),
        EnrollKind::Gesture => match v.gesture {
            Some(c) => edit_person(s1, id, |p: PersonView<E, Vec<S>>| PersonView { gestures: without_class(p.gestures, c) + samples_of(c, samples), ..p }),
            None => s1,
        },
    }
}

/// Re-enrolling a known person's face or voice replaces exactly that
/// person's vectors of that modality: everyone else, and that person's
/// other data, stay as they were.
pub proof fn law_reenroll_replaces_modality<E, S>(v: EnrollView<E, S>, samples: Seq<Vec<S>>, s: Seq<PersonView<E, Vec<S>>>, now_ms: u64, i: int)
    requires
        v.kind == EnrollKind::Face || v.kind == EnrollKind::Voice,
        v.person_id is Some,
        id_at(s, v.person_id->0, i),
    ensures
        filed_store(v, samples, s, now_ms) == s.update(
            i,
            if v.kind == EnrollKind::Face {
                PersonView { face: v.accepted, ..s[i] }
            } else {
                PersonView { voice: v.accepted, ..s[i] }
            },
        ),
{
    let id = v.person_id->0;
    if v.kind == EnrollKind::Face {
        lemma_edit_at(s, id, i, |p: PersonView<E, Vec<S>>| PersonView { face: v.accepted, ..p });
    } else {
        lemma_edit_at(s, id, i, |p: PersonView<E, Vec<S>>| PersonView { voice: v.accepted, ..p });
    }
}

/// File a finished enrolment run into the store, select that person on the
/// People page, and reset the run. Does nothing unless the run is done;
/// whether it filed (the caller then saves the store).
pub fn finish_enroll<E, S: Copy, T: Copy>(enroll: &mut EnrollSession<E, S>, profiles: &mut ProfileStore<E, Vec<S>>, settings: &mut Settings<T>, now_ms: u64) -> (filed: bool)
    requires
        trim(old(enroll)@.person).len() == 0 ==> old(profiles)@.len() < usize::MAX,
    ensures
        filed == (old(enroll)@.phase is Done),
        !filed ==> final(enroll)@ == old(enroll)@ && final(profiles)@ == old(profiles)@ && *final(settings) == *old(settings),
        filed ==> ({
            let id = filed_id(old(enroll)@, old(profiles)@, now_ms);
            &&& final(profiles)@ == filed_store(old(enroll)@, old(enroll).gesture_samples@, old(profiles)@, now_ms)
            &&& final(enroll)@.phase == PhaseView::Idle
            &&& final(enroll)@.accepted.len() == 0
            &&& final(settings).page == SettingsPage::People
            &&& final(settings).selected_person == match position_of(final(profiles)@, id) {
                Some(i) => i as usize,
                None => old(settings).selected_person,
            }
            &&& *final(settings) == (Settings { page: SettingsPage::People, selected_person: final(settings).selected_person, ..*old(settings) })
        }),
{
    match enroll.phase {
        EnrollPhase::Done { .. } => {},
        _ => {
            return false;
        },
    }
    let ghost v = enroll@;
    let ghost s0 = profiles@;
    let t = trimmed(enroll.person_name.as_str());
    let name = if t.len() == 0 { profiles.next_default_name() } else { enroll.person_name.clone() };
    assert(name@ == filed_name(v, s0));
    let id = match &enroll.person_id {
        Some(p) => p.clone(),
        None => profiles.upsert_named(name.as_str(), now_ms),
    };
    assert(id@ == filed_id(v, s0, now_ms));
    let ghost s1 = profiles@;
    let ghost raw = enroll.gesture_samples@;
    match enroll.kind {
        EnrollKind::Face => {
            let acc = enroll.accepted.split_off(0);
            proof {
                assert(acc@ =~= v.accepted);
                assert((|p: PersonView<E, Vec<S>>| PersonView { face: acc@, ..p }) =~= (|p: PersonView<E, Vec<S>>| PersonView { face: v.accepted, ..p }));
            }
            profiles.replace_face(id.as_str(), acc);
        },
        EnrollKind::Voice => {
            let acc = enroll.accepted.split_off(0);
            proof {
                assert(acc@ =~= v.accepted);
                assert((|p: PersonView<E, Vec<S>>| PersonView { voice: acc@, ..p }) =~= (|p: PersonView<E, Vec<S>>| PersonView { voice: v.accepted, ..p }));
            }
            profiles.replace_voice(id.as_str(), acc);
        },
        EnrollKind::Gesture => {
            match enroll.gesture {
                Some(c) => {
                    let g = enroll.gesture_samples.split_off(0);
                    proof {
                        assert(g@ =~= raw);
                    }
                    profiles.add_gesture_samples(id.as_str(), c, g);
                },
                None => {},
            }
        },
    }
    assert(profiles@ == filed_store(v, raw, s0, now_ms));
    match profiles.position(id.as_str()) {
        Some(i) => {
            settings.selected_person = i;
        },
        None => {},
    }
    settings.page = SettingsPage::People;
    *enroll = EnrollSession::idle();
    true
}


fn copy_id(o: &Option<String>) -> (r: Option<String>)
    ensures
        crate::gate::opt_view(r) == crate::gate::opt_view(*o),
{
    match o {
        Some(p) => Some(p.clone()),
        None => None,
    }
}

/// A run just started for `name` / `id`, before any capture.
pub open spec fn fresh_run<E, S>(kind: EnrollKind, name: Seq<char>, id: Option<Seq<char>>, gesture: Option<GestureClass>, need: int) -> EnrollView<E, S> {
    EnrollView {
        phase: PhaseView::Prompt { kind, person: name, gesture },
        person: name,
        person_id: id,
        kind,
        gesture,
        accepted: Seq::empty(),
        samples: Seq::empty(),
        rejects: 0,
        need,
        last_reject: None,
    }
}

/// Act on what the wizard asked for: start the capture it names (for the
/// wizard's person, created on first need), adopt a suggested gate mode
/// while none is set, and close the wizard's chrome once it is done.
/// `mic_available` is whether a microphone can be opened; without one a
/// voice step fails at once with `NO MIC`. Whether settings changed and
/// should be saved.
pub fn apply_wizard_event<E, S: Copy, T: Copy>(
    ev: WizardEvent,
    wizard: &mut FirstRunWizard,
    enroll: &mut EnrollSession<E, S>,
    profiles: &mut ProfileStore<E, Vec<S>>,
    settings: &mut Settings<T>,
    menu: &mut RadialMenu,
    now_ms: u64,
    mic_available: bool,
) -> (save: bool)
    ensures
        save == (ev matches WizardEvent::SuggestGate(_) && old(settings).gate == GateMode::Off),
        (ev is Nothing || ev is Opened) ==> final(wizard)@ == old(wizard)@ && final(enroll)@ == old(enroll)@ && final(profiles)@ == old(profiles)@
            && *final(settings) == *old(settings) && *final(menu) == *old(menu),
        (ev is BeginFace || ev is BeginVoice || ev is BeginHands) ==> ({
            let id = if old(wizard)@.person_id is Some { old(wizard)@.person_id->0 } else { upsert_id(old(profiles)@, old(wizard)@.name, now_ms) };
            &&& final(profiles)@ == if old(wizard)@.person_id is Some { old(profiles)@ } else { after_upsert(old(profiles)@, old(wizard)@.name, now_ms) }
            &&& final(wizard)@ == (WizardView { person_id: Some(id), ..old(wizard)@ })
            &&& *final(menu) == *old(menu)
            &&& final(settings).gate == old(settings).gate
            &&& final(enroll)@ =~= match ev {
                WizardEvent::BeginFace => begun(fresh_run::<E, S>(EnrollKind::Face, old(wizard)@.name, Some(id), None, FACE_ENROLL_NEED as int)),
                WizardEvent::BeginVoice => if mic_available {
                    begun(fresh_run::<E, S>(EnrollKind::Voice, old(wizard)@.name, Some(id), None, VOICE_ENROLL_NEED as int))
                } else {
                    EnrollView { phase: PhaseView::Failed { reason: "NO MIC"@ }, ..fresh_run::<E, S>(EnrollKind::Voice, old(wizard)@.name, Some(id), None, VOICE_ENROLL_NEED as int) }
                },
                WizardEvent::BeginHands(c) => begun(fresh_run::<E, S>(EnrollKind::Gesture, old(wizard)@.name, Some(id), Some(c), GESTURE_ENROLL_NEED as int)),
                _ => old(enroll)@,
            }
        }),
        ev matches WizardEvent::SuggestGate(g) ==> final(settings).gate == (if old(settings).gate == GateMode::Off { g } else { old(settings).gate })
            && *final(settings) == (Settings { gate: final(settings).gate, ..*old(settings) })
            && final(wizard)@ == old(wizard)@ && final(enroll)@ == old(enroll)@ && final(profiles)@ == old(profiles)@
            && *final(menu) == if wiz_is_open(old(wizard)@) { *old(menu) } else { RadialMenu { wizard_open: false, settings_open: false, freeze_ms: None, ..*old(menu) } },
        ev is Completed ==> *final(menu) == (RadialMenu { wizard_open: false, settings_open: false, freeze_ms: None, ..*old(menu) })
            && final(wizard)@ == old(wizard)@ && final(enroll)@ == old(enroll)@ && final(profiles)@ == old(profiles)@ && *final(settings) == *old(settings),
        ev is Cancelled ==> *final(menu) == (RadialMenu { wizard_open: false, settings_open: false, freeze_ms: None, ..*old(menu) })
            && final(enroll)@.phase == PhaseView::Idle
            && final(wizard)@ == old(wizard)@ && final(profiles)@ == old(profiles)@ && *final(settings) == *old(settings),
{
    match ev {
        WizardEvent::Nothing | WizardEvent::Opened => false,
        WizardEvent::BeginFace => {
            ensure_wizard_person(wizard, profiles, settings, now_ms);
            *enroll = EnrollSession::start_face(wizard.person_name.as_str(), copy_id(&wizard.person_id));
            enroll.begin_capture();
            false
        },
        WizardEvent::BeginVoice => {
            ensure_wizard_person(wizard, profiles, settings, now_ms);
            *enroll = EnrollSession::start_voice(wizard.person_name.as_str(), copy_id(&wizard.person_id));
            if !mic_available {
                enroll.phase = EnrollPhase::Failed { reason: String::from_str("NO MIC") };
            } else {
                enroll.begin_capture();
            }
            false
        },
        WizardEvent::BeginHands(class) => {
            ensure_wizard_person(wizard, profiles, settings, now_ms);
            *enroll = EnrollSession::start_gesture(wizard.person_name.as_str(), copy_id(&wizard.person_id), class, GESTURE_ENROLL_NEED);
            enroll.begin_capture();
            false
        },
        WizardEvent::SuggestGate(g) => {
            let save = settings.gate == GateMode::Off;
            if save {
                settings.gate = g;
            }
            if !wizard.is_open() {
                close_wizard_chrome(menu);
            }
            save
        },
        WizardEvent::Completed => {
            close_wizard_chrome(menu);
            false
        },
        WizardEvent::Cancelled => {
            enroll.cancel();
            close_wizard_chrome(menu);
            false
        },
    }
}


/// Start a run of `kind` for `name` / `id` and begin capturing; a voice run
/// without a microphone fails at once with `NO MIC`.
fn start_run<E, S: Copy>(enroll: &mut EnrollSession<E, S>, kind: EnrollKind, name: &str, id: Option<String>, mic_available: bool)
    ensures
        final(enroll)@ =~= match kind {
            EnrollKind::Face => begun(fresh_run::<E, S>(EnrollKind::Face, name@, crate::gate::opt_view(id), None, FACE_ENROLL_NEED as int)),
            EnrollKind::Voice => if mic_available {
                begun(fresh_run::<E, S>(EnrollKind::Voice, name@, crate::gate::opt_view(id), None, VOICE_ENROLL_NEED as int))
            } else {
                EnrollView { phase: PhaseView::Failed { reason: "NO MIC"@ }, ..fresh_run::<E, S>(EnrollKind::Voice, name@, crate::gate::opt_view(id), None, VOICE_ENROLL_NEED as int) }
            },
            EnrollKind::Gesture => begun(fresh_run::<E, S>(EnrollKind::Gesture, name@, crate::gate::opt_view(id), Some(GestureClass::Fist), GESTURE_ENROLL_NEED as int)),
        },
{
    match kind {
        EnrollKind::Face => {
            *enroll = EnrollSession::start_face(name, id);
            enroll.begin_capture();
        },
        EnrollKind::Voice => {
            *enroll = EnrollSession::start_voice(name, id);
            if !mic_available {
                enroll.phase = EnrollPhase::Failed { reason: String::from_str("NO MIC") };
            } else {
                enroll.begin_capture();
            }
        },
        EnrollKind::Gesture => {
            *enroll = EnrollSession::start_gesture(name, id, GestureClass::Fist, GESTURE_ENROLL_NEED);
            enroll.begin_capture();
        },
    }
}

/// The People-tab side of a menu action (the menu and settings fields were
/// already updated by `apply_action`): add or delete a person, start or
/// cancel an enrolment. Returns whether the settings and whether the store
/// changed and should be saved.
pub fn apply_identity_action<E, S: Copy, T: Copy>(
    act: RadialAction<T>,
    settings: &mut Settings<T>,
    profiles: &mut ProfileStore<E, Vec<S>>,
    enroll: &mut EnrollSession<E, S>,
    auth: &mut AuthSession,
    now_ms: u64,
    mic_available: bool,
) -> (saves: (bool, bool))
    requires
        old(profiles)@.len() < usize::MAX,
    ensures
        saves.0 == (act is CycleGate || act is ToggleNeedFace || act is TabLook || act is TabPeople),
        act is NewPerson ==> ({
            let name = default_name(old(profiles)@);
            let id = upsert_id(old(profiles)@, name, now_ms);
            &&& saves.1
            &&& final(profiles)@ == after_upsert(old(profiles)@, name, now_ms)
            &&& final(settings).page == SettingsPage::People
            &&& final(settings).selected_person == match position_of(final(profiles)@, id) {
                Some(i) => i as usize,
                None => old(settings).selected_person,
            }
        }),
        act is DeleteSelected ==> if old(settings).selected_person < old(profiles)@.len() {
            &&& saves.1
            &&& final(profiles)@ == without_id(old(profiles)@, old(profiles)@[old(settings).selected_person as int].id)
            &&& final(settings).selected_person == 0
            &&& final(auth).state@ == crate::gate::unknown_view()
            &&& final(auth).face_id is None && final(auth).voice_id is None
        } else {
            &&& !saves.1
            &&& final(profiles)@ == old(profiles)@
            &&& *final(settings) == *old(settings)
        },
        (act is StartEnrollFace || act is StartEnrollVoice || act is StartEnrollHands) ==> ({
            let sel = old(settings).selected_person;
            let picked = sel < old(profiles)@.len();
            let name = if picked { old(profiles)@[sel as int].name } else { default_name(old(profiles)@) };
            let id = if picked { old(profiles)@[sel as int].id } else { upsert_id(old(profiles)@, default_name(old(profiles)@), now_ms) };
            let kind = if act is StartEnrollFace { EnrollKind::Face } else if act is StartEnrollVoice { EnrollKind::Voice } else { EnrollKind::Gesture };
            &&& saves.1 == !picked
            &&& final(profiles)@ == if picked { old(profiles)@ } else { after_upsert(old(profiles)@, default_name(old(profiles)@), now_ms) }
            &&& final(enroll)@ =~= match kind {
                EnrollKind::Face => begun(fresh_run::<E, S>(EnrollKind::Face, name, Some(id), None, FACE_ENROLL_NEED as int)),
                EnrollKind::Voice => if mic_available {
                    begun(fresh_run::<E, S>(EnrollKind::Voice, name, Some(id), None, VOICE_ENROLL_NEED as int))
                } else {
                    EnrollView { phase: PhaseView::Failed { reason: "NO MIC"@ }, ..fresh_run::<E, S>(EnrollKind::Voice, name, Some(id), None, VOICE_ENROLL_NEED as int) }
                },
                EnrollKind::Gesture => begun(fresh_run::<E, S>(EnrollKind::Gesture, name, Some(id), Some(GestureClass::Fist), GESTURE_ENROLL_NEED as int)),
            }
            &&& *final(settings) == *old(settings)
        }),
        act is CancelEnroll ==> final(enroll)@.phase == PhaseView::Idle && final(profiles)@ == old(profiles)@ && !saves.1,
        !(act is NewPerson || act is DeleteSelected || act is StartEnrollFace || act is StartEnrollVoice || act is StartEnrollHands || act is CancelEnroll)
            ==> final(profiles)@ == old(profiles)@ && *final(settings) == *old(settings) && final(enroll)@ == old(enroll)@ && !saves.1,
{
    match act {
        RadialAction::CycleGate | RadialAction::ToggleNeedFace | RadialAction::TabLook | RadialAction::TabPeople => (true, false),
        RadialAction::NewPerson => {
            let name = profiles.next_default_name();
            let id = profiles.upsert_named(name.as_str(), now_ms);
            match profiles.position(id.as_str()) {
                Some(i) => {
                    settings.selected_person = i;
                },
                None => {},
            }
            settings.page = SettingsPage::People;
            (false, true)
        },
        RadialAction::DeleteSelected => {
            if settings.selected_person < profiles.people.len() {
                let id = profiles.people[settings.selected_person].id.clone();
                profiles.delete(id.as_str());
                settings.selected_person = 0;
                *auth = AuthSession::new(8_000);
                (false, true)
            } else {
                (false, false)
            }
        },
        RadialAction::StartEnrollFace | RadialAction::StartEnrollVoice | RadialAction::StartEnrollHands => {
            let before = profiles.people.len();
            let (name, id) = person_target(profiles, settings, now_ms);
            let kind = match act {
                RadialAction::StartEnrollFace => EnrollKind::Face,
                RadialAction::StartEnrollVoice => EnrollKind::Voice,
                _ => EnrollKind::Gesture,
            };
            start_run(enroll, kind, name.as_str(), id, mic_available);
            (false, settings.selected_person >= before)
        },
        RadialAction::CancelEnroll => {
            enroll.cancel();
            (false, false)
        },
        _ => (false, false),
    }
}


/// While listening, the peace gesture flips the settings panel (open to
/// closed, closed to open) and changes nothing else, so two in a row leave it
/// as it was; outside listening it does nothing.
pub proof fn law_peace_toggles_settings(u: BuddyUx, m: RadialMenu, l: GazeLock, allowed: bool, t1: u64, t2: u64, listen_ms: u64)
    ensures
        u.phase == Phase::Listening ==> ({
            let (u1, m1, l1) = gesture_effect_spec(u, m, l, allowed, GestureAction::Settings, t1, listen_ms);
            &&& m1.settings_open != m.settings_open
            &&& (RadialMenu { settings_open: m.settings_open, ..m1 }) == m
            &&& u1 == u && l1 == l
            &&& gesture_effect_spec(u1, m1, l1, allowed, GestureAction::Settings, t2, listen_ms) == (u, m, l)
        }),
        u.phase != Phase::Listening ==> gesture_effect_spec(u, m, l, allowed, GestureAction::Settings, t1, listen_ms) == (u, m, l),
{
}


/// A fist hides the buddy and touches nothing else; the mute gesture flips
/// muting (twice restores it) and touches nothing else; a palm on the idle
/// buddy starts listening when gating admits it.
pub proof fn law_fist_mute_palm(u: BuddyUx, m: RadialMenu, l: GazeLock, allowed: bool, t1: u64, t2: u64, listen_ms: u64)
    ensures
        gesture_effect_spec(u, m, l, allowed, GestureAction::Dismiss, t1, listen_ms) == (BuddyUx { phase: Phase::Hidden, ..u }, m, l),
        ({
            let (u1, m1, l1) = gesture_effect_spec(u, m, l, allowed, GestureAction::Mute, t1, listen_ms);
            &&& m1.muted != m.muted
            &&& (RadialMenu { muted: m.muted, ..m1 }) == m
            &&& u1 == u && l1 == l
            &&& gesture_effect_spec(u1, m1, l1, allowed, GestureAction::Mute, t2, listen_ms) == (u, m, l)
        }),
        u.phase == Phase::VisibleIdle && allowed ==> gesture_effect_spec(u, m, l, allowed, GestureAction::Listen, t1, listen_ms).0.phase
            == Phase::Listening,
{
}

} // verus!
