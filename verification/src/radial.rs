//! Listening-mode radial menu: which panel is open, the icon flash, the
//! frozen layout clock, and what each menu action does to the menu and
//! to the settings.

use vstd::prelude::*;
use crate::gate::{GateMode, gate_next, gate_of_word};
use crate::ini::{entry_of, lines_of, ini_lines, split_entry};
use crate::num::{parse_u32, parse_u32_spec};
use crate::text::{eq_str, lower, lower_slice, norm, string_of, trim, trim_chars};

verus! {

pub const ICON_COUNT: usize = 4;
/// How long an icon stays highlighted after a click.
pub const FLASH_MS: u64 = 220;
pub const LISTEN_MS_MIN: u32 = 2_000;
pub const LISTEN_MS_MAX: u32 = 15_000;

#[derive(Clone, Copy, Debug, PartialEq, Eq, Structural)]
pub enum SettingsPage {
    Look,
    People,
}

impl Default for SettingsPage {
    /// The Look page.
    fn default() -> (p: SettingsPage)
        ensures
            p == SettingsPage::Look,
    {
        SettingsPage::Look
    }
}

#[derive(Clone, Copy, Debug, PartialEq, Eq, Structural)]
pub enum IconId {
    Settings,
    Dismiss,
    Mute,
    Info,
}

/// The icons clockwise from the Settings icon.
pub fn icons() -> (v: [IconId; ICON_COUNT])
    ensures
        v@ == seq![IconId::Settings, IconId::Dismiss, IconId::Mute, IconId::Info],
{
    [IconId::Settings, IconId::Dismiss, IconId::Mute, IconId::Info]
}

/// Which first-run wizard buttons are live.
#[derive(Clone, Copy, Debug, PartialEq, Eq, Structural)]
pub struct WizardHits {
    pub can_skip: bool,
    pub can_next: bool,
    pub can_add: bool,
}

impl Default for WizardHits {
    /// No button live.
    fn default() -> (h: WizardHits)
        ensures
            h == (WizardHits { can_skip: false, can_next: false, can_add: false }),
    {
        WizardHits { can_skip: false, can_next: false, can_add: false }
    }
}

#[derive(Clone, Copy, Debug, PartialEq, Eq, Structural)]
pub enum Slider {
    Listen,
    Gaze,
    Stroke,
}

#[derive(Clone, Copy, Debug)]
pub struct RadialMenu {
    pub settings_open: bool,
    pub wizard_open: bool,
    pub muted: bool,
    pub flash_id: Option<IconId>,
    pub flash_until_ms: u64,
    pub dragging_slider: Option<Slider>,
    pub freeze_ms: Option<u64>,
    pub calib_open: bool,
}

pub open spec fn menu_closed() -> RadialMenu {
    RadialMenu {
        settings_open: false,
        wizard_open: false,
        muted: false,
        flash_id: None,
        flash_until_ms: 0,
        dragging_slider: None,
        freeze_ms: None,
        calib_open: false,
    }
}

/// Close every panel and stop flashing and dragging; mute is kept.
pub open spec fn menu_reset(m: RadialMenu) -> RadialMenu {
    RadialMenu {
        settings_open: false,
        wizard_open: false,
        flash_id: None,
        dragging_slider: None,
        freeze_ms: None,
        calib_open: false,
        ..m
    }
}

impl Default for RadialMenu {
    /// The closed menu of [`RadialMenu::new`].
    fn default() -> (m: RadialMenu)
        ensures
            m == menu_closed(),
    {
        RadialMenu::new()
    }
}

pub open spec fn menu_flash(m: RadialMenu, id: IconId, now_ms: u64) -> RadialMenu {
    RadialMenu { flash_id: Some(id), flash_until_ms: (now_ms + FLASH_MS) as u64, ..m }
}

impl RadialMenu {
    pub fn new() -> (m: RadialMenu)
        ensures
            m == menu_closed(),
    {
        RadialMenu {
            settings_open: false,
            wizard_open: false,
            muted: false,
            flash_id: None,
            flash_until_ms: 0,
            dragging_slider: None,
            freeze_ms: None,
            calib_open: false,
        }
    }

    pub fn reset(&mut self)
        ensures
            *final(self) == menu_reset(*old(self)),
    {
        self.settings_open = false;
        self.wizard_open = false;
        self.flash_id = None;
        self.dragging_slider = None;
        self.freeze_ms = None;
        self.calib_open = false;
    }

    /// Settings, first-run wizard, or gaze calibration: the hide timer pauses.
    pub fn panel_open(&self) -> (b: bool)
        ensures
            b == (self.settings_open || self.wizard_open || self.calib_open),
    {
        self.settings_open || self.wizard_open || self.calib_open
    }

    /// The clock the icon layout uses: frozen while the settings panel is open.
    pub fn layout_ms(&self, now_ms: u64) -> (t: u64)
        ensures
            t == match self.freeze_ms {
                Some(f) => f,
                None => now_ms,
            },
    {
        match self.freeze_ms {
            Some(f) => f,
            None => now_ms,
        }
    }

    pub fn flash(&mut self, id: IconId, now_ms: u64)
        requires
            now_ms + FLASH_MS <= u64::MAX,
        ensures
            *final(self) == menu_flash(*old(self), id, now_ms),
    {
        self.flash_id = Some(id);
        self.flash_until_ms = now_ms + FLASH_MS;
    }

    pub fn flashing(&self, id: IconId, now_ms: u64) -> (b: bool)
        ensures
            b == (self.flash_id == Some(id) && now_ms < self.flash_until_ms),
    {
        match self.flash_id {
            Some(f) => f == id && now_ms < self.flash_until_ms,
            None => false,
        }
    }
}


/// Overlay settings. The stroke width is carried as an opaque value `S`.
#[derive(Clone, Copy, Debug)]
pub struct Settings<S> {
    pub listen_ms: u32,
    pub gaze_lock_ms: u32,
    pub camera: bool,
    pub stroke: S,
    pub gate: GateMode,
    pub gestures_need_face: bool,
    pub page: SettingsPage,
    pub selected_person: usize,
}

pub open spec fn clamp_ms(v: u32) -> u32 {
    if v < LISTEN_MS_MIN { LISTEN_MS_MIN } else if v > LISTEN_MS_MAX { LISTEN_MS_MAX } else { v }
}

impl<S: Copy> Settings<S> {
    /// Listen and gaze windows of 8 s, camera on, gate off, gestures need a
    /// face, Look page, first person selected; `stroke` as given.
    pub fn with_stroke(stroke: S) -> (s: Settings<S>)
        ensures
            s == (Settings {
                listen_ms: 8_000,
                gaze_lock_ms: 8_000,
                camera: true,
                stroke,
                gate: GateMode::Off,
                gestures_need_face: true,
                page: SettingsPage::Look,
                selected_person: 0,
            }),
    {
        Settings {
            listen_ms: 8_000,
            gaze_lock_ms: 8_000,
            camera: true,
            stroke,
            gate: GateMode::Off,
            gestures_need_face: true,
            page: SettingsPage::Look,
            selected_person: 0,
        }
    }

    /// Keep both windows within 2–15 s.
    pub fn clamp(&mut self)
        ensures
            *final(self) == (Settings {
                listen_ms: clamp_ms(old(self).listen_ms),
                gaze_lock_ms: clamp_ms(old(self).gaze_lock_ms),
                ..*old(self)
            }),
    {
        if self.listen_ms < LISTEN_MS_MIN {
            self.listen_ms = LISTEN_MS_MIN;
        } else if self.listen_ms > LISTEN_MS_MAX {
            self.listen_ms = LISTEN_MS_MAX;
        }
        if self.gaze_lock_ms < LISTEN_MS_MIN {
            self.gaze_lock_ms = LISTEN_MS_MIN;
        } else if self.gaze_lock_ms > LISTEN_MS_MAX {
            self.gaze_lock_ms = LISTEN_MS_MAX;
        }
    }
}

/// What a click on the menu asks for.
#[derive(Clone, Copy, Debug)]
pub enum RadialAction<S> {
    Nothing,
    ToggleSettings,
    CloseSettings,
    Dismiss,
    Mute,
    Info,
    SetListenMs(u32),
    SetGazeMs(u32),
    SetStroke(S),
    ToggleCamera,
    CycleGate,
    ToggleNeedFace,
    TabLook,
    TabPeople,
    NewPerson,
    SelectPerson(usize),
    DeleteSelected,
    StartEnrollFace,
    StartEnrollVoice,
    StartEnrollHands,
    CancelEnroll,
    OpenWizard,
    WizardAdvance,
    WizardSkip,
    WizardCancel,
    WizardAddAnother,
    StartGazeCalib,
    CancelGazeCalib,
    SkipGazeCalib,
}

/// Whether the action highlights an icon.
pub open spec fn flashes<S>(a: RadialAction<S>) -> bool {
    a is ToggleSettings || a is Dismiss || a is Mute || a is Info
}

/// The menu and settings after `action` at `now_ms`. Actions that need the
/// wider app (enrolment, the wizard, calibration, people) change neither.
pub open spec fn apply_spec<S>(m: RadialMenu, s: Settings<S>, action: RadialAction<S>, now_ms: u64) -> (RadialMenu, Settings<S>) {
    match action {
        RadialAction::ToggleSettings => {
            let open = !m.settings_open;
            (menu_flash(RadialMenu { settings_open: open, freeze_ms: if open { Some(now_ms) } else { None }, ..m }, IconId::Settings, now_ms), s)
        },
        RadialAction::CloseSettings => (RadialMenu { settings_open: false, freeze_ms: None, ..m }, s),
        RadialAction::Dismiss => (menu_reset(menu_flash(m, IconId::Dismiss, now_ms)), s),
        RadialAction::Mute => (menu_flash(RadialMenu { muted: !m.muted, ..m }, IconId::Mute, now_ms), s),
        RadialAction::Info => (menu_flash(m, IconId::Info, now_ms), s),
        RadialAction::SetListenMs(v) => (m, Settings { listen_ms: clamp_ms(v), gaze_lock_ms: clamp_ms(s.gaze_lock_ms), ..s }),
        RadialAction::SetGazeMs(v) => (m, Settings { listen_ms: clamp_ms(s.listen_ms), gaze_lock_ms: clamp_ms(v), ..s }),
        RadialAction::SetStroke(v) => (m, Settings { listen_ms: clamp_ms(s.listen_ms), gaze_lock_ms: clamp_ms(s.gaze_lock_ms), stroke: v, ..s }),
        RadialAction::ToggleCamera => (m, Settings { camera: !s.camera, ..s }),
        RadialAction::CycleGate => (m, Settings { gate: gate_next(s.gate), ..s }),
        RadialAction::ToggleNeedFace => (m, Settings { gestures_need_face: !s.gestures_need_face, ..s }),
        RadialAction::TabLook => (m, Settings { page: SettingsPage::Look, ..s }),
        RadialAction::TabPeople => (m, Settings { page: SettingsPage::People, ..s }),
        RadialAction::SelectPerson(i) => (m, Settings { selected_person: i, ..s }),
        _ => (m, s),
    }
}

/// Apply a menu action. The stroke is stored as given (its range is the
/// caller's to keep); the listen and gaze windows are clamped to 2–15 s.
pub fn apply_action<S: Copy>(menu: &mut RadialMenu, settings: &mut Settings<S>, action: RadialAction<S>, now_ms: u64)
    requires
        flashes(action) ==> now_ms + FLASH_MS <= u64::MAX,
    ensures
        (*final(menu), *final(settings)) == apply_spec(*old(menu), *old(settings), action, now_ms),
{
    match action {
        RadialAction::ToggleSettings => {
            menu.settings_open = !menu.settings_open;
            menu.freeze_ms = if menu.settings_open { Some(now_ms) } else { None };
            menu.flash(IconId::Settings, now_ms);
        },
        RadialAction::CloseSettings => {
            menu.settings_open = false;
            menu.freeze_ms = None;
        },
        RadialAction::Dismiss => {
            menu.flash(IconId::Dismiss, now_ms);
            menu.reset();
        },
        RadialAction::Mute => {
            menu.muted = !menu.muted;
            menu.flash(IconId::Mute, now_ms);
        },
        RadialAction::Info => {
            menu.flash(IconId::Info, now_ms);
        },
        RadialAction::SetListenMs(v) => {
            settings.listen_ms = v;
            settings.clamp();
        },
        RadialAction::SetGazeMs(v) => {
            settings.gaze_lock_ms = v;
            settings.clamp();
        },
        RadialAction::SetStroke(v) => {
            settings.stroke = v;
            settings.clamp();
        },
        RadialAction::ToggleCamera => {
            settings.camera = !settings.camera;
        },
        RadialAction::CycleGate => {
            settings.gate = settings.gate.next();
        },
        RadialAction::ToggleNeedFace => {
            settings.gestures_need_face = !settings.gestures_need_face;
        },
        RadialAction::TabLook => {
            settings.page = SettingsPage::Look;
        },
        RadialAction::TabPeople => {
            settings.page = SettingsPage::People;
        },
        RadialAction::SelectPerson(i) => {
            settings.selected_person = i;
        },
        _ => {},
    }
}

/// Toggling settings twice (at any two times) leaves the panel as it was and
/// the layout clock unfrozen if it started unfrozen; dismissing always closes
/// every panel.
pub proof fn law_settings_toggle_and_dismiss<S>(m: RadialMenu, s: Settings<S>, t1: u64, t2: u64)
    requires
        t1 + FLASH_MS <= u64::MAX,
        t2 + FLASH_MS <= u64::MAX,
    ensures
        ({
            let once = apply_spec(m, s, RadialAction::ToggleSettings, t1);
            let twice = apply_spec(once.0, once.1, RadialAction::ToggleSettings, t2);
            &&& once.0.settings_open == !m.settings_open
            &&& once.0.settings_open ==> once.0.freeze_ms == Some(t1)
            &&& twice.0.settings_open == m.settings_open
            &&& !m.settings_open ==> twice.0.freeze_ms is None
            &&& twice.1 == s
        }),
        !apply_spec(m, s, RadialAction::Dismiss, t1).0.settings_open,
        !apply_spec(m, s, RadialAction::Dismiss, t1).0.wizard_open,
        !apply_spec(m, s, RadialAction::Dismiss, t1).0.calib_open,
        apply_spec(m, s, RadialAction::Dismiss, t1).0.muted == m.muted,
{
}


/// Which targets of the open panel lie under the pointer; the panel's
/// geometry is the caller's. Each slider entry carries the value that the
/// pointer's place on that track stands for.
#[derive(Clone, Copy, Debug)]
pub struct PanelHits<S> {
    pub close: bool,
    pub wizard_next: bool,
    pub wizard_skip: bool,
    pub wizard_add: bool,
    pub tab_look: bool,
    pub tab_people: bool,
    pub cancel_enroll: bool,
    /// The first four people's rows, top down.
    pub person_rows: [bool; 4],
    /// Enroll face, voice, hands.
    pub id_buttons: [bool; 3],
    pub new_button: bool,
    pub delete_button: bool,
    pub need_face: bool,
    pub camera: bool,
    pub gate: bool,
    pub listen: Option<u32>,
    pub gaze: Option<u32>,
    pub stroke: Option<S>,
    pub calib: bool,
}

/// The first of the rows `from..lim` under the pointer.
pub open spec fn first_row(rows: Seq<bool>, from: int, lim: int) -> Option<usize>
    decreases lim - from,
{
    if from >= lim {
        None
    } else if rows[from] {
        Some(from as usize)
    } else {
        first_row(rows, from + 1, lim)
    }
}

/// What a click on the open panel does. The close disc wins; a wizard panel
/// offers only its live buttons; the tabs come next; during an enrolment only
/// its cancel button works; then the page's own targets.
pub open spec fn panel_spec<S>(h: PanelHits<S>, page: SettingsPage, people_n: usize, enroll_active: bool, wizard: Option<WizardHits>) -> RadialAction<S> {
    if h.close {
        if wizard is Some { RadialAction::WizardCancel } else { RadialAction::CloseSettings }
    } else if wizard is Some {
        let w = wizard->0;
        if w.can_next && h.wizard_next {
            RadialAction::WizardAdvance
        } else if w.can_skip && h.wizard_skip {
            RadialAction::WizardSkip
        } else if w.can_add && h.wizard_add {
            RadialAction::WizardAddAnother
        } else {
            RadialAction::Nothing
        }
    } else if h.tab_look {
        RadialAction::TabLook
    } else if h.tab_people {
        RadialAction::TabPeople
    } else if enroll_active {
        if h.cancel_enroll { RadialAction::CancelEnroll } else { RadialAction::Nothing }
    } else if page == SettingsPage::People {
        match first_row(h.person_rows@, 0, if people_n < 4 { people_n as int } else { 4 }) {
            Some(i) => RadialAction::SelectPerson(i),
            None => if h.id_buttons[0] {
                RadialAction::StartEnrollFace
            } else if h.id_buttons[1] {
                RadialAction::StartEnrollVoice
            } else if h.id_buttons[2] {
                RadialAction::StartEnrollHands
            } else if h.new_button {
                RadialAction::OpenWizard
            } else if h.delete_button {
                RadialAction::DeleteSelected
            } else if h.need_face {
                RadialAction::ToggleNeedFace
            } else {
                RadialAction::Nothing
            },
        }
    } else if h.camera {
        RadialAction::ToggleCamera
    } else if h.gate {
        RadialAction::CycleGate
    } else if h.listen is Some {
        RadialAction::SetListenMs(h.listen->0)
    } else if h.gaze is Some {
        RadialAction::SetGazeMs(h.gaze->0)
    } else if h.stroke is Some {
        RadialAction::SetStroke(h.stroke->0)
    } else if h.calib {
        RadialAction::StartGazeCalib
    } else {
        RadialAction::Nothing
    }
}

fn first_person_row(rows: &[bool; 4], people_n: usize) -> (r: Option<usize>)
    ensures
        r == first_row(rows@, 0, if people_n < 4 { people_n as int } else { 4 }),
{
    let lim: usize = if people_n < 4 { people_n } else { 4 };
    let mut i: usize = lim;
    let mut found: Option<usize> = None;
    while i > 0
        invariant
            i <= lim <= 4,
            found == first_row(rows@, i as int, lim as int),
        decreases i,
    {
        i = i - 1;
        if rows[i] {
            found = Some(i);
        }
    }
    found
}

/// The action a click on the open panel asks for (nothing is applied).
pub fn hit_panel_ex<S: Copy>(h: &PanelHits<S>, settings: &Settings<S>, people_n: usize, enroll_active: bool, wizard: Option<WizardHits>) -> (a: RadialAction<S>)
    ensures
        a == panel_spec(*h, settings.page, people_n, enroll_active, wizard),
{
    if h.close {
        return if wizard.is_some() { RadialAction::WizardCancel } else { RadialAction::CloseSettings };
    }
    if let Some(w) = wizard {
        return if w.can_next && h.wizard_next {
            RadialAction::WizardAdvance
        } else if w.can_skip && h.wizard_skip {
            RadialAction::WizardSkip
        } else if w.can_add && h.wizard_add {
            RadialAction::WizardAddAnother
        } else {
            RadialAction::Nothing
        };
    }
    if h.tab_look {
        return RadialAction::TabLook;
    }
    if h.tab_people {
        return RadialAction::TabPeople;
    }
    if enroll_active {
        return if h.cancel_enroll { RadialAction::CancelEnroll } else { RadialAction::Nothing };
    }
    if settings.page == SettingsPage::People {
        if let Some(i) = first_person_row(&h.person_rows, people_n) {
            return RadialAction::SelectPerson(i);
        }
        return if h.id_buttons[0] {
            RadialAction::StartEnrollFace
        } else if h.id_buttons[1] {
            RadialAction::StartEnrollVoice
        } else if h.id_buttons[2] {
            RadialAction::StartEnrollHands
        } else if h.new_button {
            RadialAction::OpenWizard
        } else if h.delete_button {
            RadialAction::DeleteSelected
        } else if h.need_face {
            RadialAction::ToggleNeedFace
        } else {
            RadialAction::Nothing
        };
    }
    if h.camera {
        return RadialAction::ToggleCamera;
    }
    if h.gate {
        return RadialAction::CycleGate;
    }
    if let Some(v) = h.listen {
        return RadialAction::SetListenMs(v);
    }
    if let Some(v) = h.gaze {
        return RadialAction::SetGazeMs(v);
    }
    if let Some(v) = h.stroke {
        return RadialAction::SetStroke(v);
    }
    if h.calib {
        return RadialAction::StartGazeCalib;
    }
    RadialAction::Nothing
}

/// A click on the settings panel with no people, no enrolment and no wizard.
pub fn hit_panel<S: Copy>(h: &PanelHits<S>, settings: &Settings<S>) -> (a: RadialAction<S>)
    ensures
        a == panel_spec(*h, settings.page, 0, false, None),
{
    hit_panel_ex(h, settings, 0, false, None)
}

/// What a click in listening mode lands on: the calibration chips, the
/// open panel's targets, and the icon under the pointer (if any).
#[derive(Clone, Copy, Debug)]
pub struct ClickHits<S> {
    pub calib_skip: bool,
    pub calib_cancel: bool,
    pub panel: PanelHits<S>,
    pub icon: Option<IconId>,
}

pub open spec fn icon_action<S>(id: IconId) -> RadialAction<S> {
    match id {
        IconId::Settings => RadialAction::ToggleSettings,
        IconId::Dismiss => RadialAction::Dismiss,
        IconId::Mute => RadialAction::Mute,
        IconId::Info => RadialAction::Info,
    }
}

/// The action of a listening-mode click: during calibration only its two
/// chips answer; an open panel answers next; while an enrolment or a wizard
/// is running the icons are inert.
pub open spec fn click_spec<S>(m: RadialMenu, s: Settings<S>, h: ClickHits<S>, people_n: usize, enroll_active: bool, wizard: Option<WizardHits>) -> RadialAction<S> {
    if m.calib_open {
        if h.calib_skip {
            RadialAction::SkipGazeCalib
        } else if h.calib_cancel {
            RadialAction::CancelGazeCalib
        } else {
            RadialAction::Nothing
        }
    } else {
        let p = if m.settings_open || m.wizard_open {
            panel_spec(h.panel, s.page, people_n, enroll_active, wizard)
        } else {
            RadialAction::Nothing
        };
        if !(p is Nothing) {
            p
        } else if enroll_active || wizard is Some || m.wizard_open {
            RadialAction::Nothing
        } else {
            match h.icon {
                Some(id) => icon_action(id),
                None => RadialAction::Nothing,
            }
        }
    }
}

fn icon_to_action<S>(id: IconId) -> (a: RadialAction<S>)
    ensures
        a == icon_action::<S>(id),
{
    match id {
        IconId::Settings => RadialAction::ToggleSettings,
        IconId::Dismiss => RadialAction::Dismiss,
        IconId::Mute => RadialAction::Mute,
        IconId::Info => RadialAction::Info,
    }
}

/// Handle a click while listening: decide the action, apply it to the menu
/// and settings (calibration chips are left to the caller), and return it.
pub fn click_listening_ex<S: Copy>(
    menu: &mut RadialMenu,
    settings: &mut Settings<S>,
    h: &ClickHits<S>,
    now_ms: u64,
    people_n: usize,
    enroll_active: bool,
    wizard: Option<WizardHits>,
) -> (a: RadialAction<S>)
    requires
        now_ms + FLASH_MS <= u64::MAX,
    ensures
        a == click_spec(*old(menu), *old(settings), *h, people_n, enroll_active, wizard),
        (*final(menu), *final(settings)) == if old(menu).calib_open {
            (*old(menu), *old(settings))
        } else {
            apply_spec(*old(menu), *old(settings), a, now_ms)
        },
{
    if menu.calib_open {
        return if h.calib_skip {
            RadialAction::SkipGazeCalib
        } else if h.calib_cancel {
            RadialAction::CancelGazeCalib
        } else {
            RadialAction::Nothing
        };
    }
    if menu.settings_open || menu.wizard_open {
        let act = hit_panel_ex(&h.panel, settings, people_n, enroll_active, wizard);
        match act {
            RadialAction::Nothing => {},
            _ => {
                apply_action(menu, settings, act, now_ms);
                return act;
            },
        }
    }
    if enroll_active || wizard.is_some() || menu.wizard_open {
        return RadialAction::Nothing;
    }
    match h.icon {
        Some(id) => {
            let act = icon_to_action(id);
            apply_action(menu, settings, act, now_ms);
            act
        },
        None => RadialAction::Nothing,
    }
}

/// The plain listening click: the settings panel (no people, enrolment or
/// wizard), then the icons.
pub open spec fn plain_click_spec<S>(m: RadialMenu, s: Settings<S>, h: ClickHits<S>) -> RadialAction<S> {
    let p = if m.settings_open { panel_spec(h.panel, s.page, 0, false, None) } else { RadialAction::Nothing };
    if !(p is Nothing) {
        p
    } else {
        match h.icon {
            Some(id) => icon_action(id),
            None => RadialAction::Nothing,
        }
    }
}

pub fn click_listening<S: Copy>(menu: &mut RadialMenu, settings: &mut Settings<S>, h: &ClickHits<S>, now_ms: u64) -> (a: RadialAction<S>)
    requires
        now_ms + FLASH_MS <= u64::MAX,
    ensures
        a == plain_click_spec(*old(menu), *old(settings), *h),
        (*final(menu), *final(settings)) == apply_spec(*old(menu), *old(settings), a, now_ms),
{
    if menu.settings_open {
        let act = hit_panel(&h.panel, settings);
        match act {
            RadialAction::Nothing => {},
            _ => {
                apply_action(menu, settings, act, now_ms);
                return act;
            },
        }
    }
    match h.icon {
        Some(id) => {
            let act = icon_to_action(id);
            apply_action(menu, settings, act, now_ms);
            act
        },
        None => RadialAction::Nothing,
    }
}

/// While calibrating, a click answers only with a calibration chip (or
/// nothing); while a wizard runs with no panel showing, a click does
/// nothing; and an action of nothing changes neither menu nor settings.
pub proof fn law_click_modes<S>(m: RadialMenu, s: Settings<S>, h: ClickHits<S>, people_n: usize, enroll_active: bool, wizard: Option<WizardHits>, now_ms: u64)
    ensures
        m.calib_open ==> !(click_spec(m, s, h, people_n, enroll_active, wizard) is Nothing) ==> (
            click_spec(m, s, h, people_n, enroll_active, wizard) is SkipGazeCalib
            || click_spec(m, s, h, people_n, enroll_active, wizard) is CancelGazeCalib),
        !m.calib_open && wizard is Some && !m.settings_open && !m.wizard_open
            ==> click_spec(m, s, h, people_n, enroll_active, wizard) is Nothing,
        apply_spec(m, s, RadialAction::Nothing, now_ms) == (m, s),
{
}

pub open spec fn default_settings<S>(stroke: S) -> Settings<S> {
    Settings {
        listen_ms: 8_000,
        gaze_lock_ms: 8_000,
        camera: true,
        stroke,
        gate: GateMode::Off,
        gestures_need_face: true,
        page: SettingsPage::Look,
        selected_person: 0,
    }
}

/// `1` or `true` in any case (surrounding whitespace ignored).
pub open spec fn yes_word(v: Seq<char>) -> bool {
    trim(v) == "1"@ || lower(trim(v)) == "true"@
}

/// One line of `settings.ini` applied to `s` (the stroke is read by the caller).
pub open spec fn settings_line<S>(s: Settings<S>, line: Seq<char>) -> Settings<S> {
    match entry_of(line) {
        None => s,
        Some((k, v)) => if k == "listen_ms"@ {
            match parse_u32_spec(trim(v)) {
                Some(n) => Settings { listen_ms: n, ..s },
                None => s,
            }
        } else if k == "gaze_lock_ms"@ {
            match parse_u32_spec(trim(v)) {
                Some(n) => Settings { gaze_lock_ms: n, ..s },
                None => s,
            }
        } else if k == "camera"@ {
            Settings { camera: trim(v) == "1"@ || trim(v) == "true"@, ..s }
        } else if k == "gate"@ {
            Settings { gate: gate_of_word(norm(v)), ..s }
        } else if k == "gestures_need_face"@ {
            Settings { gestures_need_face: yes_word(v), ..s }
        } else {
            s
        },
    }
}

/// The first `n` lines applied in order.
pub open spec fn settings_fold<S>(s: Settings<S>, ls: Seq<Seq<char>>, n: int) -> Settings<S>
    decreases n,
{
    if n <= 0 { s } else { settings_line(settings_fold(s, ls, n - 1), ls[n - 1]) }
}

/// The trimmed values of the first `n` lines whose key is `key`, in order.
pub open spec fn values_for(ls: Seq<Seq<char>>, key: Seq<char>, n: int) -> Seq<Seq<char>>
    decreases n,
{
    if n <= 0 {
        Seq::empty()
    } else {
        let prev = values_for(ls, key, n - 1);
        match entry_of(ls[n - 1]) {
            Some((k, v)) => if k == key { prev.push(trim(v)) } else { prev },
            None => prev,
        }
    }
}

pub open spec fn clamp_windows<S>(s: Settings<S>) -> Settings<S> {
    Settings { listen_ms: clamp_ms(s.listen_ms), gaze_lock_ms: clamp_ms(s.gaze_lock_ms), ..s }
}

/// Read `settings.ini` text over the defaults (stroke `default_stroke`),
/// then keep both windows within 2–15 s. The stroke is a float, which this
/// library does not read: the trimmed text of every `stroke=` line comes
/// back, in order, for the caller to apply.
pub fn parse_settings_ini<S: Copy>(txt: &str, default_stroke: S) -> (r: (Settings<S>, Vec<Vec<char>>))
    ensures
        r.0 == clamp_windows(settings_fold(default_settings(default_stroke), lines_of(txt@), lines_of(txt@).len() as int)),
        r.1@.len() == values_for(lines_of(txt@), "stroke"@, lines_of(txt@).len() as int).len(),
        forall|i: int| 0 <= i < r.1@.len() ==> (#[trigger] r.1@[i])@ == values_for(lines_of(txt@), "stroke"@, lines_of(txt@).len() as int)[i],
{
    let ls = ini_lines(txt);
    let ghost lv = lines_of(txt@);
    let mut s = Settings::with_stroke(default_stroke);
    let mut strokes: Vec<Vec<char>> = Vec::new();
    let mut k: usize = 0;
    while k < ls.len()
        invariant
            k <= ls@.len(),
            ls@.len() == lv.len(),
            forall|i: int| 0 <= i < ls@.len() ==> (#[trigger] ls@[i])@ == lv[i],
            s == settings_fold(default_settings(default_stroke), lv, k as int),
            strokes@.len() == values_for(lv, "stroke"@, k as int).len(),
            forall|i: int| 0 <= i < strokes@.len() ==> (#[trigger] strokes@[i])@ == values_for(lv, "stroke"@, k as int)[i],
        decreases ls@.len() - k,
    {
        let line = &ls[k];
        assert(line@ == lv[k as int]);
        let ghost before = strokes@;
        match split_entry(line.as_slice()) {
            None => {},
            Some((key, v)) => {
                let t = trim_chars(&v);
                if eq_str(&key, "listen_ms") {
                    match parse_u32(&t) {
                        Some(n) => {
                            s.listen_ms = n;
                        },
                        None => {},
                    }
                } else if eq_str(&key, "gaze_lock_ms") {
                    match parse_u32(&t) {
                        Some(n) => {
                            s.gaze_lock_ms = n;
                        },
                        None => {},
                    }
                } else if eq_str(&key, "camera") {
                    s.camera = eq_str(&t, "1") || eq_str(&t, "true");
                } else if eq_str(&key, "gate") {
                    let w = string_of(&v);
                    s.gate = GateMode::parse(w.as_str());
                } else if eq_str(&key, "gestures_need_face") {
                    let lt = lower_slice(&t);
                    s.gestures_need_face = eq_str(&t, "1") || eq_str(&lt, "true");
                } else if eq_str(&key, "stroke") {
                    strokes.push(t);
                }
            },
        }
        proof {
            reveal_strlit("listen_ms");
            reveal_strlit("gaze_lock_ms");
            reveal_strlit("camera");
            reveal_strlit("gate");
            reveal_strlit("gestures_need_face");
            reveal_strlit("stroke");
            assert("listen_ms"@[0] != "stroke"@[0]);
            assert("gaze_lock_ms"@[0] != "stroke"@[0]);
            assert("camera"@ != "stroke"@);
            assert("gate"@ != "stroke"@);
            assert("gestures_need_face"@ != "stroke"@);
            assert(strokes@.len() == values_for(lv, "stroke"@, k + 1).len());
            assert forall|i: int| 0 <= i < strokes@.len() implies (#[trigger] strokes@[i])@ == values_for(lv, "stroke"@, k + 1)[i] by {
                if i < before.len() {
                    assert(strokes@[i] == before[i]);
                }
            }
        }
        k = k + 1;
    }
    s.clamp();
    (s, strokes)
}


/// The "gestures need a face" and camera toggles each flip their one setting
/// and touch nothing else, menu included; a second click restores the
/// settings as they were.
pub proof fn law_setting_toggles_flip<S>(m: RadialMenu, s: Settings<S>, t1: u64, t2: u64)
    ensures
        apply_spec(m, s, RadialAction::ToggleNeedFace, t1).1.gestures_need_face != s.gestures_need_face,
        (Settings { gestures_need_face: s.gestures_need_face, ..apply_spec(m, s, RadialAction::ToggleNeedFace, t1).1 }) == s,
        apply_spec(m, s, RadialAction::ToggleNeedFace, t1).0 == m,
        ({
            let (m1, s1) = apply_spec(m, s, RadialAction::ToggleNeedFace, t1);
            apply_spec(m1, s1, RadialAction::ToggleNeedFace, t2) == (m, s)
        }),
        apply_spec(m, s, RadialAction::ToggleCamera, t1).1.camera != s.camera,
        (Settings { camera: s.camera, ..apply_spec(m, s, RadialAction::ToggleCamera, t1).1 }) == s,
        apply_spec(m, s, RadialAction::ToggleCamera, t1).0 == m,
        ({
            let (m1, s1) = apply_spec(m, s, RadialAction::ToggleCamera, t1);
            apply_spec(m1, s1, RadialAction::ToggleCamera, t2) == (m, s)
        }),
{
}

/// In `settings.ini` the last `camera=` line decides the camera: on exactly
/// when its trimmed value is `1` or `true`; with no such line the setting
/// read so far stays. So the `camera=1` / `camera=0` the overlay writes reads
/// back as the same switch.
pub proof fn law_camera_line_decides<S>(s: Settings<S>, ls: Seq<Seq<char>>, n: int)
    requires
        0 <= n <= ls.len(),
    ensures
        settings_fold(s, ls, n).camera == if values_for(ls, "camera"@, n).len() == 0 {
            s.camera
        } else {
            values_for(ls, "camera"@, n).last() == "1"@ || values_for(ls, "camera"@, n).last() == "true"@
        },
    decreases n,
{
    if n > 0 {
        law_camera_line_decides(s, ls, n - 1);
        reveal_strlit("listen_ms");
        reveal_strlit("gaze_lock_ms");
        reveal_strlit("camera");
        reveal_strlit("gate");
        reveal_strlit("gestures_need_face");
        assert("camera"@[0] != "listen_ms"@[0]);
        assert("camera"@[0] != "gaze_lock_ms"@[0]);
        assert("camera"@ != "gate"@);
        assert("camera"@ != "gestures_need_face"@);
    }
}

/// Likewise the last `gestures_need_face=` line decides that setting: on
/// exactly when its trimmed value is `1` or, in any case, `true`.
pub proof fn law_need_face_line_decides<S>(s: Settings<S>, ls: Seq<Seq<char>>, n: int)
    requires
        0 <= n <= ls.len(),
    ensures
        settings_fold(s, ls, n).gestures_need_face == if values_for(ls, "gestures_need_face"@, n).len() == 0 {
            s.gestures_need_face
        } else {
            values_for(ls, "gestures_need_face"@, n).last() == "1"@
                || lower(values_for(ls, "gestures_need_face"@, n).last()) == "true"@
        },
    decreases n,
{
    if n > 0 {
        law_need_face_line_decides(s, ls, n - 1);
        reveal_strlit("listen_ms");
        reveal_strlit("gaze_lock_ms");
        reveal_strlit("camera");
        reveal_strlit("gate");
        reveal_strlit("gestures_need_face");
        assert("gestures_need_face"@[0] != "listen_ms"@[0]);
        assert("gestures_need_face"@[1] != "gaze_lock_ms"@[1]);
        assert("gestures_need_face"@[0] != "camera"@[0]);
        assert("gestures_need_face"@ != "gate"@);
    }
}

/// The same for the whole file as `parse_settings_ini` reads it (over the
/// defaults, camera on): `camera=1` read last gives camera on, and any other
/// last value gives camera off.
pub proof fn law_saved_camera_reads_back<S>(txt: Seq<char>, stroke: S)
    ensures
        ({
            let ls = lines_of(txt);
            let vs = values_for(ls, "camera"@, ls.len() as int);
            let got = clamp_windows(settings_fold(default_settings(stroke), ls, ls.len() as int)).camera;
            &&& vs.len() == 0 ==> got
            &&& vs.len() > 0 && vs.last() == "1"@ ==> got
            &&& vs.len() > 0 && vs.last() != "1"@ && vs.last() != "true"@ ==> !got
        }),
{
    let ls = lines_of(txt);
    law_camera_line_decides(default_settings(stroke), ls, ls.len() as int);
}


/// The mute icon flips muting and leaves the settings alone; two clicks
/// restore it. The Look and People tabs show their page whatever was shown.
pub proof fn law_mute_and_tabs<S>(m: RadialMenu, s: Settings<S>, t1: u64, t2: u64)
    ensures
        apply_spec(m, s, RadialAction::Mute, t1).0.muted != m.muted,
        apply_spec(m, s, RadialAction::Mute, t1).1 == s,
        ({
            let (m1, s1) = apply_spec(m, s, RadialAction::Mute, t1);
            apply_spec(m1, s1, RadialAction::Mute, t2).0.muted == m.muted
        }),
        apply_spec(m, s, RadialAction::TabLook, t1) == (m, Settings { page: SettingsPage::Look, ..s }),
        apply_spec(m, s, RadialAction::TabPeople, t1) == (m, Settings { page: SettingsPage::People, ..s }),
{
}

} // verus!
