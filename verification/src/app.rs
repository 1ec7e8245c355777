//! The interface state and its reaction to key presses.
use vstd::prelude::*;

use crate::state::SystemState;
use crate::tabs::{tab_for_number, tab_next, tab_prev, Tab};
use crate::text::{
    chars_of, is_ascii_hexdigit, is_hex_digit, str_eq, substring, utf8_len, utf8_len_up_to,
};

verus! {

/// How key presses are read at the moment.
#[derive(Debug, Clone, Copy, PartialEq, Eq, Structural)]
pub enum InputMode {
    Normal,
    Editing,
    Confirm,
}

/// A key, as far as the interface tells keys apart.
#[derive(Debug, Clone, Copy, PartialEq, Eq, Structural)]
pub enum KeyCode {
    Char(char),
    Tab,
    BackTab,
    Up,
    Down,
    Left,
    Right,
    Enter,
    Esc,
    Backspace,
    /// Any other key.
    Other,
}

/// A key press.
#[derive(Debug, Clone, Copy, PartialEq, Eq, Structural)]
pub struct KeyEvent {
    pub code: KeyCode,
    /// Whether Control was held.
    pub ctrl: bool,
}

/// A change the user asked for, carried out by the backend.
#[derive(Debug, Clone)]
pub enum AppAction {
    SetProfile(String),
    SetPptApu(u32),
    SetPptPlatform(u32),
    AdjustFanPoint { fan: usize, point: usize, pwm_delta: i32, temp_delta: i32 },
    ApplyFanCurve,
    ResetFanCurve,
    SetAuraEffect(String),
    SetAuraColor(String),
    SetGpuMode(String),
    SetChargeLimit(u32),
    BatteryOneShot,
    ToggleBootSound,
    TogglePanelOd,
    CycleKbBrightness,
}

/// The plain value of an [`AppAction`].
pub enum ActionView {
    SetProfile(Seq<char>),
    SetPptApu(u32),
    SetPptPlatform(u32),
    AdjustFanPoint { fan: usize, point: usize, pwm_delta: i32, temp_delta: i32 },
    ApplyFanCurve,
    ResetFanCurve,
    SetAuraEffect(Seq<char>),
    SetAuraColor(Seq<char>),
    SetGpuMode(Seq<char>),
    SetChargeLimit(u32),
    BatteryOneShot,
    ToggleBootSound,
    TogglePanelOd,
    CycleKbBrightness,
}

impl View for AppAction {
    type V = ActionView;

    open spec fn view(&self) -> ActionView {
        match self {
            AppAction::SetProfile(p) => ActionView::SetProfile(p@),
            AppAction::SetPptApu(v) => ActionView::SetPptApu(*v),
            AppAction::SetPptPlatform(v) => ActionView::SetPptPlatform(*v),
            AppAction::AdjustFanPoint { fan, point, pwm_delta, temp_delta } => ActionView::AdjustFanPoint {
                fan: *fan,
                point: *point,
                pwm_delta: *pwm_delta,
                temp_delta: *temp_delta,
            },
            AppAction::ApplyFanCurve => ActionView::ApplyFanCurve,
            AppAction::ResetFanCurve => ActionView::ResetFanCurve,
            AppAction::SetAuraEffect(e) => ActionView::SetAuraEffect(e@),
            AppAction::SetAuraColor(c) => ActionView::SetAuraColor(c@),
            AppAction::SetGpuMode(m) => ActionView::SetGpuMode(m@),
            AppAction::SetChargeLimit(l) => ActionView::SetChargeLimit(*l),
            AppAction::BatteryOneShot => ActionView::BatteryOneShot,
            AppAction::ToggleBootSound => ActionView::ToggleBootSound,
            AppAction::TogglePanelOd => ActionView::TogglePanelOd,
            AppAction::CycleKbBrightness => ActionView::CycleKbBrightness,
        }
    }
}

/// The plain value of an optional action.
pub open spec fn action_view(a: Option<AppAction>) -> Option<ActionView> {
    match a {
        Some(x) => Some(x@),
        None => None,
    }
}

/// The interface: which tab is shown, what is selected in each tab, and the
/// machine state it shows.
pub struct App {
    pub running: bool,
    pub tab: Tab,
    pub state: SystemState,
    pub input_mode: InputMode,
    pub status_msg: Option<String>,
    pub show_help: bool,
    /// Performance tab: 0 the profile list, 1 the APU slider, 2 the platform slider.
    pub perf_selected: usize,
    /// Fans tab: 0 the CPU fan, 1 the GPU fan.
    pub fan_selected_fan: usize,
    pub fan_selected_point: usize,
    pub fan_editing: bool,
    pub aura_selected: usize,
    pub aura_color_input: String,
    pub aura_editing_color: bool,
    pub gpu_selected: usize,
    pub gpu_confirm: bool,
    pub bat_selected: usize,
    /// Timer ticks seen, for refresh scheduling.
    pub tick_count: u64,
}

/// The plain value of an [`App`], without the machine state.
pub struct AppView {
    pub running: bool,
    pub tab: Tab,
    pub input_mode: InputMode,
    pub status_msg: Option<Seq<char>>,
    pub show_help: bool,
    pub perf_selected: usize,
    pub fan_selected_fan: usize,
    pub fan_selected_point: usize,
    pub fan_editing: bool,
    pub aura_selected: usize,
    pub aura_color_input: Seq<char>,
    pub aura_editing_color: bool,
    pub gpu_selected: usize,
    pub gpu_confirm: bool,
    pub bat_selected: usize,
    pub tick_count: u64,
}

impl View for App {
    type V = AppView;

    open spec fn view(&self) -> AppView {
        AppView {
            running: self.running,
            tab: self.tab,
            input_mode: self.input_mode,
            status_msg: match self.status_msg {
                Some(m) => Some(m@),
                None => None,
            },
            show_help: self.show_help,
            perf_selected: self.perf_selected,
            fan_selected_fan: self.fan_selected_fan,
            fan_selected_point: self.fan_selected_point,
            fan_editing: self.fan_editing,
            aura_selected: self.aura_selected,
            aura_color_input: self.aura_color_input@,
            aura_editing_color: self.aura_editing_color,
            gpu_selected: self.gpu_selected,
            gpu_confirm: self.gpu_confirm,
            bat_selected: self.bat_selected,
            tick_count: self.tick_count,
        }
    }
}

// ---------------------------------------------------------------------------
// Specification of the key handling
// ---------------------------------------------------------------------------

pub open spec fn is_up(k: KeyCode) -> bool {
    k == KeyCode::Up || k == KeyCode::Char('k')
}

pub open spec fn is_down(k: KeyCode) -> bool {
    k == KeyCode::Down || k == KeyCode::Char('j')
}

pub open spec fn is_left(k: KeyCode) -> bool {
    k == KeyCode::Left || k == KeyCode::Char('h')
}

pub open spec fn is_right(k: KeyCode) -> bool {
    k == KeyCode::Right || k == KeyCode::Char('l')
}

/// `x - 1`, but not below 0.
pub open spec fn dec_sat(x: usize) -> usize {
    if x == 0 {
        0
    } else {
        (x - 1) as usize
    }
}

pub open spec fn clamp(x: int, lo: int, hi: int) -> int {
    if x < lo {
        lo
    } else if x > hi {
        hi
    } else {
        x
    }
}

/// A `u32` read as an `i32` (`x as i32`).
pub open spec fn as_i32(x: u32) -> int {
    if x <= i32::MAX {
        x as int
    } else {
        x - 0x1_0000_0000
    }
}

/// `n` wrapped into the range of `i32`, as release builds compute `i32`
/// sums (`n` is at most one wrap away).
pub open spec fn wrap_i32(n: int) -> int {
    if n > i32::MAX {
        n - 0x1_0000_0000
    } else if n < i32::MIN {
        n + 0x1_0000_0000
    } else {
        n
    }
}

/// The power profiles in the order the selector steps through them.
pub open spec fn profile_names() -> Seq<Seq<char>> {
    seq!["Quiet"@, "Balanced"@, "Performance"@]
}

/// Position of `p` among the profiles, 0 when it is none of them.
pub open spec fn profile_index(p: Seq<char>) -> int {
    if p == "Quiet"@ {
        0
    } else if p == "Balanced"@ {
        1
    } else if p == "Performance"@ {
        2
    } else {
        0
    }
}

/// The keyboard lighting effects in list order.
pub open spec fn effect_names() -> Seq<Seq<char>> {
    seq![
        "static"@,
        "breathe"@,
        "rainbow-cycle"@,
        "rainbow-wave"@,
        "stars"@,
        "rain"@,
        "highlight"@,
        "laser"@,
        "ripple"@,
        "pulse"@,
        "comet"@,
        "flash"@,
    ]
}

/// The GPU modes in list order.
pub open spec fn gpu_modes() -> Seq<Seq<char>> {
    seq!["Integrated"@, "Hybrid"@, "AsusMuxDgpu"@]
}

/// What left (`delta` -1) or right (+1) asks for on the performance tab:
/// the neighbouring profile, or a power limit moved by 5 W and kept within
/// 15-80 W (APU) or 30-115 W (platform).
pub open spec fn perf_adjust_action(app: App, delta: int) -> Option<ActionView> {
    if app.perf_selected == 0 {
        let cur = profile_index(app.state.profile@);
        Some(ActionView::SetProfile(profile_names()[clamp(cur + delta, 0, 2)]))
    } else if app.perf_selected == 1 {
        Some(
            ActionView::SetPptApu(
                clamp(wrap_i32(as_i32(app.state.ppt_apu) + delta * 5), 15, 80) as u32,
            ),
        )
    } else if app.perf_selected == 2 {
        Some(
            ActionView::SetPptPlatform(
                clamp(wrap_i32(as_i32(app.state.ppt_platform) + delta * 5), 30, 115) as u32,
            ),
        )
    } else {
        None
    }
}

/// What Enter asks for on the performance tab: applying the current value.
pub open spec fn perf_apply_action(app: App) -> Option<ActionView> {
    if app.perf_selected == 0 {
        Some(ActionView::SetProfile(app.state.profile@))
    } else if app.perf_selected == 1 {
        Some(ActionView::SetPptApu(app.state.ppt_apu))
    } else if app.perf_selected == 2 {
        Some(ActionView::SetPptPlatform(app.state.ppt_platform))
    } else {
        None
    }
}

pub open spec fn perf_step(app: App, key: KeyEvent) -> (AppView, Option<ActionView>) {
    let u = app@;
    let k = key.code;
    if is_up(k) {
        (AppView { perf_selected: dec_sat(u.perf_selected), ..u }, None)
    } else if is_down(k) {
        (
            AppView {
                perf_selected: if u.perf_selected < 2 {
                    (u.perf_selected + 1) as usize
                } else {
                    u.perf_selected
                },
                ..u
            },
            None,
        )
    } else if is_left(k) {
        (u, perf_adjust_action(app, -1))
    } else if is_right(k) {
        (u, perf_adjust_action(app, 1))
    } else if k == KeyCode::Enter {
        (u, perf_apply_action(app))
    } else {
        (u, None)
    }
}

pub open spec fn fan_step(u: AppView, key: KeyEvent) -> (AppView, Option<ActionView>) {
    let k = key.code;
    if k == KeyCode::Tab {
        (
            AppView {
                fan_selected_fan: if u.fan_selected_fan <= 1 {
                    (1 - u.fan_selected_fan) as usize
                } else {
                    (usize::MAX - u.fan_selected_fan + 2) as usize
                },
                ..u
            },
            None,
        )
    } else if is_left(k) {
        (AppView { fan_selected_point: dec_sat(u.fan_selected_point), ..u }, None)
    } else if is_right(k) {
        (
            AppView {
                fan_selected_point: if u.fan_selected_point < 7 {
                    (u.fan_selected_point + 1) as usize
                } else {
                    u.fan_selected_point
                },
                ..u
            },
            None,
        )
    } else if k == KeyCode::Enter || k == KeyCode::Char('e') {
        (AppView { fan_editing: true, input_mode: InputMode::Editing, ..u }, None)
    } else if k == KeyCode::Char('d') {
        (u, Some(ActionView::ResetFanCurve))
    } else {
        (u, None)
    }
}

pub open spec fn adjust(u: AppView, pwm_delta: i32, temp_delta: i32) -> Option<ActionView> {
    Some(
        ActionView::AdjustFanPoint {
            fan: u.fan_selected_fan,
            point: u.fan_selected_point,
            pwm_delta,
            temp_delta,
        },
    )
}

pub open spec fn fan_editing_step(u: AppView, key: KeyEvent) -> (AppView, Option<ActionView>) {
    let k = key.code;
    if is_up(k) {
        (u, adjust(u, 5, 0))
    } else if is_down(k) {
        (u, adjust(u, -5i32, 0))
    } else if is_right(k) {
        (u, adjust(u, 0, 2))
    } else if is_left(k) {
        (u, adjust(u, 0, -2i32))
    } else if k == KeyCode::Esc {
        (AppView { fan_editing: false, input_mode: InputMode::Normal, ..u }, None)
    } else if k == KeyCode::Enter {
        (
            AppView { fan_editing: false, input_mode: InputMode::Normal, ..u },
            Some(ActionView::ApplyFanCurve),
        )
    } else {
        (u, None)
    }
}

pub open spec fn aura_step(u: AppView, key: KeyEvent) -> (AppView, Option<ActionView>) {
    let k = key.code;
    if is_up(k) {
        (AppView { aura_selected: dec_sat(u.aura_selected), ..u }, None)
    } else if is_down(k) {
        (
            AppView {
                aura_selected: if u.aura_selected < usize::MAX {
                    (u.aura_selected + 1) as usize
                } else {
                    0
                },
                ..u
            },
            None,
        )
    } else if k == KeyCode::Enter {
        if u.aura_selected < 12 {
            (u, Some(ActionView::SetAuraEffect(effect_names()[u.aura_selected as int])))
        } else {
            (u, None)
        }
    } else if k == KeyCode::Char('c') {
        (
            AppView {
                aura_editing_color: true,
                aura_color_input: Seq::empty(),
                input_mode: InputMode::Editing,
                ..u
            },
            None,
        )
    } else {
        (u, None)
    }
}

/// Typing a colour: up to six bytes of hex digits; Enter hands over a
/// complete colour, Esc abandons it.
pub open spec fn color_input_step(u: AppView, key: KeyEvent) -> (AppView, Option<ActionView>) {
    let k = key.code;
    if k is Char && is_hex_digit(k->Char_0) && utf8_len(u.aura_color_input) < 6 {
        (AppView { aura_color_input: u.aura_color_input.push(k->Char_0), ..u }, None)
    } else if k == KeyCode::Backspace {
        (
            AppView {
                aura_color_input: if u.aura_color_input.len() > 0 {
                    u.aura_color_input.drop_last()
                } else {
                    u.aura_color_input
                },
                ..u
            },
            None,
        )
    } else if k == KeyCode::Enter {
        (
            AppView { aura_editing_color: false, input_mode: InputMode::Normal, ..u },
            if utf8_len(u.aura_color_input) == 6 {
                Some(ActionView::SetAuraColor(u.aura_color_input))
            } else {
                None
            },
        )
    } else if k == KeyCode::Esc {
        (AppView { aura_editing_color: false, input_mode: InputMode::Normal, ..u }, None)
    } else {
        (u, None)
    }
}

/// Enter on the GPU tab: switching to or from the MUX mode asks for
/// confirmation first; other switches are asked for at once.
pub open spec fn gpu_step(app: App, key: KeyEvent) -> (AppView, Option<ActionView>) {
    let u = app@;
    let k = key.code;
    if is_up(k) {
        (AppView { gpu_selected: dec_sat(u.gpu_selected), ..u }, None)
    } else if is_down(k) {
        (
            AppView {
                gpu_selected: if u.gpu_selected < 2 {
                    (u.gpu_selected + 1) as usize
                } else {
                    u.gpu_selected
                },
                ..u
            },
            None,
        )
    } else if k == KeyCode::Enter {
        let target = gpu_modes()[u.gpu_selected as int];
        if target == "AsusMuxDgpu"@ || app.state.gpu_mode@ == "AsusMuxDgpu"@ {
            (AppView { gpu_confirm: true, input_mode: InputMode::Confirm, ..u }, None)
        } else {
            (u, Some(ActionView::SetGpuMode(target)))
        }
    } else {
        (u, None)
    }
}

pub open spec fn gpu_confirm_step(u: AppView, key: KeyEvent) -> (AppView, Option<ActionView>) {
    let k = key.code;
    if k == KeyCode::Char('y') || k == KeyCode::Char('Y') {
        (
            AppView { gpu_confirm: false, input_mode: InputMode::Normal, ..u },
            Some(ActionView::SetGpuMode(gpu_modes()[u.gpu_selected as int])),
        )
    } else if k == KeyCode::Char('n') || k == KeyCode::Char('N') || k == KeyCode::Esc {
        (AppView { gpu_confirm: false, input_mode: InputMode::Normal, ..u }, None)
    } else {
        (u, None)
    }
}

/// `x + 5` in `u32` as release builds compute it (wrapping).
pub open spec fn add5_wrapping(x: u32) -> u32 {
    if x <= u32::MAX - 5 {
        (x + 5) as u32
    } else {
        (x + 5 - 0x1_0000_0000) as u32
    }
}

/// The battery tab: left and right move the charge limit by 5 within
/// 20-100 %, Enter carries out the selected item.
pub open spec fn bat_step(app: App, key: KeyEvent) -> (AppView, Option<ActionView>) {
    let u = app@;
    let k = key.code;
    let limit = app.state.charge_limit;
    if is_up(k) {
        (AppView { bat_selected: dec_sat(u.bat_selected), ..u }, None)
    } else if is_down(k) {
        (
            AppView {
                bat_selected: if u.bat_selected < 4 {
                    (u.bat_selected + 1) as usize
                } else {
                    u.bat_selected
                },
                ..u
            },
            None,
        )
    } else if is_left(k) {
        (
            u,
            if u.bat_selected == 0 {
                Some(
                    ActionView::SetChargeLimit(
                        if limit >= 25 {
                            (limit - 5) as u32
                        } else {
                            20
                        },
                    ),
                )
            } else {
                None
            },
        )
    } else if is_right(k) {
        (
            u,
            if u.bat_selected == 0 {
                Some(
                    ActionView::SetChargeLimit(
                        if add5_wrapping(limit) <= 100 {
                            add5_wrapping(limit)
                        } else {
                            100
                        },
                    ),
                )
            } else {
                None
            },
        )
    } else if k == KeyCode::Enter {
        (
            u,
            if u.bat_selected == 0 {
                Some(ActionView::SetChargeLimit(limit))
            } else if u.bat_selected == 1 {
                Some(ActionView::BatteryOneShot)
            } else if u.bat_selected == 2 {
                Some(ActionView::ToggleBootSound)
            } else if u.bat_selected == 3 {
                Some(ActionView::TogglePanelOd)
            } else if u.bat_selected == 4 {
                Some(ActionView::CycleKbBrightness)
            } else {
                None
            },
        )
    } else {
        (u, None)
    }
}

/// Keys of the current tab.
pub open spec fn tab_step(app: App, key: KeyEvent) -> (AppView, Option<ActionView>) {
    match app.tab {
        Tab::Overview => (app@, None),
        Tab::Performance => perf_step(app, key),
        Tab::Fans => fan_step(app@, key),
        Tab::Aura => aura_step(app@, key),
        Tab::Gpu => gpu_step(app, key),
        Tab::Battery => bat_step(app, key),
    }
}

/// Whether the key is a tab number `1`-`6`.
pub open spec fn is_tab_digit(k: KeyCode) -> bool {
    k is Char && '1' <= k->Char_0 <= '6'
}

/// Keys that work everywhere when no dialog or editor is open: `q` quits,
/// Ctrl+C quits, `?` opens the help, Tab and Shift+Tab change tab, `1`-`6`
/// jump to a tab. Others go to the current tab.
pub open spec fn normal_step(app: App, key: KeyEvent) -> (AppView, Option<ActionView>) {
    let u = app@;
    let k = key.code;
    if k == KeyCode::Char('q') || k == KeyCode::Char('Q') {
        (AppView { running: false, ..u }, None)
    } else if k == KeyCode::Char('c') && key.ctrl {
        (AppView { running: false, ..u }, None)
    } else if k == KeyCode::Char('?') {
        (AppView { show_help: true, ..u }, None)
    } else if k == KeyCode::Tab {
        (AppView { tab: tab_next(u.tab), input_mode: InputMode::Normal, ..u }, None)
    } else if k == KeyCode::BackTab {
        (AppView { tab: tab_prev(u.tab), input_mode: InputMode::Normal, ..u }, None)
    } else if is_tab_digit(k) {
        (
            AppView {
                tab: tab_for_number((k->Char_0 as u32 - '0' as u32) as u8).unwrap(),
                input_mode: InputMode::Normal,
                ..u
            },
            None,
        )
    } else {
        tab_step(app, key)
    }
}

/// What a key press does: the help overlay closes on any key; otherwise an
/// open GPU confirmation, colour editor or fan point editor takes the key;
/// otherwise the global keys and then the current tab.
pub open spec fn key_step(app: App, key: KeyEvent) -> (AppView, Option<ActionView>) {
    let u = app@;
    if u.show_help {
        (AppView { show_help: false, ..u }, None)
    } else if u.gpu_confirm {
        gpu_confirm_step(u, key)
    } else if u.aura_editing_color {
        color_input_step(u, key)
    } else if u.fan_editing {
        fan_editing_step(u, key)
    } else {
        normal_step(app, key)
    }
}

/// The key reaches code that picks a GPU mode by `gpu_selected`.
pub open spec fn picks_gpu_mode(app: App, key: KeyEvent) -> bool {
    let k = key.code;
    !app.show_help && if app.gpu_confirm {
        k == KeyCode::Char('y') || k == KeyCode::Char('Y')
    } else {
        !app.aura_editing_color && !app.fan_editing && app.tab == Tab::Gpu && k == KeyCode::Enter
    }
}

// ---------------------------------------------------------------------------
// Implementation
// ---------------------------------------------------------------------------

fn key_is_up(k: KeyCode) -> (b: bool)
    ensures
        b == is_up(k),
{
    k == KeyCode::Up || k == KeyCode::Char('k')
}

fn key_is_down(k: KeyCode) -> (b: bool)
    ensures
        b == is_down(k),
{
    k == KeyCode::Down || k == KeyCode::Char('j')
}

fn key_is_left(k: KeyCode) -> (b: bool)
    ensures
        b == is_left(k),
{
    k == KeyCode::Left || k == KeyCode::Char('h')
}

fn key_is_right(k: KeyCode) -> (b: bool)
    ensures
        b == is_right(k),
{
    k == KeyCode::Right || k == KeyCode::Char('l')
}

pub(crate) fn clamp_i64(x: i64, lo: i64, hi: i64) -> (r: i64)
    requires
        lo <= hi,
    ensures
        r == clamp(x as int, lo as int, hi as int),
{
    if x < lo {
        lo
    } else if x > hi {
        hi
    } else {
        x
    }
}

/// `as_i32(x) + d`, wrapped into `i32`.
pub(crate) fn wrapped_sum(x: u32, d: i64) -> (r: i64)
    requires
        i32::MIN <= d <= i32::MAX,
    ensures
        r == wrap_i32(as_i32(x) + d),
{
    let base: i64 = if x <= 2147483647 {
        x as i64
    } else {
        x as i64 - 4294967296
    };
    let s = base + d;
    if s > 2147483647 {
        s - 4294967296
    } else if s < -2147483648 {
        s + 4294967296
    } else {
        s
    }
}

impl App {
    /// A fresh interface on the Overview tab, nothing selected, the machine
    /// state empty.
    pub fn new() -> (r: App)
        ensures
            r@ == (AppView {
                running: true,
                tab: Tab::Overview,
                input_mode: InputMode::Normal,
                status_msg: None,
                show_help: false,
                perf_selected: 0,
                fan_selected_fan: 0,
                fan_selected_point: 0,
                fan_editing: false,
                aura_selected: 0,
                aura_color_input: Seq::empty(),
                aura_editing_color: false,
                gpu_selected: 0,
                gpu_confirm: false,
                bat_selected: 0,
                tick_count: 0,
            }),
            r.state@ == crate::state::empty_state(),
    {
        App {
            running: true,
            tab: Tab::Overview,
            state: SystemState::default(),
            input_mode: InputMode::Normal,
            status_msg: None,
            show_help: false,
            perf_selected: 0,
            fan_selected_fan: 0,
            fan_selected_point: 0,
            fan_editing: false,
            aura_selected: 0,
            aura_color_input: String::new(),
            aura_editing_color: false,
            gpu_selected: 0,
            gpu_confirm: false,
            bat_selected: 0,
            tick_count: 0,
        }
    }

    /// Shows `msg` in the status line.
    pub fn set_status(&mut self, msg: String)
        ensures
            final(self)@ == (AppView { status_msg: Some(msg@), ..old(self)@ }),
            final(self).state == old(self).state,
    {
        self.status_msg = Some(msg);
    }

    /// Clears the status line.
    pub fn clear_status(&mut self)
        ensures
            final(self)@ == (AppView { status_msg: None, ..old(self)@ }),
            final(self).state == old(self).state,
    {
        self.status_msg = None;
    }

    /// The action that Left (`-1`) or Right (`1`) asks for on the performance tab.
    pub fn perf_adjust(&self, delta: i64) -> (r: Option<AppAction>)
        requires
            delta == 1 || delta == -1,
        ensures
            action_view(r) == perf_adjust_action(*self, delta as int),
    {
        if self.perf_selected == 0 {
            let cur: i64 = if str_eq(self.state.profile.as_str(), "Quiet") {
                0
            } else if str_eq(self.state.profile.as_str(), "Balanced") {
                1
            } else if str_eq(self.state.profile.as_str(), "Performance") {
                2
            } else {
                0
            };
            let next = clamp_i64(cur + delta, 0, 2);
            let names: [&str; 3] = ["Quiet", "Balanced", "Performance"];
            assert(forall|i: int| 0 <= i < 3 ==> (#[trigger] names@[i])@ == profile_names()[i]);
            Some(AppAction::SetProfile(names[next as usize].to_owned()))
        } else if self.perf_selected == 1 {
            let v = clamp_i64(wrapped_sum(self.state.ppt_apu, delta * 5), 15, 80);
            Some(AppAction::SetPptApu(v as u32))
        } else if self.perf_selected == 2 {
            let v = clamp_i64(wrapped_sum(self.state.ppt_platform, delta * 5), 30, 115);
            Some(AppAction::SetPptPlatform(v as u32))
        } else {
            None
        }
    }

    /// The action that Enter asks for on the performance tab.
    pub fn perf_apply(&self) -> (r: Option<AppAction>)
        ensures
            action_view(r) == perf_apply_action(*self),
    {
        if self.perf_selected == 0 {
            Some(AppAction::SetProfile(self.state.profile.clone()))
        } else if self.perf_selected == 1 {
            Some(AppAction::SetPptApu(self.state.ppt_apu))
        } else if self.perf_selected == 2 {
            Some(AppAction::SetPptPlatform(self.state.ppt_platform))
        } else {
            None
        }
    }

    /// A key on the performance tab.
    pub fn handle_perf_key(&mut self, key: KeyEvent) -> (r: Option<AppAction>)
        ensures
            final(self)@ == perf_step(*old(self), key).0,
            action_view(r) == perf_step(*old(self), key).1,
            final(self).state == old(self).state,
    {
        let k = key.code;
        if key_is_up(k) {
            self.perf_selected = self.perf_selected.saturating_sub(1);
        } else if key_is_down(k) {
            if self.perf_selected < 2 {
                self.perf_selected = self.perf_selected + 1;
            }
        } else if key_is_left(k) {
            return self.perf_adjust(-1);
        } else if key_is_right(k) {
            return self.perf_adjust(1);
        } else if k == KeyCode::Enter {
            return self.perf_apply();
        }
        None
    }

    /// A key on the fans tab while no point is being edited.
    pub fn handle_fan_key(&mut self, key: KeyEvent) -> (r: Option<AppAction>)
        ensures
            final(self)@ == fan_step(old(self)@, key).0,
            action_view(r) == fan_step(old(self)@, key).1,
            final(self).state == old(self).state,
    {
        let k = key.code;
        if k == KeyCode::Tab {
            self.fan_selected_fan = if self.fan_selected_fan <= 1 {
                1 - self.fan_selected_fan
            } else {
                usize::MAX - self.fan_selected_fan + 2
            };
        } else if key_is_left(k) {
            self.fan_selected_point = self.fan_selected_point.saturating_sub(1);
        } else if key_is_right(k) {
            if self.fan_selected_point < 7 {
                self.fan_selected_point = self.fan_selected_point + 1;
            }
        } else if k == KeyCode::Enter || k == KeyCode::Char('e') {
            self.fan_editing = true;
            self.input_mode = InputMode::Editing;
        } else if k == KeyCode::Char('d') {
            return Some(AppAction::ResetFanCurve);
        }
        None
    }

    /// A key while a fan curve point is being edited.
    pub fn handle_fan_editing(&mut self, key: KeyEvent) -> (r: Option<AppAction>)
        ensures
            final(self)@ == fan_editing_step(old(self)@, key).0,
            action_view(r) == fan_editing_step(old(self)@, key).1,
            final(self).state == old(self).state,
    {
        let k = key.code;
        let fan = self.fan_selected_fan;
        let point = self.fan_selected_point;
        if key_is_up(k) {
            Some(AppAction::AdjustFanPoint { fan, point, pwm_delta: 5, temp_delta: 0 })
        } else if key_is_down(k) {
            Some(AppAction::AdjustFanPoint { fan, point, pwm_delta: -5, temp_delta: 0 })
        } else if key_is_right(k) {
            Some(AppAction::AdjustFanPoint { fan, point, pwm_delta: 0, temp_delta: 2 })
        } else if key_is_left(k) {
            Some(AppAction::AdjustFanPoint { fan, point, pwm_delta: 0, temp_delta: -2 })
        } else if k == KeyCode::Esc {
            self.fan_editing = false;
            self.input_mode = InputMode::Normal;
            None
        } else if k == KeyCode::Enter {
            self.fan_editing = false;
            self.input_mode = InputMode::Normal;
            Some(AppAction::ApplyFanCurve)
        } else {
            None
        }
    }

    /// A key on the Aura tab while no colour is being typed.
    pub fn handle_aura_key(&mut self, key: KeyEvent) -> (r: Option<AppAction>)
        ensures
            final(self)@ == aura_step(old(self)@, key).0,
            action_view(r) == aura_step(old(self)@, key).1,
            final(self).state == old(self).state,
    {
        let k = key.code;
        if key_is_up(k) {
            self.aura_selected = self.aura_selected.saturating_sub(1);
        } else if key_is_down(k) {
            self.aura_selected = if self.aura_selected < usize::MAX {
                self.aura_selected + 1
            } else {
                0
            };
        } else if k == KeyCode::Enter {
            let effects: [&str; 12] = [
                "static",
                "breathe",
                "rainbow-cycle",
                "rainbow-wave",
                "stars",
                "rain",
                "highlight",
                "laser",
                "ripple",
                "pulse",
                "comet",
                "flash",
            ];
            assert(forall|i: int| 0 <= i < 12 ==> (#[trigger] effects@[i])@ == effect_names()[i]);
            if self.aura_selected < 12 {
                return Some(AppAction::SetAuraEffect(effects[self.aura_selected].to_owned()));
            }
        } else if k == KeyCode::Char('c') {
            self.aura_editing_color = true;
            self.aura_color_input = String::new();
            self.input_mode = InputMode::Editing;
        }
        None
    }

    /// A key while a colour is being typed.
    pub fn handle_aura_color_input(&mut self, key: KeyEvent) -> (r: Option<AppAction>)
        ensures
            final(self)@ == color_input_step(old(self)@, key).0,
            action_view(r) == color_input_step(old(self)@, key).1,
            final(self).state == old(self).state,
    {
        let k = key.code;
        let cv = chars_of(self.aura_color_input.as_str());
        assert(cv@.subrange(0, cv.len() as int) =~= cv@);
        let bytes = utf8_len_up_to(&cv, 0, cv.len(), 6);
        let typed = match k {
            KeyCode::Char(c) => is_ascii_hexdigit(c) && bytes < 6,
            _ => false,
        };
        if typed {
            match k {
                KeyCode::Char(c) => {
                    self.aura_color_input = push_hex_digit(&self.aura_color_input, c);
                },
                _ => {},
            }
        } else if k == KeyCode::Backspace {
            let n = self.aura_color_input.as_str().unicode_len();
            if n > 0 {
                self.aura_color_input = substring(self.aura_color_input.as_str(), 0, n - 1);
            }
        } else if k == KeyCode::Enter {
            let color = self.aura_color_input.clone();
            self.aura_editing_color = false;
            self.input_mode = InputMode::Normal;
            if bytes == 6 {
                return Some(AppAction::SetAuraColor(color));
            }
        } else if k == KeyCode::Esc {
            self.aura_editing_color = false;
            self.input_mode = InputMode::Normal;
        }
        None
    }

    /// A key on the GPU tab.
    pub fn handle_gpu_key(&mut self, key: KeyEvent) -> (r: Option<AppAction>)
        requires
            old(self).gpu_selected < 3 || key.code != KeyCode::Enter,
        ensures
            final(self)@ == gpu_step(*old(self), key).0,
            action_view(r) == gpu_step(*old(self), key).1,
            final(self).state == old(self).state,
    {
        let k = key.code;
        if key_is_up(k) {
            self.gpu_selected = self.gpu_selected.saturating_sub(1);
        } else if key_is_down(k) {
            if self.gpu_selected < 2 {
                self.gpu_selected = self.gpu_selected + 1;
            }
        } else if k == KeyCode::Enter {
            let modes: [&str; 3] = ["Integrated", "Hybrid", "AsusMuxDgpu"];
            assert(forall|i: int| 0 <= i < 3 ==> (#[trigger] modes@[i])@ == gpu_modes()[i]);
            let target = modes[self.gpu_selected];
            if str_eq(target, "AsusMuxDgpu") || str_eq(self.state.gpu_mode.as_str(), "AsusMuxDgpu") {
                self.gpu_confirm = true;
                self.input_mode = InputMode::Confirm;
            } else {
                return Some(AppAction::SetGpuMode(target.to_owned()));
            }
        }
        None
    }

    /// A key while the GPU mode change awaits confirmation.
    pub fn handle_gpu_confirm(&mut self, key: KeyEvent) -> (r: Option<AppAction>)
        requires
            old(self).gpu_selected < 3 || (key.code != KeyCode::Char('y') && key.code
                != KeyCode::Char('Y')),
        ensures
            final(self)@ == gpu_confirm_step(old(self)@, key).0,
            action_view(r) == gpu_confirm_step(old(self)@, key).1,
            final(self).state == old(self).state,
    {
        let k = key.code;
        if k == KeyCode::Char('y') || k == KeyCode::Char('Y') {
            self.gpu_confirm = false;
            self.input_mode = InputMode::Normal;
            let modes: [&str; 3] = ["Integrated", "Hybrid", "AsusMuxDgpu"];
            assert(forall|i: int| 0 <= i < 3 ==> (#[trigger] modes@[i])@ == gpu_modes()[i]);
            return Some(AppAction::SetGpuMode(modes[self.gpu_selected].to_owned()));
        } else if k == KeyCode::Char('n') || k == KeyCode::Char('N') || k == KeyCode::Esc {
            self.gpu_confirm = false;
            self.input_mode = InputMode::Normal;
        }
        None
    }

    /// A key on the battery tab.
    pub fn handle_bat_key(&mut self, key: KeyEvent) -> (r: Option<AppAction>)
        ensures
            final(self)@ == bat_step(*old(self), key).0,
            action_view(r) == bat_step(*old(self), key).1,
            final(self).state == old(self).state,
    {
        let k = key.code;
        let limit = self.state.charge_limit;
        if key_is_up(k) {
            self.bat_selected = self.bat_selected.saturating_sub(1);
        } else if key_is_down(k) {
            if self.bat_selected < 4 {
                self.bat_selected = self.bat_selected + 1;
            }
        } else if key_is_left(k) {
            if self.bat_selected == 0 {
                let v = if limit >= 25 {
                    limit - 5
                } else {
                    20
                };
                return Some(AppAction::SetChargeLimit(v));
            }
        } else if key_is_right(k) {
            if self.bat_selected == 0 {
                let up = if limit <= u32::MAX - 5 {
                    limit + 5
                } else {
                    ((limit as u64 + 5) - 4294967296) as u32
                };
                let v = if up <= 100 {
                    up
                } else {
                    100
                };
                return Some(AppAction::SetChargeLimit(v));
            }
        } else if k == KeyCode::Enter {
            return if self.bat_selected == 0 {
                Some(AppAction::SetChargeLimit(limit))
            } else if self.bat_selected == 1 {
                Some(AppAction::BatteryOneShot)
            } else if self.bat_selected == 2 {
                Some(AppAction::ToggleBootSound)
            } else if self.bat_selected == 3 {
                Some(AppAction::TogglePanelOd)
            } else if self.bat_selected == 4 {
                Some(AppAction::CycleKbBrightness)
            } else {
                None
            };
        }
        None
    }

    /// Reacts to a key press: updates the interface and returns the change,
    /// if any, that the user asked the machine for.
    pub fn handle_key(&mut self, key: KeyEvent) -> (r: Option<AppAction>)
        requires
            picks_gpu_mode(*old(self), key) ==> old(self).gpu_selected < 3,
        ensures
            final(self)@ == key_step(*old(self), key).0,
            action_view(r) == key_step(*old(self), key).1,
            final(self).state == old(self).state,
    {
        if self.show_help {
            self.show_help = false;
            return None;
        }
        if self.gpu_confirm {
            return self.handle_gpu_confirm(key);
        }
        if self.aura_editing_color {
            return self.handle_aura_color_input(key);
        }
        if self.fan_editing {
            return self.handle_fan_editing(key);
        }
        let k = key.code;
        if k == KeyCode::Char('q') || k == KeyCode::Char('Q') {
            self.running = false;
            return None;
        }
        if k == KeyCode::Char('c') && key.ctrl {
            self.running = false;
            return None;
        }
        if k == KeyCode::Char('?') {
            self.show_help = true;
            return None;
        }
        if k == KeyCode::Tab {
            self.tab = self.tab.next();
            self.input_mode = InputMode::Normal;
            return None;
        }
        if k == KeyCode::BackTab {
            self.tab = self.tab.prev();
            self.input_mode = InputMode::Normal;
            return None;
        }
        match k {
            KeyCode::Char(c) => {
                if '1' <= c && c <= '6' {
                    let n = (c as u32 - '0' as u32) as u8;
                    match Tab::from_number(n) {
                        Some(t) => {
                            self.tab = t;
                            self.input_mode = InputMode::Normal;
                        },
                        None => {},
                    }
                    return None;
                }
            },
            _ => {},
        }
        match self.tab {
            Tab::Overview => None,
            Tab::Performance => self.handle_perf_key(key),
            Tab::Fans => self.handle_fan_key(key),
            Tab::Aura => self.handle_aura_key(key),
            Tab::Gpu => self.handle_gpu_key(key),
            Tab::Battery => self.handle_bat_key(key),
        }
    }
}

/// What a timer tick calls for.
#[derive(Debug, Clone, Copy, PartialEq, Eq, Structural)]
pub struct TickWork {
    /// Read the sensors again (every 8th tick, about every 2 s).
    pub refresh_sensors: bool,
    /// Read the command-line tools again (every 40th tick, about every 10 s).
    pub refresh_cli: bool,
}

/// The tick count after one more tick (wrapping, as release builds count).
pub open spec fn next_tick(t: u64) -> u64 {
    if t < u64::MAX {
        (t + 1) as u64
    } else {
        0
    }
}

impl App {
    /// Counts a timer tick (250 ms): says which refreshes are due, and clears
    /// the status line every 20th tick (about every 5 s).
    pub fn on_tick(&mut self) -> (w: TickWork)
        ensures
            final(self)@ == (AppView {
                tick_count: next_tick(old(self).tick_count),
                status_msg: if next_tick(old(self).tick_count) % 20 == 0 {
                    None
                } else {
                    old(self)@.status_msg
                },
                ..old(self)@
            }),
            final(self).state == old(self).state,
            w == (TickWork {
                refresh_sensors: next_tick(old(self).tick_count) % 8 == 0,
                refresh_cli: next_tick(old(self).tick_count) % 40 == 0,
            }),
    {
        self.tick_count = if self.tick_count < u64::MAX {
            self.tick_count + 1
        } else {
            0
        };
        let w = TickWork {
            refresh_sensors: self.tick_count % 8 == 0,
            refresh_cli: self.tick_count % 40 == 0,
        };
        if self.tick_count % 20 == 0 {
            self.clear_status();
        }
        w
    }
}

impl App {
    /// Whether handling `key` is defined: a key that picks a GPU mode needs
    /// the selection to name one of the three modes.
    pub fn key_is_defined(&self, key: KeyEvent) -> (b: bool)
        ensures
            b == (picks_gpu_mode(*self, key) ==> self.gpu_selected < 3),
    {
        let k = key.code;
        let picks = !self.show_help && if self.gpu_confirm {
            k == KeyCode::Char('y') || k == KeyCode::Char('Y')
        } else {
            !self.aura_editing_color && !self.fan_editing && self.tab == Tab::Gpu && k
                == KeyCode::Enter
        };
        !picks || self.gpu_selected < 3
    }
}

/// `s` with the hex digit `c` appended.
fn push_hex_digit(s: &String, c: char) -> (r: String)
    requires
        is_hex_digit(c),
    ensures
        r@ == s@.push(c),
{
    let digits = "0123456789abcdefABCDEF";
    let v = chars_of(digits);
    let mut i: usize = 0;
    proof {
        reveal_strlit("0123456789abcdefABCDEF");
    }
    while i < v.len() && v[i] != c
        invariant
            i <= v.len(),
            v@ == "0123456789abcdefABCDEF"@,
            forall|j: int| 0 <= j < i ==> v@[j] != c,
        decreases v.len() - i,
    {
        i = i + 1;
    }
    if i == v.len() {
        proof {
            assert(false) by {
                let u = c as u32;
                if '0' <= c <= '9' {
                    assert(v@[(u - 48) as int] == c);
                } else if 'a' <= c <= 'f' {
                    assert(v@[(u - 97 + 10) as int] == c);
                } else {
                    assert(v@[(u - 65 + 16) as int] == c);
                }
            }
        }
    }
    let mut r = s.clone();
    r.append(substring(digits, i, i + 1).as_str());
    assert(digits@.subrange(i as int, i + 1) =~= seq![c]);
    r
}

// ---------------------------------------------------------------------------
// Laws
// ---------------------------------------------------------------------------

/// The selections point at existing items: three performance rows, two
/// fans, eight curve points, three GPU modes, five battery rows.
pub open spec fn selections_in_range(u: AppView) -> bool {
    &&& u.perf_selected <= 2
    &&& u.fan_selected_fan <= 1
    &&& u.fan_selected_point <= 7
    &&& u.gpu_selected <= 2
    &&& u.bat_selected <= 4
}

/// The colour being typed is at most six hexadecimal digits.
pub open spec fn color_input_ok(s: Seq<char>) -> bool {
    &&& s.len() <= 6
    &&& forall|i: int| 0 <= i < s.len() ==> is_hex_digit(#[trigger] s[i])
}

proof fn lemma_hex_utf8_len(s: Seq<char>)
    requires
        forall|i: int| 0 <= i < s.len() ==> is_hex_digit(#[trigger] s[i]),
    ensures
        utf8_len(s) == s.len(),
    decreases s.len(),
{
    if s.len() > 0 {
        lemma_hex_utf8_len(s.drop_last());
        assert(s.drop_last().push(s.last()) =~= s);
        crate::text::lemma_utf8_len_push(s.drop_last(), s.last());
    } else {
        assert(s =~= Seq::<char>::empty());
    }
}

/// The help overlay closes on any key, and that key does nothing else.
pub proof fn lemma_help_closes_on_any_key(app: App, key: KeyEvent)
    requires
        app.show_help,
    ensures
        key_step(app, key) == (AppView { show_help: false, ..app@ }, None::<ActionView>),
{
}

/// No key moves a selection out of range.
pub proof fn lemma_selections_stay_in_range(app: App, key: KeyEvent)
    requires
        selections_in_range(app@),
    ensures
        selections_in_range(key_step(app, key).0),
{
}

/// Typing keeps the colour at most six hexadecimal digits, and a colour is
/// handed over only when it is exactly six of them.
pub proof fn lemma_color_input_stays_hex(app: App, key: KeyEvent)
    requires
        color_input_ok(app.aura_color_input@),
    ensures
        color_input_ok(key_step(app, key).0.aura_color_input),
        key_step(app, key).1 matches Some(ActionView::SetAuraColor(c)) ==> c.len() == 6
            && color_input_ok(c),
{
    let s = app.aura_color_input@;
    lemma_hex_utf8_len(s);
    if key.code is Char && is_hex_digit(key.code->Char_0) {
        assert forall|i: int| 0 <= i < s.push(key.code->Char_0).len() implies is_hex_digit(
            #[trigger] s.push(key.code->Char_0)[i],
        ) by {
            if i < s.len() {
                assert(s.push(key.code->Char_0)[i] == s[i]);
            }
        }
    }
    if s.len() > 0 {
        assert forall|i: int| 0 <= i < s.drop_last().len() implies is_hex_digit(
            #[trigger] s.drop_last()[i],
        ) by {
            assert(s.drop_last()[i] == s[i]);
        }
    }
}

/// Left and right never ask for an APU limit outside 15-80 W or a platform
/// limit outside 30-115 W; left never asks for a charge limit below 20 %,
/// right never for one above 100 %, so a charge limit within 20-100 % stays
/// there.
pub proof fn lemma_adjusted_limits_in_range(app: App, key: KeyEvent)
    requires
        is_left(key.code) || is_right(key.code),
    ensures
        key_step(app, key).1 matches Some(ActionView::SetChargeLimit(v)) ==> (is_left(key.code)
            ==> 20 <= v) && (is_right(key.code) ==> v <= 100) && (20 <= app.state.charge_limit
            <= 100 ==> 20 <= v <= 100),
        key_step(app, key).1 matches Some(ActionView::SetPptApu(v)) ==> 15 <= v <= 80,
        key_step(app, key).1 matches Some(ActionView::SetPptPlatform(v)) ==> 30 <= v <= 115,
{
}

/// Switching to or from the MUX mode always goes through the confirmation
/// dialog: outside it, no key asks for a GPU mode change that involves the
/// MUX mode.
pub proof fn lemma_mux_switch_needs_confirmation(app: App, key: KeyEvent)
    requires
        !app.gpu_confirm,
        app.gpu_selected < 3,
    ensures
        key_step(app, key).1 matches Some(ActionView::SetGpuMode(m)) ==> m != "AsusMuxDgpu"@
            && app.state.gpu_mode@ != "AsusMuxDgpu"@,
{
    reveal_strlit("AsusMuxDgpu");
    reveal_strlit("Integrated");
    reveal_strlit("Hybrid");
}

/// Every action the interface asks for can be carried out on the state it
/// shows: an adjusted fan point exists, and a colour has six digits.
pub proof fn lemma_actions_can_be_carried_out(app: App, key: KeyEvent)
    requires
        selections_in_range(app@),
        color_input_ok(app.aura_color_input@),
    ensures
        key_step(app, key).1 matches Some(a) ==> crate::state::action_ok(a, app.state@),
{
    lemma_color_input_stays_hex(app, key);
    match key_step(app, key).1 {
        Some(ActionView::SetAuraColor(c)) => {
            lemma_six_hex_splittable(c);
        },
        _ => {},
    }
}

/// Six hexadecimal digits split into three channels.
pub proof fn lemma_six_hex_splittable(c: Seq<char>)
    requires
        c.len() == 6,
        color_input_ok(c),
    ensures
        crate::asusctl::color_splittable(c),
{
    let d = crate::text::trim_start_char(c, '#');
    assert(d == c) by {
        assert(!(c[0] == '#'));
    }
    assert forall|j: int| 0 <= j <= 6 implies utf8_len(#[trigger] c.take(j)) == j by {
        assert forall|i: int| 0 <= i < c.take(j).len() implies is_hex_digit(#[trigger] c.take(j)[i]) by {
            assert(c.take(j)[i] == c[i]);
        }
        lemma_hex_utf8_len(c.take(j));
    }
    assert(utf8_len(c.take(2)) == 2);
    assert(utf8_len(c.take(4)) == 4);
    assert(utf8_len(c.take(6)) == 6);
}

/// While the GPU confirmation, the colour editor or the fan point editor is
/// open (and the help is closed), it takes every key: the global keys do not
/// quit, open the help or change the tab.
pub proof fn lemma_editors_take_every_key(app: App, key: KeyEvent)
    requires
        !app.show_help,
        app.gpu_confirm || app.aura_editing_color || app.fan_editing,
    ensures
        key_step(app, key) == (if app.gpu_confirm {
            gpu_confirm_step(app@, key)
        } else if app.aura_editing_color {
            color_input_step(app@, key)
        } else {
            fan_editing_step(app@, key)
        }),
        key_step(app, key).0.running == app.running,
        !key_step(app, key).0.show_help,
        key_step(app, key).0.tab == app.tab,
{
}

/// On the performance tab with the profile row selected, Right asks for the
/// profile after the current one in the order Quiet, Balanced, Performance,
/// and Left for the one before, staying put at either end; a profile that is
/// none of these counts as Quiet.
pub proof fn lemma_profile_stepping(app: App, key: KeyEvent)
    requires
        !app.show_help,
        !app.gpu_confirm,
        !app.aura_editing_color,
        !app.fan_editing,
        app.tab == Tab::Performance,
        app.perf_selected == 0,
    ensures
        is_right(key.code) ==> key_step(app, key).1 == Some(
            ActionView::SetProfile(
                if app.state.profile@ == "Quiet"@ {
                    "Balanced"@
                } else if app.state.profile@ == "Balanced"@ {
                    "Performance"@
                } else if app.state.profile@ == "Performance"@ {
                    "Performance"@
                } else {
                    "Balanced"@
                },
            ),
        ),
        is_left(key.code) ==> key_step(app, key).1 == Some(
            ActionView::SetProfile(
                if app.state.profile@ == "Quiet"@ {
                    "Quiet"@
                } else if app.state.profile@ == "Balanced"@ {
                    "Quiet"@
                } else if app.state.profile@ == "Performance"@ {
                    "Balanced"@
                } else {
                    "Quiet"@
                },
            ),
        ),
{
}

/// On the performance tab, Right raises the selected power limit by 5 W and
/// Left lowers it by 5 W, kept within 15-80 W for the APU limit and 30-115 W
/// for the platform limit (for a limit that is within its range).
pub proof fn lemma_power_limit_stepping(app: App, key: KeyEvent)
    requires
        !app.show_help,
        !app.gpu_confirm,
        !app.aura_editing_color,
        !app.fan_editing,
        app.tab == Tab::Performance,
    ensures
        app.perf_selected == 1 && 15 <= app.state.ppt_apu <= 80 ==> {
            &&& is_right(key.code) ==> key_step(app, key).1 == Some(
                ActionView::SetPptApu(
                    if app.state.ppt_apu + 5 > 80 {
                        80
                    } else {
                        (app.state.ppt_apu + 5) as u32
                    },
                ),
            )
            &&& is_left(key.code) ==> key_step(app, key).1 == Some(
                ActionView::SetPptApu(
                    if app.state.ppt_apu - 5 < 15 {
                        15
                    } else {
                        (app.state.ppt_apu - 5) as u32
                    },
                ),
            )
        },
        app.perf_selected == 2 && 30 <= app.state.ppt_platform <= 115 ==> {
            &&& is_right(key.code) ==> key_step(app, key).1 == Some(
                ActionView::SetPptPlatform(
                    if app.state.ppt_platform + 5 > 115 {
                        115
                    } else {
                        (app.state.ppt_platform + 5) as u32
                    },
                ),
            )
            &&& is_left(key.code) ==> key_step(app, key).1 == Some(
                ActionView::SetPptPlatform(
                    if app.state.ppt_platform - 5 < 30 {
                        30
                    } else {
                        (app.state.ppt_platform - 5) as u32
                    },
                ),
            )
        },
{
}

/// Enter on the GPU tab: the first card asks for the Integrated mode and the
/// second for Hybrid, directly; the third card, or leaving the MUX mode,
/// opens the confirmation instead of asking for anything.
pub proof fn lemma_gpu_enter(app: App, key: KeyEvent)
    requires
        !app.show_help,
        !app.gpu_confirm,
        !app.aura_editing_color,
        !app.fan_editing,
        app.tab == Tab::Gpu,
        key.code == KeyCode::Enter,
    ensures
        app.gpu_selected == 0 && app.state.gpu_mode@ != "AsusMuxDgpu"@ ==> key_step(app, key).1
            == Some(ActionView::SetGpuMode("Integrated"@)),
        app.gpu_selected == 1 && app.state.gpu_mode@ != "AsusMuxDgpu"@ ==> key_step(app, key).1
            == Some(ActionView::SetGpuMode("Hybrid"@)),
        app.gpu_selected == 2 || app.state.gpu_mode@ == "AsusMuxDgpu"@ ==> key_step(app, key).1
            is None && key_step(app, key).0.gpu_confirm,
{
    reveal_strlit("AsusMuxDgpu");
    reveal_strlit("Integrated");
    reveal_strlit("Hybrid");
    assert(("Integrated"@).len() != ("AsusMuxDgpu"@).len());
    assert(("Hybrid"@).len() != ("AsusMuxDgpu"@).len());
}

} // verus!
