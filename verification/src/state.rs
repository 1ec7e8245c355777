//! What the interface knows about the machine, and how readings and command
//! results change it.
use vstd::prelude::*;

use crate::app::{as_i32, clamp, clamp_i64, wrap_i32, wrapped_sum, ActionView, AppAction};
use crate::asusctl::{
    armoury_step, bracket_ok, bracket_value, ArmouryAttrs, ArmouryParse,
    asusctl, brightness_of, curve_views, data_string, fan_curves_of, get_armoury_attrs,
    get_fan_curves, get_keyboard_brightness, get_profile, leds_get_command, next_keyboard_brightness,
    parse_armoury, parse_fan_curves, percent_of, profile_get_command, profile_of, reset_fan_curve,
    armoury_of, battery_oneshot, color_splittable, rgb_text, set_armoury, set_aura_effect,
    set_aura_effect_with_color, set_battery_limit, set_fan_curve, set_profile, FanCurve,
    FanCurveView,
};
use crate::command::{Command, CommandView};
use crate::error::{error_text, AppError};
use crate::supergfxctl::{
    get_mode, get_mode_command, get_supported_modes, get_supported_modes_command, set_mode,
    supergfxctl, supported_modes_of,
};
use crate::sysfs::SensorData;
use crate::text::{
    dec, decimal, join, join_strings, lowercase, starts_with, str_eq, to_lowercase, trim, views,
};

verus! {

/// Everything the interface shows about the machine.
#[derive(Debug, Clone)]
pub struct SystemState {
    pub cpu_fan_rpm: u32,
    pub gpu_fan_rpm: u32,
    pub battery_capacity: u32,
    pub battery_status: String,
    /// Recent fan speeds and temperatures, oldest first.
    pub cpu_fan_history: Vec<u64>,
    pub gpu_fan_history: Vec<u64>,
    pub cpu_temp_history: Vec<u64>,
    pub gpu_temp_history: Vec<u64>,
    pub profile: String,
    pub ppt_apu: u32,
    pub ppt_platform: u32,
    pub charge_limit: u32,
    pub gpu_mode: String,
    pub gpu_modes_available: Vec<String>,
    pub keyboard_brightness: String,
    pub boot_sound: bool,
    pub panel_overdrive: bool,
    pub fan_curves: Vec<FanCurve>,
    pub board_name: String,
}

/// The plain value of a [`SystemState`].
pub struct StateView {
    pub cpu_fan_rpm: u32,
    pub gpu_fan_rpm: u32,
    pub battery_capacity: u32,
    pub battery_status: Seq<char>,
    pub cpu_fan_history: Seq<u64>,
    pub gpu_fan_history: Seq<u64>,
    pub cpu_temp_history: Seq<u64>,
    pub gpu_temp_history: Seq<u64>,
    pub profile: Seq<char>,
    pub ppt_apu: u32,
    pub ppt_platform: u32,
    pub charge_limit: u32,
    pub gpu_mode: Seq<char>,
    pub gpu_modes_available: Seq<Seq<char>>,
    pub keyboard_brightness: Seq<char>,
    pub boot_sound: bool,
    pub panel_overdrive: bool,
    pub fan_curves: Seq<FanCurveView>,
    pub board_name: Seq<char>,
}

impl View for SystemState {
    type V = StateView;

    open spec fn view(&self) -> StateView {
        StateView {
            cpu_fan_rpm: self.cpu_fan_rpm,
            gpu_fan_rpm: self.gpu_fan_rpm,
            battery_capacity: self.battery_capacity,
            battery_status: self.battery_status@,
            cpu_fan_history: self.cpu_fan_history@,
            gpu_fan_history: self.gpu_fan_history@,
            cpu_temp_history: self.cpu_temp_history@,
            gpu_temp_history: self.gpu_temp_history@,
            profile: self.profile@,
            ppt_apu: self.ppt_apu,
            ppt_platform: self.ppt_platform,
            charge_limit: self.charge_limit,
            gpu_mode: self.gpu_mode@,
            gpu_modes_available: views(self.gpu_modes_available@),
            keyboard_brightness: self.keyboard_brightness@,
            boot_sound: self.boot_sound,
            panel_overdrive: self.panel_overdrive,
            fan_curves: curve_views(self.fan_curves@),
            board_name: self.board_name@,
        }
    }
}

/// The state before anything has been read: zeros, empty texts and lists.
pub open spec fn empty_state() -> StateView {
    StateView {
        cpu_fan_rpm: 0,
        gpu_fan_rpm: 0,
        battery_capacity: 0,
        battery_status: Seq::empty(),
        cpu_fan_history: Seq::empty(),
        gpu_fan_history: Seq::empty(),
        cpu_temp_history: Seq::empty(),
        gpu_temp_history: Seq::empty(),
        profile: Seq::empty(),
        ppt_apu: 0,
        ppt_platform: 0,
        charge_limit: 0,
        gpu_mode: Seq::empty(),
        gpu_modes_available: Seq::empty(),
        keyboard_brightness: Seq::empty(),
        boot_sound: false,
        panel_overdrive: false,
        fan_curves: Seq::empty(),
        board_name: Seq::empty(),
    }
}

impl Default for SystemState {
    fn default() -> (r: Self)
        ensures
            r@ == empty_state(),
    {
        let r = SystemState {
            cpu_fan_rpm: 0,
            gpu_fan_rpm: 0,
            battery_capacity: 0,
            battery_status: String::new(),
            cpu_fan_history: Vec::new(),
            gpu_fan_history: Vec::new(),
            cpu_temp_history: Vec::new(),
            gpu_temp_history: Vec::new(),
            profile: String::new(),
            ppt_apu: 0,
            ppt_platform: 0,
            charge_limit: 0,
            gpu_mode: String::new(),
            gpu_modes_available: Vec::new(),
            keyboard_brightness: String::new(),
            boot_sound: false,
            panel_overdrive: false,
            fan_curves: Vec::new(),
            board_name: String::new(),
        };
        assert(views(r.gpu_modes_available@) =~= Seq::<Seq<char>>::empty());
        assert(curve_views(r.fan_curves@) =~= Seq::<FanCurveView>::empty());
        r
    }
}

// ---------------------------------------------------------------------------
// Sensor readings
// ---------------------------------------------------------------------------

/// Number of samples a history keeps.
pub open spec fn history_len() -> nat {
    60
}

/// A history with sample `x` added; when it then holds more than 60
/// samples, the oldest is dropped.
pub open spec fn record(h: Seq<u64>, x: u64) -> Seq<u64> {
    if h.len() + 1 > history_len() {
        h.push(x).drop_first()
    } else {
        h.push(x)
    }
}

pub open spec fn record_opt(h: Seq<u64>, x: Option<u64>) -> Seq<u64> {
    match x {
        Some(v) => record(h, v),
        None => h,
    }
}

/// The state after a round of sensor readings: every reading that succeeded
/// replaces the value shown, and temperatures and fan speeds are added to
/// their histories.
pub open spec fn sensors_applied(s: StateView, d: SensorData) -> StateView {
    StateView {
        cpu_temp_history: record_opt(s.cpu_temp_history, d.cpu_temp),
        gpu_temp_history: record_opt(s.gpu_temp_history, d.gpu_temp),
        cpu_fan_rpm: match d.cpu_fan {
            Some(r) => r,
            None => s.cpu_fan_rpm,
        },
        cpu_fan_history: match d.cpu_fan {
            Some(r) => record(s.cpu_fan_history, r as u64),
            None => s.cpu_fan_history,
        },
        gpu_fan_rpm: match d.gpu_fan {
            Some(r) => r,
            None => s.gpu_fan_rpm,
        },
        gpu_fan_history: match d.gpu_fan {
            Some(r) => record(s.gpu_fan_history, r as u64),
            None => s.gpu_fan_history,
        },
        battery_capacity: match d.battery_capacity {
            Some(c) => c,
            None => s.battery_capacity,
        },
        battery_status: match d.battery_status {
            Some(st) => st@,
            None => s.battery_status,
        },
        charge_limit: match d.charge_limit {
            Some(l) => l,
            None => s.charge_limit,
        },
        ..s
    }
}

/// Adds a sample to a history.
fn push_sample(h: &mut Vec<u64>, x: u64)
    ensures
        final(h)@ == record(old(h)@, x),
{
    h.push(x);
    if h.len() > 60 {
        h.remove(0);
        assert(old(h)@.push(x).remove(0) =~= old(h)@.push(x).drop_first());
    }
}

// ---------------------------------------------------------------------------
// Command-line readings
// ---------------------------------------------------------------------------

/// The profile after the first reading of a refresh: the parsed profile, or
/// the current one.
pub open spec fn cli_profile(s: StateView, outs: Seq<Result<String, AppError>>) -> Seq<char> {
    match outs[0] {
        Ok(o) => match profile_of(o@) {
            Some(p) => p,
            None => s.profile,
        },
        Err(_) => s.profile,
    }
}

/// The command of step `k` of a refresh: the profile, the GPU mode, the
/// supported GPU modes, the firmware attributes, the keyboard brightness,
/// and the fan curves of the profile read first.
pub open spec fn cli_command(s: StateView, outs: Seq<Result<String, AppError>>) -> CommandView {
    let k = outs.len();
    if k == 0 {
        asusctl(seq!["profile"@, "get"@], false)
    } else if k == 1 {
        supergfxctl(seq!["-g"@], true, false)
    } else if k == 2 {
        supergfxctl(seq!["-s"@], false, false)
    } else if k == 3 {
        asusctl(seq!["armoury"@, "list"@], false)
    } else if k == 4 {
        asusctl(seq!["leds"@, "get"@], false)
    } else {
        asusctl(seq!["fan-curve"@, "--mod-profile"@, cli_profile(s, outs)], false)
    }
}

/// The state after the six readings of a refresh: each reading that
/// succeeded and could be parsed replaces what it describes.
pub open spec fn cli_applied(s: StateView, outs: Seq<Result<String, AppError>>) -> StateView {
    let arm = match outs[3] {
        Ok(o) => armoury_of(o@),
        Err(_) => None,
    };
    StateView {
        profile: cli_profile(s, outs),
        gpu_mode: match outs[1] {
            Ok(o) => trim(o@),
            Err(_) => s.gpu_mode,
        },
        gpu_modes_available: match outs[2] {
            Ok(o) => supported_modes_of(o@),
            Err(_) => s.gpu_modes_available,
        },
        ppt_apu: match arm {
            Some(a) => a.ppt_apu,
            None => s.ppt_apu,
        },
        ppt_platform: match arm {
            Some(a) => a.ppt_platform,
            None => s.ppt_platform,
        },
        boot_sound: match arm {
            Some(a) => a.boot_sound,
            None => s.boot_sound,
        },
        panel_overdrive: match arm {
            Some(a) => a.panel_overdrive,
            None => s.panel_overdrive,
        },
        keyboard_brightness: match outs[4] {
            Ok(o) => match brightness_of(o@) {
                Some(b) => b,
                None => s.keyboard_brightness,
            },
            Err(_) => s.keyboard_brightness,
        },
        fan_curves: match outs[5] {
            Ok(o) => match fan_curves_of(o@) {
                Ok(cs) => cs,
                Err(_) => s.fan_curves,
            },
            Err(_) => s.fan_curves,
        },
        ..s
    }
}

/// A refresh is defined on these results: at most six, and a successful
/// attribute listing can be read.
pub open spec fn cli_outcomes_ok(outs: Seq<Result<String, AppError>>) -> bool {
    &&& outs.len() <= 6
    &&& outs.len() == 6 ==> (outs[3] matches Ok(o) ==> armoury_of(o@) is Some)
}

impl SystemState {
    /// Takes in a round of sensor readings.
    pub fn refresh_sensors(&mut self, data: SensorData)
        ensures
            final(self)@ == sensors_applied(old(self)@, data),
    {
        let ghost d = data;
        if let Some(t) = data.cpu_temp {
            push_sample(&mut self.cpu_temp_history, t);
        }
        if let Some(t) = data.gpu_temp {
            push_sample(&mut self.gpu_temp_history, t);
        }
        if let Some(rpm) = data.cpu_fan {
            self.cpu_fan_rpm = rpm;
            push_sample(&mut self.cpu_fan_history, rpm as u64);
        }
        if let Some(rpm) = data.gpu_fan {
            self.gpu_fan_rpm = rpm;
            push_sample(&mut self.gpu_fan_history, rpm as u64);
        }
        if let Some(cap) = data.battery_capacity {
            self.battery_capacity = cap;
        }
        if let Some(status) = data.battery_status {
            self.battery_status = status;
        }
        if let Some(limit) = data.charge_limit {
            self.charge_limit = limit;
        }
    }

    /// One step of the slower refresh from the command-line tools: with the
    /// results of the first `outcomes.len()` commands, returns the next
    /// command to run; once all six have run, takes their results in and
    /// returns `None`. Failed or unreadable results leave the state as it was.
    pub fn refresh_cli(&mut self, outcomes: &Vec<Result<String, AppError>>) -> (r: Option<Command>)
        requires
            cli_outcomes_ok(outcomes@),
        ensures
            outcomes@.len() < 6 ==> (r matches Some(c) && c@ == cli_command(old(self)@, outcomes@)
                && final(self)@ == old(self)@),
            outcomes@.len() == 6 ==> r is None && final(self)@ == cli_applied(
                old(self)@,
                outcomes@,
            ),
    {
        let k = outcomes.len();
        if k == 0 {
            return Some(profile_get_command());
        }
        let profile = match &outcomes[0] {
            Ok(o) => match get_profile(o.as_str()) {
                Ok(p) => p,
                Err(_) => self.profile.clone(),
            },
            Err(_) => self.profile.clone(),
        };
        assert(profile@ == cli_profile(self@, outcomes@));
        if k == 1 {
            return Some(get_mode_command());
        } else if k == 2 {
            return Some(get_supported_modes_command());
        } else if k == 3 {
            return Some(get_armoury_attrs());
        } else if k == 4 {
            return Some(leds_get_command());
        } else if k == 5 {
            return Some(get_fan_curves(profile.as_str()));
        }
        let ghost s0 = self@;
        self.profile = profile;
        if let Ok(o) = &outcomes[1] {
            self.gpu_mode = get_mode(o.as_str());
        }
        if let Ok(o) = &outcomes[2] {
            self.gpu_modes_available = get_supported_modes(o.as_str());
        }
        if let Ok(o) = &outcomes[3] {
            if let Ok(attrs) = parse_armoury(o.as_str()) {
                self.ppt_apu = attrs.ppt_apu;
                self.ppt_platform = attrs.ppt_platform;
                self.boot_sound = attrs.boot_sound;
                self.panel_overdrive = attrs.panel_overdrive;
            }
        }
        if let Ok(o) = &outcomes[4] {
            if let Ok(kb) = get_keyboard_brightness(o.as_str()) {
                self.keyboard_brightness = kb;
            }
        }
        if let Ok(o) = &outcomes[5] {
            if let Ok(curves) = parse_fan_curves(o.as_str()) {
                self.fan_curves = curves;
            }
        }
        None
    }

    /// The first load: sets the board name and takes in the first sensor
    /// readings; the command-line refresh follows.
    pub fn load_initial(&mut self, data: SensorData)
        ensures
            final(self)@ == sensors_applied(StateView { board_name: "GA402RJ"@, ..old(self)@ }, data),
    {
        self.board_name = "GA402RJ".to_owned();
        self.refresh_sensors(data);
    }
}

// ---------------------------------------------------------------------------
// Carrying out actions
// ---------------------------------------------------------------------------

/// The next thing to do for an action.
#[derive(Debug)]
pub enum ActionStep {
    /// Run this command and come back with its result.
    Run(Command),
    /// The action is complete; the message to show.
    Done(String),
}

/// The plain value of an [`ActionStep`].
pub enum StepView {
    Run(CommandView),
    Done(Seq<char>),
}

impl View for ActionStep {
    type V = StepView;

    open spec fn view(&self) -> StepView {
        match self {
            ActionStep::Run(c) => StepView::Run(c@),
            ActionStep::Done(m) => StepView::Done(m@),
        }
    }
}

/// Most commands an action runs (fan curves are applied one command per curve).
pub open spec fn max_steps(a: ActionView, s: StateView) -> nat {
    match a {
        ActionView::AdjustFanPoint { .. } => 0,
        ActionView::ApplyFanCurve => s.fan_curves.len(),
        ActionView::ResetFanCurve => 2,
        ActionView::CycleKbBrightness => 2,
        _ => 1,
    }
}

/// Carrying out the action is defined in this state: a point that is
/// adjusted exists, and a colour can be split into its channels.
pub open spec fn action_ok(a: ActionView, s: StateView) -> bool {
    match a {
        ActionView::AdjustFanPoint { fan, point, .. } => fan < s.fan_curves.len() ==> point < 8,
        ActionView::SetAuraColor(c) => color_splittable(c),
        _ => true,
    }
}

/// A single command whose success changes the state to `ok_state` and shows
/// `ok_msg`, and whose failure shows `fail` followed by the error.
pub open spec fn one_command(
    s: StateView,
    outs: Seq<Result<String, AppError>>,
    cmd: CommandView,
    ok_state: StateView,
    ok_msg: Seq<char>,
    fail: Seq<char>,
) -> (StateView, StepView) {
    if outs.len() == 0 {
        (s, StepView::Run(cmd))
    } else {
        match outs[0] {
            Ok(_) => (ok_state, StepView::Done(ok_msg)),
            Err(e) => (s, StepView::Done(fail + error_text(e))),
        }
    }
}

pub open spec fn on_off(b: bool) -> Seq<char> {
    if b {
        "On"@
    } else {
        "Off"@
    }
}

/// The new duty and temperature of an adjusted fan curve point: the duty
/// kept within 0-255, the temperature within 20-100 °C.
pub open spec fn adjusted_pwm(c: FanCurveView, point: int, pwm_delta: i32) -> u32 {
    clamp(wrap_i32(as_i32(c.pwm[point]) + pwm_delta), 0, 255) as u32
}

pub open spec fn adjusted_temp(c: FanCurveView, point: int, temp_delta: i32) -> u32 {
    clamp(wrap_i32(as_i32(c.temp[point]) + temp_delta), 20, 100) as u32
}

/// The message for one fan curve written.
pub open spec fn apply_msg(fan: Seq<char>, o: Result<String, AppError>) -> Seq<char> {
    match o {
        Ok(_) => fan + " curve applied"@,
        Err(e) => fan + " curve failed: "@ + error_text(e),
    }
}

/// What carrying out action `a` comes to, given the results `outs` of the
/// commands run for it so far: the next command, or the final state and the
/// message to show.
pub open spec fn action_step(a: ActionView, s: StateView, outs: Seq<Result<String, AppError>>) -> (
    StateView,
    StepView,
) {
    match a {
        ActionView::SetProfile(p) => one_command(
            s,
            outs,
            asusctl(seq!["profile"@, "set"@, p], true),
            StateView { profile: p, ..s },
            "Profile set to "@ + p,
            "Failed to set profile: "@,
        ),
        ActionView::SetPptApu(v) => one_command(
            s,
            outs,
            asusctl(seq!["armoury"@, "set"@, "ppt_apu_sppt"@, dec(v as nat)], false),
            StateView { ppt_apu: v, ..s },
            "APU PPT set to "@ + dec(v as nat) + "W"@,
            "Failed to set APU PPT: "@,
        ),
        ActionView::SetPptPlatform(v) => one_command(
            s,
            outs,
            asusctl(seq!["armoury"@, "set"@, "ppt_platform_sppt"@, dec(v as nat)], false),
            StateView { ppt_platform: v, ..s },
            "Platform PPT set to "@ + dec(v as nat) + "W"@,
            "Failed to set Platform PPT: "@,
        ),
        ActionView::AdjustFanPoint { fan, point, pwm_delta, temp_delta } => {
            if fan < s.fan_curves.len() {
                let c = s.fan_curves[fan as int];
                let np = adjusted_pwm(c, point as int, pwm_delta);
                let nt = adjusted_temp(c, point as int, temp_delta);
                (
                    StateView {
                        fan_curves: s.fan_curves.update(
                            fan as int,
                            FanCurveView {
                                pwm: c.pwm.update(point as int, np),
                                temp: c.temp.update(point as int, nt),
                                ..c
                            },
                        ),
                        ..s
                    },
                    StepView::Done(
                        c.fan + " point "@ + dec(point as nat) + ": "@ + dec(nt as nat) + "°C @ "@
                            + dec(percent_of(np)) + "%"@,
                    ),
                )
            } else {
                (s, StepView::Done("No fan curve data"@))
            }
        },
        ActionView::ApplyFanCurve => {
            let n = s.fan_curves.len();
            if outs.len() < n {
                let c = s.fan_curves[outs.len() as int];
                (
                    s,
                    StepView::Run(
                        asusctl(
                            seq![
                                "fan-curve"@,
                                "--mod-profile"@,
                                s.profile,
                                "--fan"@,
                                lowercase(c.fan),
                                "--data"@,
                                data_string(c),
                            ],
                            false,
                        ),
                    ),
                )
            } else {
                (
                    s,
                    StepView::Done(
                        join(
                            Seq::new(n, |i: int| apply_msg(s.fan_curves[i].fan, outs[i])),
                            ", "@,
                        ),
                    ),
                )
            }
        },
        ActionView::ResetFanCurve => {
            if outs.len() == 0 {
                (s, StepView::Run(asusctl(seq!["fan-curve"@, "--default"@], false)))
            } else {
                match outs[0] {
                    Err(e) => (s, StepView::Done("Failed to reset fan curves: "@ + error_text(e))),
                    Ok(_) => if outs.len() == 1 {
                        (
                            s,
                            StepView::Run(
                                asusctl(seq!["fan-curve"@, "--mod-profile"@, s.profile], false),
                            ),
                        )
                    } else {
                        (
                            match outs[1] {
                                Ok(o) => match fan_curves_of(o@) {
                                    Ok(cs) => StateView { fan_curves: cs, ..s },
                                    Err(_) => s,
                                },
                                Err(_) => s,
                            },
                            StepView::Done("Fan curves reset to default"@),
                        )
                    },
                }
            }
        },
        ActionView::SetAuraEffect(e) => one_command(
            s,
            outs,
            asusctl(seq!["aura"@, "effect"@, e], false),
            s,
            "Aura effect: "@ + e,
            "Failed to set aura effect: "@,
        ),
        ActionView::SetAuraColor(c) => one_command(
            s,
            outs,
            asusctl(seq!["aura"@, "effect"@, "static"@, "-c1"@, rgb_text(c)], false),
            s,
            "Aura color: #"@ + c,
            "Failed to set aura color: "@,
        ),
        ActionView::SetGpuMode(m) => one_command(
            s,
            outs,
            supergfxctl(seq!["-m"@, m], true, true),
            StateView { gpu_mode: m, ..s },
            if m == "AsusMuxDgpu"@ {
                "GPU mode set - REBOOT REQUIRED"@
            } else {
                "GPU mode: "@ + m
            },
            "Failed to set GPU mode: "@,
        ),
        ActionView::SetChargeLimit(l) => one_command(
            s,
            outs,
            asusctl(seq!["battery"@, "limit"@, dec(l as nat)], true),
            StateView { charge_limit: l, ..s },
            "Charge limit: "@ + dec(l as nat) + "%"@,
            "Failed to set charge limit: "@,
        ),
        ActionView::BatteryOneShot => one_command(
            s,
            outs,
            asusctl(seq!["battery"@, "oneshot"@], false),
            s,
            "One-shot full charge enabled"@,
            "Failed to enable one-shot: "@,
        ),
        ActionView::ToggleBootSound => one_command(
            s,
            outs,
            asusctl(
                seq![
                    "armoury"@,
                    "set"@,
                    "boot_sound"@,
                    if s.boot_sound {
                        "0"@
                    } else {
                        "1"@
                    },
                ],
                false,
            ),
            StateView { boot_sound: !s.boot_sound, ..s },
            "Boot sound: "@ + on_off(!s.boot_sound),
            "Failed to toggle boot sound: "@,
        ),
        ActionView::TogglePanelOd => one_command(
            s,
            outs,
            asusctl(
                seq![
                    "armoury"@,
                    "set"@,
                    "panel_overdrive"@,
                    if s.panel_overdrive {
                        "0"@
                    } else {
                        "1"@
                    },
                ],
                false,
            ),
            StateView { panel_overdrive: !s.panel_overdrive, ..s },
            "Panel overdrive: "@ + on_off(!s.panel_overdrive),
            "Failed to toggle panel OD: "@,
        ),
        ActionView::CycleKbBrightness => {
            if outs.len() == 0 {
                (s, StepView::Run(asusctl(seq!["leds"@, "next"@], false)))
            } else {
                match outs[0] {
                    Err(e) => (
                        s,
                        StepView::Done("Failed to cycle keyboard brightness: "@ + error_text(e)),
                    ),
                    Ok(_) => if outs.len() == 1 {
                        (s, StepView::Run(asusctl(seq!["leds"@, "get"@], false)))
                    } else {
                        match outs[1] {
                            Ok(o) => match brightness_of(o@) {
                                Some(kb) => (
                                    StateView { keyboard_brightness: kb, ..s },
                                    StepView::Done("Keyboard brightness: "@ + kb),
                                ),
                                None => (s, StepView::Done("Keyboard brightness cycled"@)),
                            },
                            Err(_) => (s, StepView::Done("Keyboard brightness cycled"@)),
                        }
                    },
                }
            }
        },
    }
}

/// `a` followed by `b`.
fn concat(a: &str, b: &str) -> (r: String)
    ensures
        r@ == a@ + b@,
{
    let mut r = a.to_owned();
    r.append(b);
    r
}

/// `fail` followed by the error's text.
fn failure(fail: &str, e: &AppError) -> (r: String)
    ensures
        r@ == fail@ + error_text(*e),
{
    let m = e.message();
    concat(fail, m.as_str())
}

/// Carries out one step of `action`, given the results `outcomes` of the
/// commands already run for it: returns the next command to run, or, once
/// the action is complete, updates the state and returns the message to show.
pub fn execute_action(
    action: &AppAction,
    state: &mut SystemState,
    outcomes: &Vec<Result<String, AppError>>,
) -> (r: ActionStep)
    requires
        outcomes@.len() <= max_steps(action@, old(state)@),
        action_ok(action@, old(state)@),
    ensures
        (final(state)@, r@) == action_step(action@, old(state)@, outcomes@),
{
    let k = outcomes.len();
    match action {
        AppAction::SetProfile(p) => {
            if k == 0 {
                return ActionStep::Run(set_profile(p.as_str()));
            }
            match &outcomes[0] {
                Ok(_) => {
                    state.profile = p.clone();
                    ActionStep::Done(concat("Profile set to ", p.as_str()))
                },
                Err(e) => ActionStep::Done(failure("Failed to set profile: ", e)),
            }
        },
        AppAction::SetPptApu(v) => {
            let vs = decimal(*v as u64);
            if k == 0 {
                return ActionStep::Run(set_armoury("ppt_apu_sppt", vs.as_str()));
            }
            match &outcomes[0] {
                Ok(_) => {
                    state.ppt_apu = *v;
                    let m = concat("APU PPT set to ", vs.as_str());
                    ActionStep::Done(concat(m.as_str(), "W"))
                },
                Err(e) => ActionStep::Done(failure("Failed to set APU PPT: ", e)),
            }
        },
        AppAction::SetPptPlatform(v) => {
            let vs = decimal(*v as u64);
            if k == 0 {
                return ActionStep::Run(set_armoury("ppt_platform_sppt", vs.as_str()));
            }
            match &outcomes[0] {
                Ok(_) => {
                    state.ppt_platform = *v;
                    let m = concat("Platform PPT set to ", vs.as_str());
                    ActionStep::Done(concat(m.as_str(), "W"))
                },
                Err(e) => ActionStep::Done(failure("Failed to set Platform PPT: ", e)),
            }
        },
        AppAction::AdjustFanPoint { fan, point, pwm_delta, temp_delta } => {
            adjust_fan_point(state, *fan, *point, *pwm_delta, *temp_delta)
        },
        AppAction::ApplyFanCurve => apply_fan_curves(state, outcomes),
        AppAction::ResetFanCurve => {
            if k == 0 {
                return ActionStep::Run(reset_fan_curve());
            }
            match &outcomes[0] {
                Err(e) => ActionStep::Done(failure("Failed to reset fan curves: ", e)),
                Ok(_) => {
                    if k == 1 {
                        return ActionStep::Run(get_fan_curves(state.profile.as_str()));
                    }
                    if let Ok(o) = &outcomes[1] {
                        if let Ok(curves) = parse_fan_curves(o.as_str()) {
                            state.fan_curves = curves;
                        }
                    }
                    ActionStep::Done("Fan curves reset to default".to_owned())
                },
            }
        },
        AppAction::SetAuraEffect(e) => {
            if k == 0 {
                return ActionStep::Run(set_aura_effect(e.as_str()));
            }
            match &outcomes[0] {
                Ok(_) => ActionStep::Done(concat("Aura effect: ", e.as_str())),
                Err(err) => ActionStep::Done(failure("Failed to set aura effect: ", err)),
            }
        },
        AppAction::SetAuraColor(c) => {
            if k == 0 {
                return ActionStep::Run(set_aura_effect_with_color("static", c.as_str()));
            }
            match &outcomes[0] {
                Ok(_) => ActionStep::Done(concat("Aura color: #", c.as_str())),
                Err(err) => ActionStep::Done(failure("Failed to set aura color: ", err)),
            }
        },
        AppAction::SetGpuMode(m) => {
            if k == 0 {
                return ActionStep::Run(set_mode(m.as_str()));
            }
            match &outcomes[0] {
                Ok(_) => {
                    state.gpu_mode = m.clone();
                    if str_eq(m.as_str(), "AsusMuxDgpu") {
                        ActionStep::Done("GPU mode set - REBOOT REQUIRED".to_owned())
                    } else {
                        ActionStep::Done(concat("GPU mode: ", m.as_str()))
                    }
                },
                Err(e) => ActionStep::Done(failure("Failed to set GPU mode: ", e)),
            }
        },
        AppAction::SetChargeLimit(l) => {
            if k == 0 {
                return ActionStep::Run(set_battery_limit(*l));
            }
            match &outcomes[0] {
                Ok(_) => {
                    state.charge_limit = *l;
                    let ls = decimal(*l as u64);
                    let m = concat("Charge limit: ", ls.as_str());
                    ActionStep::Done(concat(m.as_str(), "%"))
                },
                Err(e) => ActionStep::Done(failure("Failed to set charge limit: ", e)),
            }
        },
        AppAction::BatteryOneShot => {
            if k == 0 {
                return ActionStep::Run(battery_oneshot());
            }
            match &outcomes[0] {
                Ok(_) => ActionStep::Done("One-shot full charge enabled".to_owned()),
                Err(e) => ActionStep::Done(failure("Failed to enable one-shot: ", e)),
            }
        },
        AppAction::ToggleBootSound => {
            let new_val = if state.boot_sound {
                "0"
            } else {
                "1"
            };
            if k == 0 {
                return ActionStep::Run(set_armoury("boot_sound", new_val));
            }
            match &outcomes[0] {
                Ok(_) => {
                    state.boot_sound = !state.boot_sound;
                    let shown = if state.boot_sound {
                        "On"
                    } else {
                        "Off"
                    };
                    ActionStep::Done(concat("Boot sound: ", shown))
                },
                Err(e) => ActionStep::Done(failure("Failed to toggle boot sound: ", e)),
            }
        },
        AppAction::TogglePanelOd => {
            let new_val = if state.panel_overdrive {
                "0"
            } else {
                "1"
            };
            if k == 0 {
                return ActionStep::Run(set_armoury("panel_overdrive", new_val));
            }
            match &outcomes[0] {
                Ok(_) => {
                    state.panel_overdrive = !state.panel_overdrive;
                    let shown = if state.panel_overdrive {
                        "On"
                    } else {
                        "Off"
                    };
                    ActionStep::Done(concat("Panel overdrive: ", shown))
                },
                Err(e) => ActionStep::Done(failure("Failed to toggle panel OD: ", e)),
            }
        },
        AppAction::CycleKbBrightness => {
            if k == 0 {
                return ActionStep::Run(next_keyboard_brightness());
            }
            match &outcomes[0] {
                Err(e) => ActionStep::Done(failure("Failed to cycle keyboard brightness: ", e)),
                Ok(_) => {
                    if k == 1 {
                        return ActionStep::Run(leds_get_command());
                    }
                    match &outcomes[1] {
                        Ok(o) => match get_keyboard_brightness(o.as_str()) {
                            Ok(kb) => {
                                let m = concat("Keyboard brightness: ", kb.as_str());
                                state.keyboard_brightness = kb;
                                ActionStep::Done(m)
                            },
                            Err(_) => ActionStep::Done("Keyboard brightness cycled".to_owned()),
                        },
                        Err(_) => ActionStep::Done("Keyboard brightness cycled".to_owned()),
                    }
                },
            }
        },
    }
}

fn adjust_fan_point(
    state: &mut SystemState,
    fan: usize,
    point: usize,
    pwm_delta: i32,
    temp_delta: i32,
) -> (r: ActionStep)
    requires
        fan < old(state).fan_curves.len() ==> point < 8,
    ensures
        (final(state)@, r@) == action_step(
            ActionView::AdjustFanPoint { fan, point, pwm_delta, temp_delta },
            old(state)@,
            Seq::empty(),
        ),
{
    if fan >= state.fan_curves.len() {
        return ActionStep::Done("No fan curve data".to_owned());
    }
    let ghost cv = curve_views(old(state).fan_curves@);
    let c = &state.fan_curves[fan];
    assert(cv[fan as int] == c@);
    let np = clamp_i64(wrapped_sum(c.pwm[point], pwm_delta as i64), 0, 255) as u32;
    let nt = clamp_i64(wrapped_sum(c.temp[point], temp_delta as i64), 20, 100) as u32;
    let mut pwm = c.pwm;
    pwm[point] = np;
    let mut temp = c.temp;
    temp[point] = nt;
    let nc = FanCurve { fan: c.fan.clone(), pwm, temp, enabled: c.enabled };
    let mut m = c.fan.clone();
    m.append(" point ");
    let ps = decimal(point as u64);
    m.append(ps.as_str());
    m.append(": ");
    let ts = decimal(nt as u64);
    m.append(ts.as_str());
    m.append("°C @ ");
    let pct = decimal((np as u64 * 100 + 127) / 255);
    m.append(pct.as_str());
    m.append("%");
    proof {
        assert(pwm@ =~= c.pwm@.update(point as int, np));
        assert(temp@ =~= c.temp@.update(point as int, nt));
    }
    state.fan_curves.set(fan, nc);
    proof {
        assert(curve_views(state.fan_curves@) =~= cv.update(fan as int, nc@));
    }
    ActionStep::Done(m)
}

fn apply_fan_curves(state: &SystemState, outcomes: &Vec<Result<String, AppError>>) -> (r: ActionStep)
    requires
        outcomes@.len() <= state.fan_curves@.len(),
    ensures
        (state@, r@) == action_step(ActionView::ApplyFanCurve, state@, outcomes@),
{
    let n = state.fan_curves.len();
    let k = outcomes.len();
    let ghost cv = curve_views(state.fan_curves@);
    if k < n {
        let c = &state.fan_curves[k];
        assert(cv[k as int] == c@);
        let fan = to_lowercase(c.fan.as_str());
        let data = c.to_data_string();
        return ActionStep::Run(set_fan_curve(state.profile.as_str(), fan.as_str(), data.as_str()));
    }
    let mut msgs: Vec<String> = Vec::new();
    let mut i: usize = 0;
    while i < n
        invariant
            i <= n,
            n == state.fan_curves@.len(),
            k == n,
            outcomes@.len() == n,
            cv == curve_views(state.fan_curves@),
            msgs@.len() == i,
            forall|j: int| 0 <= j < i ==> (#[trigger] msgs@[j])@ == apply_msg(cv[j].fan, outcomes@[j]),
        decreases n - i,
    {
        let c = &state.fan_curves[i];
        assert(cv[i as int] == c@);
        let m = match &outcomes[i] {
            Ok(_) => concat(c.fan.as_str(), " curve applied"),
            Err(e) => {
                let head = concat(c.fan.as_str(), " curve failed: ");
                failure(head.as_str(), e)
            },
        };
        msgs.push(m);
        i = i + 1;
    }
    assert(views(msgs@) =~= Seq::new(n as nat, |i: int| apply_msg(cv[i].fan, outcomes@[i])));
    ActionStep::Done(join_strings(&msgs, ", "))
}

// ---------------------------------------------------------------------------
// Laws
// ---------------------------------------------------------------------------

/// A history of at most 60 samples stays at most 60 long, ends with the new
/// sample, and is the newest part of the old history followed by it.
pub proof fn lemma_history_window(h: Seq<u64>, x: u64)
    requires
        h.len() <= history_len(),
    ensures
        record(h, x).len() <= history_len(),
        record(h, x).last() == x,
        record(h, x) == h.push(x).skip(h.push(x).len() - record(h, x).len()),
        h.len() < history_len() ==> record(h, x) == h.push(x),
{
    assert(h.push(x).drop_first() =~= h.push(x).skip(1));
    assert(h.push(x).skip(0) =~= h.push(x));
}

/// Sensor readings keep every history at most 60 samples long.
pub proof fn lemma_sensor_histories_bounded(s: StateView, d: SensorData)
    requires
        s.cpu_temp_history.len() <= history_len(),
        s.gpu_temp_history.len() <= history_len(),
        s.cpu_fan_history.len() <= history_len(),
        s.gpu_fan_history.len() <= history_len(),
    ensures
        sensors_applied(s, d).cpu_temp_history.len() <= history_len(),
        sensors_applied(s, d).gpu_temp_history.len() <= history_len(),
        sensors_applied(s, d).cpu_fan_history.len() <= history_len(),
        sensors_applied(s, d).gpu_fan_history.len() <= history_len(),
{
}

/// A refresh in which every command failed leaves the state as it was.
pub proof fn lemma_failed_refresh_changes_nothing(s: StateView, outs: Seq<Result<String, AppError>>)
    requires
        outs.len() == 6,
        forall|i: int| 0 <= i < 6 ==> (#[trigger] outs[i]) is Err,
    ensures
        cli_applied(s, outs) == s,
{
    assert(outs[0] is Err);
    assert(outs[1] is Err);
    assert(outs[2] is Err);
    assert(outs[3] is Err);
    assert(outs[4] is Err);
    assert(outs[5] is Err);
}

/// When the first command an action runs fails, the action ends there, the
/// state is unchanged, and the message is the failure text followed by the
/// error's.
pub proof fn lemma_failed_command_changes_nothing(
    a: ActionView,
    s: StateView,
    outs: Seq<Result<String, AppError>>,
)
    requires
        outs.len() >= 1,
        outs[0] is Err,
        !(a is AdjustFanPoint),
        !(a is ApplyFanCurve),
    ensures
        action_step(a, s, outs).0 == s,
        action_step(a, s, outs).1 matches StepView::Done(m) && exists|fail: Seq<char>| m == fail
            + error_text(outs[0]->Err_0),
{
    let e = outs[0]->Err_0;
    match a {
        ActionView::SetProfile(p) => {
            assert(action_step(a, s, outs).1 == StepView::Done("Failed to set profile: "@ + error_text(e)));
        },
        ActionView::SetPptApu(_) => {
            assert(action_step(a, s, outs).1 == StepView::Done("Failed to set APU PPT: "@ + error_text(e)));
        },
        ActionView::SetPptPlatform(_) => {
            assert(action_step(a, s, outs).1 == StepView::Done("Failed to set Platform PPT: "@ + error_text(e)));
        },
        ActionView::ResetFanCurve => {
            assert(action_step(a, s, outs).1 == StepView::Done("Failed to reset fan curves: "@ + error_text(e)));
        },
        ActionView::SetAuraEffect(_) => {
            assert(action_step(a, s, outs).1 == StepView::Done("Failed to set aura effect: "@ + error_text(e)));
        },
        ActionView::SetAuraColor(_) => {
            assert(action_step(a, s, outs).1 == StepView::Done("Failed to set aura color: "@ + error_text(e)));
        },
        ActionView::SetGpuMode(_) => {
            assert(action_step(a, s, outs).1 == StepView::Done("Failed to set GPU mode: "@ + error_text(e)));
        },
        ActionView::SetChargeLimit(_) => {
            assert(action_step(a, s, outs).1 == StepView::Done("Failed to set charge limit: "@ + error_text(e)));
        },
        ActionView::BatteryOneShot => {
            assert(action_step(a, s, outs).1 == StepView::Done("Failed to enable one-shot: "@ + error_text(e)));
        },
        ActionView::ToggleBootSound => {
            assert(action_step(a, s, outs).1 == StepView::Done("Failed to toggle boot sound: "@ + error_text(e)));
        },
        ActionView::TogglePanelOd => {
            assert(action_step(a, s, outs).1 == StepView::Done("Failed to toggle panel OD: "@ + error_text(e)));
        },
        ActionView::CycleKbBrightness => {
            assert(action_step(a, s, outs).1 == StepView::Done("Failed to cycle keyboard brightness: "@ + error_text(e)));
        },
        _ => {},
    }
}

/// Every action completes: with the results of as many commands as it may
/// run, it is done.
pub proof fn lemma_action_completes(a: ActionView, s: StateView, outs: Seq<Result<String, AppError>>)
    requires
        outs.len() == max_steps(a, s),
    ensures
        action_step(a, s, outs).1 is Done,
{
}

/// Applying fan curves leaves the state as it is.
pub proof fn lemma_apply_keeps_state(s: StateView, outs: Seq<Result<String, AppError>>)
    ensures
        action_step(ActionView::ApplyFanCurve, s, outs).0 == s,
{
}

/// Toggling the boot sound or panel overdrive twice, both times
/// successfully, restores the setting.
pub proof fn lemma_toggle_twice_restores(s: StateView, o1: Seq<Result<String, AppError>>, o2: Seq<
    Result<String, AppError>,
>)
    requires
        o1.len() == 1,
        o1[0] is Ok,
        o2.len() == 1,
        o2[0] is Ok,
    ensures
        action_step(
            ActionView::ToggleBootSound,
            action_step(ActionView::ToggleBootSound, s, o1).0,
            o2,
        ).0 == s,
        action_step(
            ActionView::TogglePanelOd,
            action_step(ActionView::TogglePanelOd, s, o1).0,
            o2,
        ).0 == s,
{
}

/// A successful setter shows the new value in the state: the profile, a
/// power limit, the charge limit, the GPU mode.
pub proof fn lemma_successful_set_is_shown(a: ActionView, s: StateView, outs: Seq<Result<String, AppError>>)
    requires
        outs.len() == 1,
        outs[0] is Ok,
    ensures
        a matches ActionView::SetProfile(p) ==> action_step(a, s, outs).0.profile == p,
        a matches ActionView::SetPptApu(v) ==> action_step(a, s, outs).0.ppt_apu == v,
        a matches ActionView::SetPptPlatform(v) ==> action_step(a, s, outs).0.ppt_platform == v,
        a matches ActionView::SetChargeLimit(v) ==> action_step(a, s, outs).0.charge_limit == v,
        a matches ActionView::SetGpuMode(m) ==> action_step(a, s, outs).0.gpu_mode == m,
{
}

/// `t` differs from `s` at most in the part of the state that action `a` is
/// about: the profile, a power limit, the fan curves, the GPU mode, the charge
/// limit, a firmware toggle or the keyboard brightness; the other actions
/// change nothing.
pub open spec fn changes_only_its_field(a: ActionView, s: StateView, t: StateView) -> bool {
    match a {
        ActionView::SetProfile(_) => t == StateView { profile: t.profile, ..s },
        ActionView::SetPptApu(_) => t == StateView { ppt_apu: t.ppt_apu, ..s },
        ActionView::SetPptPlatform(_) => t == StateView { ppt_platform: t.ppt_platform, ..s },
        ActionView::AdjustFanPoint { .. } => t == StateView { fan_curves: t.fan_curves, ..s },
        ActionView::ResetFanCurve => t == StateView { fan_curves: t.fan_curves, ..s },
        ActionView::SetGpuMode(_) => t == StateView { gpu_mode: t.gpu_mode, ..s },
        ActionView::SetChargeLimit(_) => t == StateView { charge_limit: t.charge_limit, ..s },
        ActionView::ToggleBootSound => t == StateView { boot_sound: t.boot_sound, ..s },
        ActionView::TogglePanelOd => t == StateView { panel_overdrive: t.panel_overdrive, ..s },
        ActionView::CycleKbBrightness => t == StateView {
            keyboard_brightness: t.keyboard_brightness,
            ..s
        },
        _ => t == s,
    }
}

/// An action changes only the part of the state it is about, at every step.
pub proof fn lemma_action_changes_only_its_field(
    a: ActionView,
    s: StateView,
    outs: Seq<Result<String, AppError>>,
)
    ensures
        changes_only_its_field(a, s, action_step(a, s, outs).0),
{
}

/// Every sensor reading that came back replaces the value it describes, and
/// a temperature or fan speed becomes the newest sample of its history; a
/// reading that failed leaves its value as it was. Nothing else changes.
pub proof fn lemma_readings_replace_values(s: StateView, d: SensorData)
    ensures
        ({
            let t = sensors_applied(s, d);
            &&& d.charge_limit matches Some(l) ==> t.charge_limit == l
            &&& d.charge_limit is None ==> t.charge_limit == s.charge_limit
            &&& d.battery_capacity matches Some(c) ==> t.battery_capacity == c
            &&& d.battery_capacity is None ==> t.battery_capacity == s.battery_capacity
            &&& d.battery_status matches Some(st) ==> t.battery_status == st@
            &&& d.battery_status is None ==> t.battery_status == s.battery_status
            &&& d.cpu_fan matches Some(r) ==> t.cpu_fan_rpm == r && t.cpu_fan_history.last()
                == r as u64
            &&& d.cpu_fan is None ==> t.cpu_fan_rpm == s.cpu_fan_rpm && t.cpu_fan_history
                == s.cpu_fan_history
            &&& d.gpu_fan matches Some(r) ==> t.gpu_fan_rpm == r && t.gpu_fan_history.last()
                == r as u64
            &&& d.gpu_fan is None ==> t.gpu_fan_rpm == s.gpu_fan_rpm && t.gpu_fan_history
                == s.gpu_fan_history
            &&& d.cpu_temp matches Some(x) ==> t.cpu_temp_history.last() == x
            &&& d.cpu_temp is None ==> t.cpu_temp_history == s.cpu_temp_history
            &&& d.gpu_temp matches Some(x) ==> t.gpu_temp_history.last() == x
            &&& d.gpu_temp is None ==> t.gpu_temp_history == s.gpu_temp_history
            &&& t == StateView {
                cpu_fan_rpm: t.cpu_fan_rpm,
                gpu_fan_rpm: t.gpu_fan_rpm,
                battery_capacity: t.battery_capacity,
                battery_status: t.battery_status,
                cpu_fan_history: t.cpu_fan_history,
                gpu_fan_history: t.gpu_fan_history,
                cpu_temp_history: t.cpu_temp_history,
                gpu_temp_history: t.gpu_temp_history,
                charge_limit: t.charge_limit,
                ..s
            }
        }),
{
}

/// After a refresh, each value read from the tools is the one its parser
/// gives for the output: the profile, the GPU mode, the supported modes, each
/// firmware attribute from the attribute of the same name, the keyboard
/// brightness and the fan curves. A reading that failed leaves its values,
/// and the sensor values are not touched.
pub proof fn lemma_refresh_takes_parsed_values(s: StateView, outs: Seq<Result<String, AppError>>)
    requires
        outs.len() == 6,
    ensures
        outs[0] matches Ok(o) ==> (profile_of(o@) matches Some(p) ==> cli_applied(s, outs).profile
            == p),
        outs[0] is Err ==> cli_applied(s, outs).profile == s.profile,
        outs[1] matches Ok(o) ==> cli_applied(s, outs).gpu_mode == trim(o@),
        outs[1] is Err ==> cli_applied(s, outs).gpu_mode == s.gpu_mode,
        outs[2] matches Ok(o) ==> cli_applied(s, outs).gpu_modes_available == supported_modes_of(
            o@,
        ),
        outs[3] matches Ok(o) ==> (armoury_of(o@) matches Some(a) ==> {
            &&& cli_applied(s, outs).ppt_apu == a.ppt_apu
            &&& cli_applied(s, outs).ppt_platform == a.ppt_platform
            &&& cli_applied(s, outs).boot_sound == a.boot_sound
            &&& cli_applied(s, outs).panel_overdrive == a.panel_overdrive
        }),
        outs[3] is Err ==> {
            &&& cli_applied(s, outs).ppt_apu == s.ppt_apu
            &&& cli_applied(s, outs).ppt_platform == s.ppt_platform
            &&& cli_applied(s, outs).boot_sound == s.boot_sound
            &&& cli_applied(s, outs).panel_overdrive == s.panel_overdrive
        },
        outs[4] matches Ok(o) ==> (brightness_of(o@) matches Some(b)
            ==> cli_applied(s, outs).keyboard_brightness == b),
        outs[5] matches Ok(o) ==> (fan_curves_of(o@) matches Ok(cs) ==> cli_applied(
            s,
            outs,
        ).fan_curves == cs),
        outs[5] is Err ==> cli_applied(s, outs).fan_curves == s.fan_curves,
        cli_applied(s, outs).charge_limit == s.charge_limit,
        cli_applied(s, outs).battery_capacity == s.battery_capacity,
        cli_applied(s, outs).cpu_fan_rpm == s.cpu_fan_rpm,
        cli_applied(s, outs).board_name == s.board_name,
{
}

/// The power limits are written to the attributes the attribute listing
/// reports them under: `SetPptPlatform(v)` runs `asusctl armoury set
/// ppt_platform_sppt <v>`, and a `current:` line of that attribute is read
/// into the platform limit alone; likewise `SetPptApu(v)` and
/// `ppt_apu_sppt` for the APU limit. The two attributes differ.
pub proof fn lemma_ppt_written_where_read(
    v: u32,
    s: StateView,
    st: ArmouryParse,
    line: Seq<char>,
    n: u32,
)
    requires
        starts_with(trim(line), "current:"@),
        bracket_ok(trim(trim(line).skip(8))),
        bracket_value(trim(trim(line).skip(8))) == Some(n),
    ensures
        action_step(ActionView::SetPptPlatform(v), s, seq![]).1 == StepView::Run(
            asusctl(seq!["armoury"@, "set"@, "ppt_platform_sppt"@, dec(v as nat)], false),
        ),
        action_step(ActionView::SetPptApu(v), s, seq![]).1 == StepView::Run(
            asusctl(seq!["armoury"@, "set"@, "ppt_apu_sppt"@, dec(v as nat)], false),
        ),
        "ppt_platform_sppt"@ != "ppt_apu_sppt"@,
        st.current == "ppt_platform_sppt"@ ==> armoury_step(st, line) == Some(
            ArmouryParse { attrs: ArmouryAttrs { ppt_platform: n, ..st.attrs }, ..st },
        ),
        st.current == "ppt_apu_sppt"@ ==> armoury_step(st, line) == Some(
            ArmouryParse { attrs: ArmouryAttrs { ppt_apu: n, ..st.attrs }, ..st },
        ),
{
    reveal_strlit("ppt_platform_sppt");
    reveal_strlit("ppt_apu_sppt");
    reveal_strlit("boot_sound");
    reveal_strlit("panel_overdrive");
    assert(("ppt_platform_sppt"@)[4] != ("ppt_apu_sppt"@)[4]);
}

/// The commands a refresh runs, in order: `asusctl profile get`,
/// `supergfxctl -g`, `supergfxctl -s`, `asusctl armoury list`, `asusctl leds
/// get`, and `asusctl fan-curve --mod-profile` with the profile just read
/// (the current one when it could not be read).
pub proof fn lemma_refresh_commands(s: StateView, outs: Seq<Result<String, AppError>>)
    ensures
        outs.len() == 0 ==> cli_command(s, outs) == asusctl(seq!["profile"@, "get"@], false),
        outs.len() == 1 ==> cli_command(s, outs) == supergfxctl(seq!["-g"@], true, false),
        outs.len() == 2 ==> cli_command(s, outs) == supergfxctl(seq!["-s"@], false, false),
        outs.len() == 3 ==> cli_command(s, outs) == asusctl(seq!["armoury"@, "list"@], false),
        outs.len() == 4 ==> cli_command(s, outs) == asusctl(seq!["leds"@, "get"@], false),
        outs.len() == 5 ==> ({
            let p = match outs[0] {
                Ok(o) => match profile_of(o@) {
                    Some(p) => p,
                    None => s.profile,
                },
                Err(_) => s.profile,
            };
            cli_command(s, outs) == asusctl(seq!["fan-curve"@, "--mod-profile"@, p], false)
        }),
{
    if outs.len() == 5 {
        let p = match outs[0] {
            Ok(o) => match profile_of(o@) {
                Some(p) => p,
                None => s.profile,
            },
            Err(_) => s.profile,
        };
        assert(cli_profile(s, outs) == p);
        assert(cli_command(s, outs).args =~= seq!["fan-curve"@, "--mod-profile"@, p]);
        assert(cli_command(s, outs) == asusctl(seq!["fan-curve"@, "--mod-profile"@, p], false));
    }
}

/// The first command of each action that runs one: the profile, charge limit
/// and GPU mode are written with their values, a toggle writes `1` to turn
/// the setting on and `0` to turn it off, and the one-shot charge, the
/// brightness cycle and the fan curve reset run their commands.
pub proof fn lemma_first_commands(s: StateView, p: Seq<char>, v: u32)
    ensures
        action_step(ActionView::SetProfile(p), s, seq![]).1 == StepView::Run(
            asusctl(seq!["profile"@, "set"@, p], true),
        ),
        action_step(ActionView::SetChargeLimit(v), s, seq![]).1 == StepView::Run(
            asusctl(seq!["battery"@, "limit"@, dec(v as nat)], true),
        ),
        action_step(ActionView::SetGpuMode(p), s, seq![]).1 == StepView::Run(
            supergfxctl(seq!["-m"@, p], true, true),
        ),
        action_step(ActionView::ToggleBootSound, s, seq![]).1 == StepView::Run(
            asusctl(
                seq!["armoury"@, "set"@, "boot_sound"@, if s.boot_sound { "0"@ } else { "1"@ }],
                false,
            ),
        ),
        action_step(ActionView::TogglePanelOd, s, seq![]).1 == StepView::Run(
            asusctl(
                seq![
                    "armoury"@,
                    "set"@,
                    "panel_overdrive"@,
                    if s.panel_overdrive { "0"@ } else { "1"@ },
                ],
                false,
            ),
        ),
        action_step(ActionView::BatteryOneShot, s, seq![]).1 == StepView::Run(
            asusctl(seq!["battery"@, "oneshot"@], false),
        ),
        action_step(ActionView::CycleKbBrightness, s, seq![]).1 == StepView::Run(
            asusctl(seq!["leds"@, "next"@], false),
        ),
        action_step(ActionView::ResetFanCurve, s, seq![]).1 == StepView::Run(
            asusctl(seq!["fan-curve"@, "--default"@], false),
        ),
{
}

} // verus!
