//! Choices the screens make from the machine state: colours, icons and key
//! hints.
use vstd::prelude::*;

use crate::tabs::Tab;
use crate::text::{chars_of, eq_at, lowercase, str_eq, to_lowercase};
use crate::theme::{Rgb, ThemePalette};

verus! {

/// The key hints in the footer of each tab.
pub open spec fn footer_hint_of(t: Tab) -> Seq<char> {
    match t {
        Tab::Overview => "q:Quit  Tab:Next  1-6:Jump  ?:Help"@,
        Tab::Performance => "q:Quit  ↑↓:Select  ←→:Adjust  Enter:Apply  ?:Help"@,
        Tab::Fans => "q:Quit  Tab:CPU/GPU  ←→:Point  e:Edit  d:Default  ?:Help"@,
        Tab::Aura => "q:Quit  ↑↓:Effect  Enter:Apply  c:Color  ?:Help"@,
        Tab::Gpu => "q:Quit  ↑↓:Select  Enter:Apply  ?:Help"@,
        Tab::Battery => "q:Quit  ↑↓:Select  ←→:Adjust  Enter:Apply  ?:Help"@,
    }
}

/// The key hints shown in the footer of a tab.
pub fn footer_hint(t: Tab) -> (r: &'static str)
    ensures
        r@ == footer_hint_of(t),
{
    match t {
        Tab::Overview => "q:Quit  Tab:Next  1-6:Jump  ?:Help",
        Tab::Performance => "q:Quit  ↑↓:Select  ←→:Adjust  Enter:Apply  ?:Help",
        Tab::Fans => "q:Quit  Tab:CPU/GPU  ←→:Point  e:Edit  d:Default  ?:Help",
        Tab::Aura => "q:Quit  ↑↓:Effect  Enter:Apply  c:Color  ?:Help",
        Tab::Gpu => "q:Quit  ↑↓:Select  Enter:Apply  ?:Help",
        Tab::Battery => "q:Quit  ↑↓:Select  ←→:Adjust  Enter:Apply  ?:Help",
    }
}

/// The colour of the battery charge: green above 50 %, yellow above 20 %,
/// red otherwise.
pub fn battery_level_color(p: &ThemePalette, capacity: u32) -> (c: Rgb)
    ensures
        c == (if capacity > 50 {
            p.green
        } else if capacity > 20 {
            p.yellow
        } else {
            p.red
        }),
{
    if capacity > 50 {
        p.green
    } else if capacity > 20 {
        p.yellow
    } else {
        p.red
    }
}

/// The colour of the charge limit: green from 80 %, yellow from 50 %, red
/// below.
pub fn charge_limit_color(p: &ThemePalette, limit: u32) -> (c: Rgb)
    ensures
        c == (if limit >= 80 {
            p.green
        } else if limit >= 50 {
            p.yellow
        } else {
            p.red
        }),
{
    if limit >= 80 {
        p.green
    } else if limit >= 50 {
        p.yellow
    } else {
        p.red
    }
}

/// The colour of a GPU mode: integrated green, hybrid blue, MUX red, any
/// other the text colour.
pub open spec fn gpu_mode_color_of(p: ThemePalette, mode: Seq<char>) -> Rgb {
    if mode == "Integrated"@ {
        p.green
    } else if mode == "Hybrid"@ {
        p.blue
    } else if mode == "AsusMuxDgpu"@ {
        p.red
    } else {
        p.fg
    }
}

/// The colour a GPU mode is shown in.
pub fn gpu_mode_color(p: &ThemePalette, mode: &str) -> (c: Rgb)
    ensures
        c == gpu_mode_color_of(*p, mode@),
{
    if str_eq(mode, "Integrated") {
        p.green
    } else if str_eq(mode, "Hybrid") {
        p.blue
    } else if str_eq(mode, "AsusMuxDgpu") {
        p.red
    } else {
        p.fg
    }
}

/// The icon of a GPU mode.
pub open spec fn gpu_mode_icon_of(mode: Seq<char>) -> Seq<char> {
    if mode == "Integrated"@ {
        "󰢮"@
    } else if mode == "Hybrid"@ {
        "󰍹"@
    } else if mode == "AsusMuxDgpu"@ {
        "󰍺"@
    } else {
        "?"@
    }
}

/// The icon a GPU mode is shown with.
pub fn gpu_mode_icon(mode: &str) -> (r: &'static str)
    ensures
        r@ == gpu_mode_icon_of(mode@),
{
    if str_eq(mode, "Integrated") {
        "󰢮"
    } else if str_eq(mode, "Hybrid") {
        "󰍹"
    } else if str_eq(mode, "AsusMuxDgpu") {
        "󰍺"
    } else {
        "?"
    }
}

/// The icon of a power profile named in lower case.
pub open spec fn lowercase_profile_icon_of(l: Seq<char>) -> Seq<char> {
    if l == "quiet"@ {
        "󰤆"@
    } else if l == "balanced"@ {
        "󰾅"@
    } else if l == "performance"@ {
        "󰓅"@
    } else {
        "?"@
    }
}

/// The icon of a power profile, whatever the case of its name.
pub open spec fn profile_icon_of(profile: Seq<char>) -> Seq<char> {
    lowercase_profile_icon_of(lowercase(profile))
}

/// The icon of a power profile whose name is already in lower case.
pub fn lowercase_profile_icon(lowered: &str) -> (r: &'static str)
    ensures
        r@ == lowercase_profile_icon_of(lowered@),
{
    let v = chars_of(lowered);
    assert(v@.subrange(0, v.len() as int) =~= v@);
    if eq_at(&v, 0, v.len(), &chars_of("quiet")) {
        "󰤆"
    } else if eq_at(&v, 0, v.len(), &chars_of("balanced")) {
        "󰾅"
    } else if eq_at(&v, 0, v.len(), &chars_of("performance")) {
        "󰓅"
    } else {
        "?"
    }
}

/// The icon a power profile is shown with.
pub fn profile_icon(profile: &str) -> (r: &'static str)
    ensures
        r@ == profile_icon_of(profile@),
{
    let l = to_lowercase(profile);
    lowercase_profile_icon(l.as_str())
}

/// The icon of a battery state.
pub open spec fn battery_icon_of(status: Seq<char>) -> Seq<char> {
    if status == "Charging"@ {
        "󰂄"@
    } else if status == "Discharging"@ {
        "󰂃"@
    } else if status == "Full"@ {
        "󰁹"@
    } else {
        "󰂑"@
    }
}

/// The icon a battery state is shown with.
pub fn battery_icon(status: &str) -> (r: &'static str)
    ensures
        r@ == battery_icon_of(status@),
{
    if str_eq(status, "Charging") {
        "󰂄"
    } else if str_eq(status, "Discharging") {
        "󰂃"
    } else if str_eq(status, "Full") {
        "󰁹"
    } else {
        "󰂑"
    }
}

/// `On` or `Off`.
pub fn on_off(b: bool) -> (r: &'static str)
    ensures
        r@ == crate::state::on_off(b),
{
    if b {
        "On"
    } else {
        "Off"
    }
}

/// Whether a GPU mode change involves the MUX mode, so that it needs a
/// reboot: the target or the current mode is `AsusMuxDgpu`.
pub fn involves_mux(target: &str, current: &str) -> (b: bool)
    ensures
        b == (target@ == "AsusMuxDgpu"@ || current@ == "AsusMuxDgpu"@),
{
    str_eq(target, "AsusMuxDgpu") || str_eq(current, "AsusMuxDgpu")
}

} // verus!
