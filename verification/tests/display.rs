use rog_control_center::display::{
    battery_icon, battery_level_color, charge_limit_color, footer_hint, gpu_mode_color,
    gpu_mode_icon, involves_mux, lowercase_profile_icon, on_off, profile_icon,
};
use rog_control_center::tabs::Tab;
use rog_control_center::theme::default_palette;

#[test]
fn footer_hints() {
    assert_eq!(footer_hint(Tab::Overview), "q:Quit  Tab:Next  1-6:Jump  ?:Help");
    assert_eq!(
        footer_hint(Tab::Fans),
        "q:Quit  Tab:CPU/GPU  ←→:Point  e:Edit  d:Default  ?:Help"
    );
    assert_eq!(footer_hint(Tab::Gpu), "q:Quit  ↑↓:Select  Enter:Apply  ?:Help");
}

#[test]
fn battery_colours_by_level() {
    let p = default_palette();
    assert_eq!(battery_level_color(&p, 51), p.green);
    assert_eq!(battery_level_color(&p, 50), p.yellow);
    assert_eq!(battery_level_color(&p, 21), p.yellow);
    assert_eq!(battery_level_color(&p, 20), p.red);
    assert_eq!(charge_limit_color(&p, 80), p.green);
    assert_eq!(charge_limit_color(&p, 79), p.yellow);
    assert_eq!(charge_limit_color(&p, 50), p.yellow);
    assert_eq!(charge_limit_color(&p, 49), p.red);
}

#[test]
fn gpu_mode_looks() {
    let p = default_palette();
    assert_eq!(gpu_mode_color(&p, "Integrated"), p.green);
    assert_eq!(gpu_mode_color(&p, "Hybrid"), p.blue);
    assert_eq!(gpu_mode_color(&p, "AsusMuxDgpu"), p.red);
    assert_eq!(gpu_mode_color(&p, "hybrid"), p.fg);
    assert_eq!(gpu_mode_icon("Integrated"), "󰢮");
    assert_eq!(gpu_mode_icon("AsusMuxDgpu"), "󰍺");
    assert_eq!(gpu_mode_icon("Vfio"), "?");
}

#[test]
fn profile_and_battery_icons() {
    assert_eq!(profile_icon("Quiet"), "󰤆");
    assert_eq!(profile_icon("BALANCED"), "󰾅");
    assert_eq!(profile_icon("Performance"), "󰓅");
    assert_eq!(profile_icon("LowPower"), "?");
    assert_eq!(battery_icon("Charging"), "󰂄");
    assert_eq!(battery_icon("Discharging"), "󰂃");
    assert_eq!(battery_icon("Full"), "󰁹");
    assert_eq!(battery_icon("Not charging"), "󰂑");
    assert_eq!(on_off(true), "On");
    assert_eq!(on_off(false), "Off");
}

#[test]
fn lowercase_profile_names() {
    assert_eq!(lowercase_profile_icon("quiet"), "󰤆");
    assert_eq!(lowercase_profile_icon("performance"), "󰓅");
    // the name is taken as it is: upper case is not folded here
    assert_eq!(lowercase_profile_icon("Quiet"), "?");
}

#[test]
fn mux_changes() {
    assert!(involves_mux("AsusMuxDgpu", "Hybrid"));
    assert!(involves_mux("Hybrid", "AsusMuxDgpu"));
    assert!(!involves_mux("Integrated", "Hybrid"));
}
