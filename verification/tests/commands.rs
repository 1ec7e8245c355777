use rog_control_center::asusctl::{
    battery_info_command, battery_oneshot, get_fan_curves, reset_fan_curve, set_armoury, set_aura_effect,
    set_aura_effect_with_color, set_battery_limit, set_fan_curve, set_profile,
};
use rog_control_center::command::ProcessOutput;
use rog_control_center::error::AppError;
use rog_control_center::supergfxctl::{get_supported_modes_command, set_mode};

fn args(c: &rog_control_center::command::Command) -> Vec<&str> {
    c.args.iter().map(|s| s.as_str()).collect()
}

#[test]
fn profile_command() {
    let c = set_profile("Quiet");
    assert_eq!(c.program, "asusctl");
    assert_eq!(args(&c), vec!["profile", "set", "Quiet"]);
    assert!(c.check_status);
    assert!(c.notify_waybar);
    assert_eq!(c.command_line(), "asusctl profile set Quiet");
}

#[test]
fn fan_curve_commands() {
    let c = set_fan_curve("Balanced", "cpu", "30c:1%");
    assert_eq!(
        args(&c),
        vec!["fan-curve", "--mod-profile", "Balanced", "--fan", "cpu", "--data", "30c:1%"]
    );
    assert!(!c.notify_waybar);
    assert_eq!(args(&reset_fan_curve()), vec!["fan-curve", "--default"]);
    assert_eq!(args(&get_fan_curves("Quiet")), vec!["fan-curve", "--mod-profile", "Quiet"]);
}

#[test]
fn battery_commands() {
    let c = set_battery_limit(85);
    assert_eq!(args(&c), vec!["battery", "limit", "85"]);
    assert!(c.notify_waybar);
    assert_eq!(args(&battery_oneshot()), vec!["battery", "oneshot"]);
    let info = battery_info_command();
    assert_eq!(args(&info), vec!["battery", "info"]);
    assert!(!info.notify_waybar);
}

#[test]
fn armoury_and_aura_commands() {
    assert_eq!(args(&set_armoury("boot_sound", "1")), vec!["armoury", "set", "boot_sound", "1"]);
    assert_eq!(args(&set_aura_effect("rainbow-wave")), vec!["aura", "effect", "rainbow-wave"]);
}

#[test]
fn aura_color_channels() {
    let c = set_aura_effect_with_color("static", "#ff8000");
    assert_eq!(args(&c), vec!["aura", "effect", "static", "-c1", "255,128,0"]);
    let c = set_aura_effect_with_color("static", "0a0B0c");
    assert_eq!(args(&c), vec!["aura", "effect", "static", "-c1", "10,11,12"]);
}

#[test]
fn aura_color_bad_channel_is_255() {
    let c = set_aura_effect_with_color("static", "zz00+f");
    assert_eq!(args(&c), vec!["aura", "effect", "static", "-c1", "255,0,15"]);
    let c = set_aura_effect_with_color("static", "##é1234");
    assert_eq!(args(&c), vec!["aura", "effect", "static", "-c1", "255,18,52"]);
}

#[test]
fn supergfxctl_commands() {
    let c = set_mode("Hybrid");
    assert_eq!(c.program, "supergfxctl");
    assert_eq!(args(&c), vec!["-m", "Hybrid"]);
    assert!(c.notify_waybar);
    assert!(!get_supported_modes_command().check_status);
}

#[test]
fn finishing_a_command() {
    let c = set_profile("Quiet");
    let ok = c.finish(ProcessOutput::Exited {
        success: true,
        stdout: "done".to_string(),
        stderr: String::new(),
    });
    assert_eq!(ok.unwrap(), "done");
    match c.finish(ProcessOutput::Exited {
        success: false,
        stdout: String::new(),
        stderr: "denied".to_string(),
    }) {
        Err(AppError::Command { cmd, msg }) => {
            assert_eq!(cmd, "asusctl profile set Quiet");
            assert_eq!(msg, "denied");
        }
        _ => panic!("expected a command error"),
    }
    match c.finish(ProcessOutput::SpawnFailed("not found".to_string())) {
        Err(e) => assert_eq!(e.message(), "command `asusctl profile set Quiet` failed: not found"),
        Ok(_) => panic!("expected an error"),
    }
}

#[test]
fn unchecked_status_still_succeeds() {
    let c = get_supported_modes_command();
    let r = c.finish(ProcessOutput::Exited {
        success: false,
        stdout: "[Hybrid]".to_string(),
        stderr: String::new(),
    });
    assert_eq!(r.unwrap(), "[Hybrid]");
}
