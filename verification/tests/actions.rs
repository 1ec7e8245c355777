use rog_control_center::app::AppAction;
use rog_control_center::asusctl::FanCurve;
use rog_control_center::error::AppError;
use rog_control_center::state::{execute_action, ActionStep, SystemState};
use rog_control_center::sysfs::SensorData;

fn fail(msg: &str) -> Result<String, AppError> {
    Err(AppError::Command { cmd: "asusctl x".to_string(), msg: msg.to_string() })
}

fn done(step: ActionStep) -> String {
    match step {
        ActionStep::Done(m) => m,
        ActionStep::Run(c) => panic!("expected done, got {:?}", c),
    }
}

fn run_args(step: ActionStep) -> Vec<String> {
    match step {
        ActionStep::Run(c) => c.args,
        ActionStep::Done(m) => panic!("expected a command, got {m}"),
    }
}

fn curve(fan: &str) -> FanCurve {
    FanCurve {
        fan: fan.to_string(),
        pwm: [1, 2, 3, 56, 56, 86, 86, 104],
        temp: [30, 49, 59, 69, 79, 89, 99, 109],
        enabled: true,
    }
}

#[test]
fn set_profile_success_and_failure() {
    let mut s = SystemState::default();
    let a = AppAction::SetProfile("Quiet".to_string());
    assert_eq!(run_args(execute_action(&a, &mut s, &vec![])), vec!["profile", "set", "Quiet"]);
    let m = done(execute_action(&a, &mut s, &vec![fail("boom")]));
    assert_eq!(m, "Failed to set profile: command `asusctl x` failed: boom");
    assert_eq!(s.profile, "");
    let m = done(execute_action(&a, &mut s, &vec![Ok(String::new())]));
    assert_eq!(m, "Profile set to Quiet");
    assert_eq!(s.profile, "Quiet");
}

#[test]
fn power_limits_and_charge_limit() {
    let mut s = SystemState::default();
    let a = AppAction::SetPptApu(45);
    assert_eq!(
        run_args(execute_action(&a, &mut s, &vec![])),
        vec!["armoury", "set", "ppt_apu_sppt", "45"]
    );
    assert_eq!(done(execute_action(&a, &mut s, &vec![Ok(String::new())])), "APU PPT set to 45W");
    assert_eq!(s.ppt_apu, 45);
    let a = AppAction::SetPptPlatform(90);
    assert_eq!(
        done(execute_action(&a, &mut s, &vec![Ok(String::new())])),
        "Platform PPT set to 90W"
    );
    let a = AppAction::SetChargeLimit(60);
    assert_eq!(done(execute_action(&a, &mut s, &vec![Ok(String::new())])), "Charge limit: 60%");
    assert_eq!(s.charge_limit, 60);
}

#[test]
fn adjust_fan_point_clamps() {
    let mut s = SystemState::default();
    assert_eq!(
        done(execute_action(
            &AppAction::AdjustFanPoint { fan: 0, point: 0, pwm_delta: 5, temp_delta: 0 },
            &mut s,
            &vec![]
        )),
        "No fan curve data"
    );
    s.fan_curves = vec![curve("CPU"), curve("GPU")];
    let a = AppAction::AdjustFanPoint { fan: 1, point: 7, pwm_delta: 5, temp_delta: 2 };
    let m = done(execute_action(&a, &mut s, &vec![]));
    assert_eq!(s.fan_curves[1].pwm[7], 109);
    assert_eq!(s.fan_curves[1].temp[7], 100);
    assert_eq!(m, "GPU point 7: 100°C @ 43%");
    let a = AppAction::AdjustFanPoint { fan: 0, point: 0, pwm_delta: -5, temp_delta: -2 };
    let m = done(execute_action(&a, &mut s, &vec![]));
    assert_eq!(s.fan_curves[0].pwm[0], 0);
    assert_eq!(s.fan_curves[0].temp[0], 28);
    assert_eq!(m, "CPU point 0: 28°C @ 0%");
    assert_eq!(s.fan_curves[0].pwm[1], 2);
}

#[test]
fn apply_fan_curves_runs_one_command_per_curve() {
    let mut s = SystemState::default();
    s.profile = "Balanced".to_string();
    s.fan_curves = vec![curve("CPU"), curve("GPU")];
    let a = AppAction::ApplyFanCurve;
    let args = run_args(execute_action(&a, &mut s, &vec![]));
    assert_eq!(args[2], "Balanced");
    assert_eq!(args[4], "cpu");
    assert_eq!(args[6], "30c:0%,49c:1%,59c:1%,69c:22%,79c:22%,89c:34%,99c:34%,109c:41%");
    let args = run_args(execute_action(&a, &mut s, &vec![Ok(String::new())]));
    assert_eq!(args[4], "gpu");
    let m = done(execute_action(&a, &mut s, &vec![Ok(String::new()), fail("no")]));
    assert_eq!(m, "CPU curve applied, GPU curve failed: command `asusctl x` failed: no");
}

#[test]
fn reset_fan_curves_reloads() {
    let mut s = SystemState::default();
    s.profile = "Quiet".to_string();
    let a = AppAction::ResetFanCurve;
    assert_eq!(run_args(execute_action(&a, &mut s, &vec![])), vec!["fan-curve", "--default"]);
    assert_eq!(
        run_args(execute_action(&a, &mut s, &vec![Ok(String::new())])),
        vec!["fan-curve", "--mod-profile", "Quiet"]
    );
    let out = "fan: CPU,\npwm: (1,2,3,4,5,6,7,8),\ntemp: (1,2,3,4,5,6,7,8),\nenabled: true,\n";
    let m = done(execute_action(&a, &mut s, &vec![Ok(String::new()), Ok(out.to_string())]));
    assert_eq!(m, "Fan curves reset to default");
    assert_eq!(s.fan_curves.len(), 1);
    assert_eq!(s.fan_curves[0].pwm[7], 8);
    let m = done(execute_action(&a, &mut s, &vec![fail("x")]));
    assert_eq!(m, "Failed to reset fan curves: command `asusctl x` failed: x");
}

#[test]
fn aura_and_gpu_messages() {
    let mut s = SystemState::default();
    let a = AppAction::SetAuraColor("ff0000".to_string());
    assert_eq!(
        run_args(execute_action(&a, &mut s, &vec![])),
        vec!["aura", "effect", "static", "-c1", "255,0,0"]
    );
    assert_eq!(done(execute_action(&a, &mut s, &vec![Ok(String::new())])), "Aura color: #ff0000");
    let a = AppAction::SetAuraEffect("comet".to_string());
    assert_eq!(done(execute_action(&a, &mut s, &vec![Ok(String::new())])), "Aura effect: comet");
    let a = AppAction::SetGpuMode("AsusMuxDgpu".to_string());
    assert_eq!(
        done(execute_action(&a, &mut s, &vec![Ok(String::new())])),
        "GPU mode set - REBOOT REQUIRED"
    );
    assert_eq!(s.gpu_mode, "AsusMuxDgpu");
    let a = AppAction::SetGpuMode("Hybrid".to_string());
    assert_eq!(done(execute_action(&a, &mut s, &vec![Ok(String::new())])), "GPU mode: Hybrid");
}

#[test]
fn toggles_flip_and_report_new_value() {
    let mut s = SystemState::default();
    let a = AppAction::ToggleBootSound;
    assert_eq!(
        run_args(execute_action(&a, &mut s, &vec![])),
        vec!["armoury", "set", "boot_sound", "1"]
    );
    assert_eq!(done(execute_action(&a, &mut s, &vec![Ok(String::new())])), "Boot sound: On");
    assert!(s.boot_sound);
    assert_eq!(done(execute_action(&a, &mut s, &vec![Ok(String::new())])), "Boot sound: Off");
    assert!(!s.boot_sound);
    let a = AppAction::TogglePanelOd;
    assert_eq!(
        done(execute_action(&a, &mut s, &vec![fail("e")])),
        "Failed to toggle panel OD: command `asusctl x` failed: e"
    );
    assert!(!s.panel_overdrive);
    assert_eq!(
        done(execute_action(&AppAction::BatteryOneShot, &mut s, &vec![Ok(String::new())])),
        "One-shot full charge enabled"
    );
}

#[test]
fn keyboard_brightness_cycle() {
    let mut s = SystemState::default();
    let a = AppAction::CycleKbBrightness;
    assert_eq!(run_args(execute_action(&a, &mut s, &vec![])), vec!["leds", "next"]);
    assert_eq!(run_args(execute_action(&a, &mut s, &vec![Ok(String::new())])), vec!["leds", "get"]);
    let m = done(execute_action(
        &a,
        &mut s,
        &vec![Ok(String::new()), Ok("Current keyboard led brightness: Med\n".to_string())],
    ));
    assert_eq!(m, "Keyboard brightness: Med");
    assert_eq!(s.keyboard_brightness, "Med");
    let m = done(execute_action(&a, &mut s, &vec![Ok(String::new()), Ok("?".to_string())]));
    assert_eq!(m, "Keyboard brightness cycled");
    assert_eq!(s.keyboard_brightness, "Med");
}

fn sensors(cpu_temp: Option<u64>, fan: Option<u32>) -> SensorData {
    SensorData {
        cpu_temp,
        gpu_temp: None,
        cpu_fan: fan,
        gpu_fan: None,
        battery_capacity: Some(77),
        battery_status: Some("Charging".to_string()),
        charge_limit: None,
    }
}

#[test]
fn sensor_history_keeps_last_sixty() {
    let mut s = SystemState::default();
    for i in 0..100u64 {
        s.refresh_sensors(sensors(Some(i), Some(i as u32 * 10)));
    }
    assert_eq!(s.cpu_temp_history.len(), 60);
    assert_eq!(s.cpu_temp_history[0], 40);
    assert_eq!(s.cpu_temp_history[59], 99);
    assert_eq!(s.cpu_fan_history[59], 990);
    assert_eq!(s.cpu_fan_rpm, 990);
    assert!(s.gpu_temp_history.is_empty());
    assert_eq!(s.battery_capacity, 77);
    assert_eq!(s.battery_status, "Charging");
    s.refresh_sensors(sensors(None, None));
    assert_eq!(s.cpu_temp_history.len(), 60);
    assert_eq!(s.cpu_fan_rpm, 990);
}

#[test]
fn load_initial_sets_board() {
    let mut s = SystemState::default();
    s.load_initial(sensors(Some(50), None));
    assert_eq!(s.board_name, "GA402RJ");
    assert_eq!(s.cpu_temp_history, vec![50]);
}

#[test]
fn cli_refresh_runs_six_commands() {
    let mut s = SystemState::default();
    s.profile = "Quiet".to_string();
    let mut outs: Vec<Result<String, AppError>> = Vec::new();
    let replies = [
        "Active profile: Performance\n",
        "Hybrid\n",
        "[Integrated, Hybrid]\n",
        "ppt_apu_sppt:\n  current: 15..[50]..80\n",
        "brightness: High\n",
        "fan: CPU,\npwm: (1,2,3,4,5,6,7,8),\ntemp: (1,2,3,4,5,6,7,8),\nenabled: false,\n",
    ];
    let mut programs = Vec::new();
    for reply in replies {
        let c = s.refresh_cli(&outs).expect("a command");
        programs.push(format!("{} {}", c.program, c.args.join(" ")));
        outs.push(Ok(reply.to_string()));
    }
    assert_eq!(programs[0], "asusctl profile get");
    assert_eq!(programs[1], "supergfxctl -g");
    assert_eq!(programs[2], "supergfxctl -s");
    assert_eq!(programs[5], "asusctl fan-curve --mod-profile Performance");
    assert!(s.refresh_cli(&outs).is_none());
    assert_eq!(s.profile, "Performance");
    assert_eq!(s.gpu_mode, "Hybrid");
    assert_eq!(s.gpu_modes_available, vec!["Integrated".to_string(), "Hybrid".to_string()]);
    assert_eq!(s.ppt_apu, 50);
    assert_eq!(s.keyboard_brightness, "High");
    assert_eq!(s.fan_curves.len(), 1);
}

#[test]
fn cli_refresh_with_failures_keeps_state() {
    let mut s = SystemState::default();
    s.profile = "Quiet".to_string();
    s.gpu_mode = "Hybrid".to_string();
    let outs: Vec<Result<String, AppError>> = (0..6).map(|_| fail("down")).collect();
    assert!(s.refresh_cli(&outs).is_none());
    assert_eq!(s.profile, "Quiet");
    assert_eq!(s.gpu_mode, "Hybrid");
}
