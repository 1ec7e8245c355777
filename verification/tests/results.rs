use rog_control_center::asusctl::{armoury_attrs_result, fan_curves_result, ArmouryAttrs};
use rog_control_center::command::ProcessOutput;
use rog_control_center::error::AppError;

fn exited(success: bool, stdout: &str, stderr: &str) -> ProcessOutput {
    ProcessOutput::Exited { success, stdout: stdout.to_string(), stderr: stderr.to_string() }
}

#[test]
fn fan_curves_from_a_successful_run() {
    let out = "fan: CPU,\npwm: (1, 2, 3, 56, 56, 86, 86, 104),\n\
               temp: (30, 49, 59, 69, 79, 89, 99, 109),\nenabled: true,\n";
    let curves = fan_curves_result("Quiet", exited(true, out, "")).unwrap();
    assert_eq!(curves.len(), 1);
    assert_eq!(curves[0].fan, "CPU");
    assert_eq!(curves[0].temp[7], 109);
    assert!(curves[0].enabled);
}

#[test]
fn fan_curves_of_a_failed_run_are_not_parsed() {
    match fan_curves_result("Quiet", exited(false, "pwm: (x),\n", "no such profile")) {
        Err(AppError::Command { cmd, msg }) => {
            assert_eq!(cmd, "asusctl fan-curve --mod-profile Quiet");
            assert_eq!(msg, "no such profile");
        },
        other => panic!("unexpected {other:?}"),
    }
    match fan_curves_result("Quiet", ProcessOutput::SpawnFailed("not found".to_string())) {
        Err(AppError::Command { msg, .. }) => assert_eq!(msg, "not found"),
        other => panic!("unexpected {other:?}"),
    }
    assert!(matches!(
        fan_curves_result("Quiet", exited(true, "pwm: (1, 2),\n", "")),
        Err(AppError::Parse(m)) if m == "Expected 8 values, got 2"
    ));
}

#[test]
fn armoury_attrs_from_runs() {
    let out = "boot_sound:\n  current: [0,(1)]\nppt_apu_sppt:\n  current: 15..[60]..80\n";
    let a = armoury_attrs_result(exited(true, out, "")).unwrap();
    assert_eq!(a, ArmouryAttrs { boot_sound: true, panel_overdrive: false, ppt_apu: 60, ppt_platform: 0 });
    match armoury_attrs_result(exited(false, out, "denied")) {
        Err(AppError::Command { cmd, msg }) => {
            assert_eq!(cmd, "asusctl armoury list");
            assert_eq!(msg, "denied");
        },
        other => panic!("unexpected {other:?}"),
    }
}
