use rog_control_center::asusctl::{
    get_battery_info, get_keyboard_brightness, get_profile, parse_armoury, armoury_output_ok,
    parse_fan_curves, ArmouryAttrs, FanCurve,
};
use rog_control_center::error::AppError;
use rog_control_center::supergfxctl::{get_mode, get_supported_modes};
use rog_control_center::sysfs::{
    read_battery_capacity, read_battery_status, read_charge_limit, read_fan_rpm,
};

const FAN_OUTPUT: &str = "Fan curves for Balanced\n\
[\n\
    (\n\
        fan: CPU,\n\
        pwm: (1, 2, 3, 56, 56, 86, 86, 104),\n\
        temp: (30, 49, 59, 69, 79, 89, 99, 109),\n\
        enabled: false,\n\
    ),\n\
    (\n\
        fan: GPU,\n\
        pwm: (10, 20, 30, 40, 50, 60, 70, 255),\n\
        temp: (31, 41, 51, 61, 71, 81, 91, 100),\n\
        enabled: true,\n\
    ),\n\
]\n";

#[test]
fn profile_from_asusctl_output() {
    let p = get_profile("Starting version 6.0.0\nActive profile: Quiet\n").unwrap();
    assert_eq!(p, "Quiet");
}

#[test]
fn profile_with_crlf_and_spaces() {
    let p = get_profile("Active profile:   Performance  \r\n").unwrap();
    assert_eq!(p, "Performance");
}

#[test]
fn profile_missing_is_parse_error() {
    match get_profile("nothing here\n") {
        Err(AppError::Parse(m)) => assert_eq!(m, "Could not parse active profile"),
        _ => panic!("expected a parse error"),
    }
}

#[test]
fn profile_first_matching_line_wins() {
    let p = get_profile("Active profile: Balanced\nActive profile: Quiet\n").unwrap();
    assert_eq!(p, "Balanced");
}

#[test]
fn keyboard_brightness_after_last_colon() {
    let b = get_keyboard_brightness("Current keyboard led brightness: Low\n").unwrap();
    assert_eq!(b, "Low");
    let b = get_keyboard_brightness("a: brightness: x: High\n").unwrap();
    assert_eq!(b, "High");
}

#[test]
fn keyboard_brightness_missing() {
    assert!(matches!(get_keyboard_brightness("leds: off\n"), Err(AppError::Parse(_))));
}

#[test]
fn battery_charge_limit() {
    assert_eq!(get_battery_info("Current battery charge limit: 80%\n").unwrap(), 80);
    assert_eq!(get_battery_info("charge limit: 100 % \n").unwrap(), 100);
    assert!(matches!(get_battery_info("charge limit: full\n"), Err(AppError::Parse(_))));
    assert!(matches!(get_battery_info("no limit\n"), Err(AppError::Parse(_))));
}

#[test]
fn fan_curves_are_parsed() {
    let curves: Vec<FanCurve> = parse_fan_curves(FAN_OUTPUT).unwrap();
    assert_eq!(curves.len(), 2);
    assert_eq!(curves[0].fan, "CPU");
    assert_eq!(curves[0].pwm, [1, 2, 3, 56, 56, 86, 86, 104]);
    assert_eq!(curves[0].temp, [30, 49, 59, 69, 79, 89, 99, 109]);
    assert!(!curves[0].enabled);
    assert_eq!(curves[1].fan, "GPU");
    assert!(curves[1].enabled);
    assert_eq!(curves[1].pwm[7], 255);
}

#[test]
fn fan_curves_bad_tuple_fails() {
    let out = "fan: CPU,\npwm: (1, 2, 3),\nenabled: true,\n";
    assert!(matches!(parse_fan_curves(out), Err(AppError::Parse(m)) if m == "Expected 8 values, got 3"));
    let out = "fan: CPU,\ntemp: (1, 2, 3, 4, 5, 6, 7, x),\n";
    assert!(matches!(
        parse_fan_curves(out),
        Err(AppError::Parse(m)) if m == "tuple value: invalid digit found in string"
    ));
    // the first piece that is not a number gives the message
    let out = "pwm: (1, , 3, 4, 5, 6, 7, x, 9),\n";
    assert!(matches!(
        parse_fan_curves(out),
        Err(AppError::Parse(m)) if m == "tuple value: cannot parse integer from empty string"
    ));
}

#[test]
fn fan_curves_empty_output() {
    assert_eq!(parse_fan_curves("").unwrap().len(), 0);
}

#[test]
fn fan_curve_data_string() {
    let c = FanCurve {
        fan: "CPU".to_string(),
        pwm: [1, 2, 3, 56, 56, 86, 86, 104],
        temp: [30, 49, 59, 69, 79, 89, 99, 109],
        enabled: true,
    };
    assert_eq!(c.pwm_percent(0), 0);
    assert_eq!(c.pwm_percent(1), 1);
    assert_eq!(c.pwm_percent(3), 22);
    assert_eq!(c.pwm_percent(7), 41);
    assert_eq!(
        c.to_data_string(),
        "30c:0%,49c:1%,59c:1%,69c:22%,79c:22%,89c:34%,99c:34%,109c:41%"
    );
}

#[test]
fn pwm_percent_matches_float_rounding() {
    let mut c = FanCurve { fan: String::new(), pwm: [0; 8], temp: [0; 8], enabled: false };
    for p in 0..=255u32 {
        c.pwm[0] = p;
        let expected = (p as f64 / 255.0 * 100.0).round() as u32;
        assert_eq!(c.pwm_percent(0), expected);
    }
}

const ARMOURY: &str = "boot_sound:\n\
    current: [(0),1]\n\
panel_overdrive:\n\
    current: [0,(1)]\n\
ppt_apu_sppt:\n\
    min: 15\n\
    current: 15..[45]..80\n\
ppt_platform_sppt:\n\
    current: 30..[90]..115\n";

#[test]
fn armoury_attributes() {
    assert!(armoury_output_ok(ARMOURY));
    let a = parse_armoury(ARMOURY).unwrap();
    assert_eq!(
        a,
        ArmouryAttrs { boot_sound: false, panel_overdrive: true, ppt_apu: 45, ppt_platform: 90 }
    );
}

#[test]
fn armoury_unknown_and_unreadable_values_keep_defaults() {
    let a = parse_armoury("other:\n  current: [(1)]\nppt_apu_sppt:\n  current: none\n").unwrap();
    assert_eq!(a, ArmouryAttrs::default());
}

#[test]
fn armoury_reversed_brackets_are_refused() {
    assert!(!armoury_output_ok("ppt_apu_sppt:\n  current: ]5[\n"));
    assert!(armoury_output_ok("boot_sound:\n  current: ]5[\n"));
}

#[test]
fn gpu_mode_and_supported_modes() {
    assert_eq!(get_mode("Hybrid\n"), "Hybrid");
    assert_eq!(
        get_supported_modes("[Integrated, Hybrid, AsusMuxDgpu]\n"),
        vec!["Integrated".to_string(), "Hybrid".to_string(), "AsusMuxDgpu".to_string()]
    );
    assert_eq!(get_supported_modes(""), vec!["".to_string()]);
}

#[test]
fn sysfs_values() {
    assert_eq!(read_fan_rpm("2400\n").unwrap(), 2400);
    assert_eq!(read_fan_rpm("+12").unwrap(), 12);
    assert!(matches!(
        read_fan_rpm("-1"),
        Err(AppError::Parse(m)) if m == "fan RPM parse: invalid digit found in string"
    ));
    assert!(matches!(
        read_fan_rpm("4294967296"),
        Err(AppError::Parse(m)) if m == "fan RPM parse: number too large to fit in target type"
    ));
    assert_eq!(read_fan_rpm("4294967295").unwrap(), u32::MAX);
    assert_eq!(read_battery_capacity(" 57\n").unwrap(), 57);
    assert!(matches!(
        read_battery_capacity(""),
        Err(AppError::Parse(m)) if m == "battery capacity: cannot parse integer from empty string"
    ));
    assert!(matches!(
        read_charge_limit("full"),
        Err(AppError::Parse(m)) if m == "charge limit: invalid digit found in string"
    ));
    assert_eq!(read_battery_status("Charging\n"), "Charging");
    assert_eq!(read_charge_limit("80\n").unwrap(), 80);
}
