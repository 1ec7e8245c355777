use rog_control_center::app::{App, AppAction, InputMode, KeyCode, KeyEvent};
use rog_control_center::tabs::Tab;

fn key(code: KeyCode) -> KeyEvent {
    KeyEvent { code, ctrl: false }
}

fn ch(c: char) -> KeyEvent {
    key(KeyCode::Char(c))
}

#[test]
fn q_quits() {
    let mut app = App::new();
    assert!(app.running);
    assert!(app.handle_key(ch('q')).is_none());
    assert!(!app.running);
}

#[test]
fn ctrl_c_quits_but_plain_c_does_not() {
    let mut app = App::new();
    app.handle_key(ch('c'));
    assert!(app.running);
    app.handle_key(KeyEvent { code: KeyCode::Char('c'), ctrl: true });
    assert!(!app.running);
}

#[test]
fn help_closes_on_any_key() {
    let mut app = App::new();
    app.handle_key(ch('?'));
    assert!(app.show_help);
    assert!(app.handle_key(ch('q')).is_none());
    assert!(!app.show_help);
    assert!(app.running);
}

#[test]
fn tab_navigation() {
    let mut app = App::new();
    app.handle_key(key(KeyCode::Tab));
    assert_eq!(app.tab, Tab::Performance);
    app.handle_key(key(KeyCode::BackTab));
    app.handle_key(key(KeyCode::BackTab));
    assert_eq!(app.tab, Tab::Battery);
    app.handle_key(ch('4'));
    assert_eq!(app.tab, Tab::Aura);
    app.handle_key(ch('7'));
    assert_eq!(app.tab, Tab::Aura);
}

#[test]
fn performance_profile_selection() {
    let mut app = App::new();
    app.tab = Tab::Performance;
    app.state.profile = "Balanced".to_string();
    match app.handle_key(key(KeyCode::Right)) {
        Some(AppAction::SetProfile(p)) => assert_eq!(p, "Performance"),
        other => panic!("unexpected {:?}", other),
    }
    app.state.profile = "Performance".to_string();
    match app.handle_key(ch('l')) {
        Some(AppAction::SetProfile(p)) => assert_eq!(p, "Performance"),
        other => panic!("unexpected {:?}", other),
    }
    app.state.profile = "unknown".to_string();
    match app.handle_key(ch('h')) {
        Some(AppAction::SetProfile(p)) => assert_eq!(p, "Quiet"),
        other => panic!("unexpected {:?}", other),
    }
}

#[test]
fn performance_power_limits_are_clamped() {
    let mut app = App::new();
    app.tab = Tab::Performance;
    app.handle_key(key(KeyCode::Down));
    assert_eq!(app.perf_selected, 1);
    app.state.ppt_apu = 78;
    match app.handle_key(key(KeyCode::Right)) {
        Some(AppAction::SetPptApu(v)) => assert_eq!(v, 80),
        other => panic!("unexpected {:?}", other),
    }
    app.state.ppt_apu = 17;
    match app.handle_key(key(KeyCode::Left)) {
        Some(AppAction::SetPptApu(v)) => assert_eq!(v, 15),
        other => panic!("unexpected {:?}", other),
    }
    app.handle_key(ch('j'));
    app.handle_key(ch('j'));
    assert_eq!(app.perf_selected, 2);
    app.state.ppt_platform = 60;
    match app.handle_key(key(KeyCode::Right)) {
        Some(AppAction::SetPptPlatform(v)) => assert_eq!(v, 65),
        other => panic!("unexpected {:?}", other),
    }
    match app.handle_key(key(KeyCode::Enter)) {
        Some(AppAction::SetPptPlatform(v)) => assert_eq!(v, 60),
        other => panic!("unexpected {:?}", other),
    }
}

#[test]
fn fan_point_editing() {
    let mut app = App::new();
    app.tab = Tab::Fans;
    for _ in 0..10 {
        app.handle_key(key(KeyCode::Right));
    }
    assert_eq!(app.fan_selected_point, 7);
    app.handle_key(ch('e'));
    assert!(app.fan_editing);
    assert_eq!(app.input_mode, InputMode::Editing);
    match app.handle_key(key(KeyCode::Up)) {
        Some(AppAction::AdjustFanPoint { fan, point, pwm_delta, temp_delta }) => {
            assert_eq!((fan, point, pwm_delta, temp_delta), (0, 7, 5, 0));
        }
        other => panic!("unexpected {:?}", other),
    }
    match app.handle_key(ch('h')) {
        Some(AppAction::AdjustFanPoint { temp_delta, .. }) => assert_eq!(temp_delta, -2),
        other => panic!("unexpected {:?}", other),
    }
    assert!(matches!(app.handle_key(key(KeyCode::Enter)), Some(AppAction::ApplyFanCurve)));
    assert!(!app.fan_editing);
    assert_eq!(app.input_mode, InputMode::Normal);
    assert!(matches!(app.handle_key(ch('d')), Some(AppAction::ResetFanCurve)));
}

#[test]
fn aura_effects_and_color_entry() {
    let mut app = App::new();
    app.tab = Tab::Aura;
    app.handle_key(key(KeyCode::Down));
    app.handle_key(key(KeyCode::Down));
    match app.handle_key(key(KeyCode::Enter)) {
        Some(AppAction::SetAuraEffect(e)) => assert_eq!(e, "rainbow-cycle"),
        other => panic!("unexpected {:?}", other),
    }
    app.aura_selected = 12;
    assert!(app.handle_key(key(KeyCode::Enter)).is_none());
    app.handle_key(ch('c'));
    assert!(app.aura_editing_color);
    for c in "ff00zz8G80".chars() {
        app.handle_key(ch(c));
    }
    assert_eq!(app.aura_color_input, "ff0088");
    app.handle_key(key(KeyCode::Backspace));
    assert_eq!(app.aura_color_input, "ff008");
    assert!(app.handle_key(key(KeyCode::Esc)).is_none());
    assert!(!app.aura_editing_color);
    app.handle_key(ch('c'));
    assert_eq!(app.aura_color_input, "");
    for c in "12abCD".chars() {
        app.handle_key(ch(c));
    }
    match app.handle_key(key(KeyCode::Enter)) {
        Some(AppAction::SetAuraColor(c)) => assert_eq!(c, "12abCD"),
        other => panic!("unexpected {:?}", other),
    }
}

#[test]
fn short_color_is_not_applied() {
    let mut app = App::new();
    app.tab = Tab::Aura;
    app.handle_key(ch('c'));
    app.handle_key(ch('1'));
    assert!(app.handle_key(key(KeyCode::Enter)).is_none());
    assert!(!app.aura_editing_color);
}

#[test]
fn gpu_mux_switch_asks_first() {
    let mut app = App::new();
    app.tab = Tab::Gpu;
    app.state.gpu_mode = "Integrated".to_string();
    app.handle_key(key(KeyCode::Down));
    match app.handle_key(key(KeyCode::Enter)) {
        Some(AppAction::SetGpuMode(m)) => assert_eq!(m, "Hybrid"),
        other => panic!("unexpected {:?}", other),
    }
    app.handle_key(key(KeyCode::Down));
    app.handle_key(key(KeyCode::Down));
    assert_eq!(app.gpu_selected, 2);
    assert!(app.handle_key(key(KeyCode::Enter)).is_none());
    assert!(app.gpu_confirm);
    assert_eq!(app.input_mode, InputMode::Confirm);
    assert!(app.handle_key(ch('x')).is_none());
    assert!(app.gpu_confirm);
    assert!(app.handle_key(ch('n')).is_none());
    assert!(!app.gpu_confirm);
    app.handle_key(key(KeyCode::Enter));
    match app.handle_key(ch('Y')) {
        Some(AppAction::SetGpuMode(m)) => assert_eq!(m, "AsusMuxDgpu"),
        other => panic!("unexpected {:?}", other),
    }
    assert_eq!(app.input_mode, InputMode::Normal);
}

#[test]
fn leaving_mux_mode_asks_too() {
    let mut app = App::new();
    app.tab = Tab::Gpu;
    app.state.gpu_mode = "AsusMuxDgpu".to_string();
    assert!(app.handle_key(key(KeyCode::Enter)).is_none());
    assert!(app.gpu_confirm);
}

#[test]
fn battery_keys() {
    let mut app = App::new();
    app.tab = Tab::Battery;
    app.state.charge_limit = 80;
    match app.handle_key(key(KeyCode::Right)) {
        Some(AppAction::SetChargeLimit(v)) => assert_eq!(v, 85),
        other => panic!("unexpected {:?}", other),
    }
    app.state.charge_limit = 98;
    match app.handle_key(key(KeyCode::Right)) {
        Some(AppAction::SetChargeLimit(v)) => assert_eq!(v, 100),
        other => panic!("unexpected {:?}", other),
    }
    app.state.charge_limit = 22;
    match app.handle_key(key(KeyCode::Left)) {
        Some(AppAction::SetChargeLimit(v)) => assert_eq!(v, 20),
        other => panic!("unexpected {:?}", other),
    }
    app.handle_key(key(KeyCode::Down));
    assert!(matches!(app.handle_key(key(KeyCode::Enter)), Some(AppAction::BatteryOneShot)));
    assert!(app.handle_key(key(KeyCode::Left)).is_none());
    for _ in 0..6 {
        app.handle_key(key(KeyCode::Down));
    }
    assert_eq!(app.bat_selected, 4);
    assert!(matches!(app.handle_key(key(KeyCode::Enter)), Some(AppAction::CycleKbBrightness)));
    app.handle_key(key(KeyCode::Up));
    assert!(matches!(app.handle_key(key(KeyCode::Enter)), Some(AppAction::TogglePanelOd)));
}

#[test]
fn overview_ignores_tab_keys() {
    let mut app = App::new();
    assert!(app.handle_key(key(KeyCode::Enter)).is_none());
    assert_eq!(app.tab, Tab::Overview);
}

#[test]
fn ticks_schedule_refreshes_and_clear_status() {
    let mut app = App::new();
    app.set_status("hello".to_string());
    let mut sensors = 0;
    let mut cli = 0;
    for i in 1..=40u64 {
        let w = app.on_tick();
        if w.refresh_sensors {
            sensors += 1;
        }
        if w.refresh_cli {
            cli += 1;
        }
        if i == 19 {
            assert!(app.status_msg.is_some());
        }
        if i == 20 {
            assert!(app.status_msg.is_none());
        }
    }
    assert_eq!(sensors, 5);
    assert_eq!(cli, 1);
    assert_eq!(app.tick_count, 40);
}

#[test]
fn open_editors_take_global_keys() {
    // colour editor: q is not a hex digit and does nothing
    let mut app = App::new();
    app.tab = Tab::Aura;
    app.handle_key(ch('c'));
    assert!(app.aura_editing_color);
    assert!(app.handle_key(ch('q')).is_none());
    assert!(app.running);
    app.handle_key(key(KeyCode::Tab));
    assert_eq!(app.tab, Tab::Aura);
    app.handle_key(ch('?'));
    assert!(!app.show_help);
    // fan point editor: 2 does not jump to a tab
    let mut app = App::new();
    app.tab = Tab::Fans;
    app.handle_key(ch('e'));
    assert!(app.fan_editing);
    assert!(app.handle_key(ch('2')).is_none());
    assert_eq!(app.tab, Tab::Fans);
    assert!(app.running);
}

#[test]
fn handlers_can_be_called_directly() {
    let mut app = App::new();
    app.perf_selected = 2;
    assert!(app.handle_perf_key(key(KeyCode::Down)).is_none());
    assert_eq!(app.perf_selected, 2);
    let mut app = App::new();
    app.aura_editing_color = true;
    for c in ['a', 'B', '1', '2', '3', '4', '5'] {
        app.handle_aura_color_input(ch(c));
    }
    assert_eq!(app.aura_color_input, "aB1234");
    app.handle_aura_color_input(key(KeyCode::Backspace));
    assert_eq!(app.aura_color_input, "aB123");
    let mut app = App::new();
    assert!(matches!(app.handle_fan_key(ch('d')), Some(AppAction::ResetFanCurve)));
    app.handle_fan_key(key(KeyCode::Tab));
    assert_eq!(app.fan_selected_fan, 1);
}
