use rog_control_center::tabs::Tab;

#[test]
fn next_cycles_through_all_tabs() {
    let mut t = Tab::Overview;
    let order = [Tab::Performance, Tab::Fans, Tab::Aura, Tab::Gpu, Tab::Battery, Tab::Overview];
    for expected in order {
        t = t.next();
        assert_eq!(t, expected);
    }
}

#[test]
fn prev_wraps_from_first_to_last() {
    assert_eq!(Tab::Overview.prev(), Tab::Battery);
    assert_eq!(Tab::Battery.prev(), Tab::Gpu);
}

#[test]
fn next_then_prev_returns() {
    for t in Tab::all() {
        assert_eq!(t.next().prev(), t);
        assert_eq!(t.prev().next(), t);
    }
}

#[test]
fn from_number_maps_keys_to_tabs() {
    assert_eq!(Tab::from_number(1), Some(Tab::Overview));
    assert_eq!(Tab::from_number(5), Some(Tab::Gpu));
    assert_eq!(Tab::from_number(6), Some(Tab::Battery));
    assert_eq!(Tab::from_number(7), None);
    assert_eq!(Tab::from_number(0), Some(Tab::Overview));
}

#[test]
fn titles() {
    assert_eq!(Tab::Gpu.title(), "GPU");
    assert_eq!(Tab::Overview.title(), "Overview");
    assert_eq!(Tab::Battery.title(), "Battery");
}
