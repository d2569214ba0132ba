use rusthydrus::time;
use rusthydrus::time_func;

#[test]
fn time_func_now_any_case() {
    assert_eq!(time_func::time_conv("now"), 0);
    assert_eq!(time_func::time_conv("NoW"), 0);
}

#[test]
fn time_func_day_and_hours() {
    assert_eq!(time_func::time_conv("1d12h"), 129600);
}

#[test]
fn time_func_units_in_order() {
    assert_eq!(time_func::time_conv("1y"), 31557600);
    assert_eq!(time_func::time_conv("1mo"), 2629800);
    assert_eq!(time_func::time_conv("2w"), 1209600);
    assert_eq!(time_func::time_conv("5m"), 300);
    assert_eq!(time_func::time_conv("7s"), 7);
    assert_eq!(time_func::time_conv("1w2d3h4m5s"), 604800 + 2 * 86400 + 3 * 3600 + 4 * 60 + 5);
}

#[test]
fn time_func_no_unit_is_zero() {
    assert_eq!(time_func::time_conv("abc"), 0);
}

#[test]
fn time_m_reads_minutes() {
    assert_eq!(time::time_conv("30m".to_string()), 1800);
    assert_eq!(time::time_conv("1mo".to_string()), 2629800);
    assert_eq!(time::time_conv("1d".to_string()), 86400);
    assert_eq!(time::time_conv("now".to_string()), 0);
    assert_eq!(time::time_conv("3d".to_string()), 259200);
}

#[test]
fn clock_reads_after_epoch() {
    assert!(time_func::time_secs() > 1_600_000_000);
    assert!(time::time_secs() > 1_600_000_000);
}
