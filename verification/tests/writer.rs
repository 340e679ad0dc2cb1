use display_adaptor::writer::{commit_write, format_brightness, plan_write};

#[test]
fn payload_is_decimal_ascii_with_nul() {
    assert_eq!(format_brightness(120), b"120\0");
    assert_eq!(format_brightness(0), b"0\0");
    assert_eq!(format_brightness(7), b"7\0");
    assert_eq!(format_brightness(-5), b"-5\0");
    assert_eq!(format_brightness(2147483647), b"2147483647\0");
    assert_eq!(format_brightness(-2147483648), b"-2147483648\0");
}

#[test]
fn equal_repeat_write_costs_one_syscall() {
    let mut last: i32 = -1;
    let mut syscalls = 0;
    // first write of 5: planned, performed, committed
    if let Some(payload) = plan_write(5, last) {
        assert_eq!(payload, b"5\0");
        syscalls += 1;
        commit_write(true, 5, &mut last);
    }
    // second write of the same value: suppressed
    if let Some(_) = plan_write(5, last) {
        syscalls += 1;
        commit_write(true, 5, &mut last);
    }
    assert_eq!(syscalls, 1);
    assert_eq!(last, 5);
}

#[test]
fn failed_write_keeps_last_value_pending() {
    let mut last: i32 = 3;
    let planned = plan_write(9, last);
    assert!(planned.is_some());
    // the raw write fails: last_val must not move
    commit_write(false, 9, &mut last);
    assert_eq!(last, 3);
    // so a later attempt at 9 is planned again
    assert!(plan_write(9, last).is_some());
}

#[test]
fn unchanged_value_plans_nothing() {
    assert!(plan_write(-1, -1).is_none());
    assert!(plan_write(42, 42).is_none());
    assert!(plan_write(42, 41).is_some());
}
