use bioristor_lib::profiler::{
    cycles_to_ms, cycles_to_us, rolled_over, total_cycles, SYSTICK_RELOAD, SYSTICK_RESOLUTION,
};

#[test]
fn test_cycles_to_ms() {
    assert_eq!(cycles_to_ms::<1_000_000>(1_000_000), 1_000);
    assert_eq!(cycles_to_ms::<1_000_000>(1_000_000_000), 1_000_000);
}

#[test]
fn test_cycles_to_us() {
    assert_eq!(cycles_to_us::<1_000_000>(1_000), 1_000);
    assert_eq!(cycles_to_us::<1_000_000>(1_000_000), 1_000_000);
}

#[test]
fn cycles_round_down_to_whole_units() {
    assert_eq!(cycles_to_ms::<1_000_000>(999), 0);
    assert_eq!(cycles_to_ms::<1_000_000>(1_999), 1);
    assert_eq!(cycles_to_us::<3>(1), 333_333);
    assert_eq!(cycles_to_us::<3>(2), 666_666);
    assert_eq!(cycles_to_ms::<7>(7), 1_000);
    assert_eq!(cycles_to_ms::<216_000_000>(216_000_000), 1_000);
    assert_eq!(cycles_to_us::<80_000_000>(80), 1);
}

#[test]
fn cycles_of_no_time() {
    assert_eq!(cycles_to_ms::<1_000_000>(0), 0);
    assert_eq!(cycles_to_us::<1_000_000>(0), 0);
}

#[test]
fn cycles_saturate_at_the_largest_value() {
    assert_eq!(cycles_to_ms::<1>(u64::MAX), u32::MAX);
    assert_eq!(cycles_to_us::<1>(u64::MAX), u32::MAX);
    assert_eq!(cycles_to_us::<1>(4_294), 4_294_000_000);
    assert_eq!(cycles_to_us::<1>(4_295), u32::MAX);
    assert_eq!(cycles_to_ms::<1_000>(4_294_967_295), u32::MAX);
    assert_eq!(cycles_to_ms::<1_000>(4_294_967_296), u32::MAX);
    assert_eq!(cycles_to_ms::<1_000>(4_294_967_294), 4_294_967_294);
}

#[test]
fn cycles_of_a_stopped_clock() {
    assert_eq!(cycles_to_ms::<0>(0), 0);
    assert_eq!(cycles_to_us::<0>(0), 0);
    assert_eq!(cycles_to_ms::<0>(1), u32::MAX);
    assert_eq!(cycles_to_us::<0>(u64::MAX), u32::MAX);
}

#[test]
fn elapsed_time_never_decreases() {
    let mut last_ms = 0;
    let mut last_us = 0;
    let mut cycles: u64 = 0;
    while cycles < 2_000_000 {
        let ms = cycles_to_ms::<48_000>(cycles);
        let us = cycles_to_us::<48_000>(cycles);
        assert!(ms >= last_ms);
        assert!(us >= last_us);
        last_ms = ms;
        last_us = us;
        cycles += 7_919;
    }
}

#[test]
fn a_fresh_timer_has_counted_nothing() {
    assert_eq!(total_cycles(0, SYSTICK_RELOAD), 0);
}

#[test]
fn cycles_are_counted_down_from_the_reload_value() {
    assert_eq!(total_cycles(0, SYSTICK_RELOAD - 1), 1);
    assert_eq!(total_cycles(0, 0x00FF_FF00), 255);
    assert_eq!(total_cycles(0, 0), 0x00FF_FFFF);
    assert_eq!(total_cycles(1, SYSTICK_RELOAD), 0x0100_0000);
    assert_eq!(total_cycles(1, SYSTICK_RELOAD), SYSTICK_RESOLUTION);
    assert_eq!(total_cycles(3, 0x00FF_FFF0), 3 * 0x0100_0000 + 15);
    assert_eq!(total_cycles(u32::MAX, 0), 0x00FF_FFFF_FFFF_FFFF);
}

#[test]
fn a_reading_not_below_the_last_tells_of_a_rollover() {
    assert!(!rolled_over(100, 99));
    assert!(!rolled_over(SYSTICK_RELOAD, 0));
    assert!(rolled_over(99, 100));
    assert!(rolled_over(0, SYSTICK_RELOAD));
    assert!(rolled_over(5, 5));
}
