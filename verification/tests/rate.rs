use lcd_dashboard::rate::{counter_delta, NetSample, NetSpeed, RateError};

const SECOND: u64 = 1_000_000_000;

#[test]
fn delta_across_a_wrap() {
    assert_eq!(205, counter_delta(100, 50, 255));
}

#[test]
fn delta_without_a_wrap() {
    assert_eq!(50, counter_delta(50, 100, 255));
    assert_eq!(0, counter_delta(7, 7, 255));
    assert_eq!(255, counter_delta(0, 255, 255));
}

#[test]
fn delta_of_a_wide_counter() {
    assert_eq!(u64::MAX - 100 + 50, counter_delta(100, 50, u64::MAX));
    assert_eq!(u64::MAX - 1, counter_delta(u64::MAX, u64::MAX - 1, u64::MAX));
    assert_eq!(u64::MAX, counter_delta(0, u64::MAX, u64::MAX));
}

#[test]
fn speed_from_counters() {
    let speed = NetSpeed::from_bytes(SECOND, 1_250_000, 1_000_000).unwrap();
    assert_eq!(250_000, speed.bytes());
    assert_eq!(SECOND, speed.nanos());
    let wrapped = NetSpeed::from_bytes(SECOND, 50, 100).unwrap();
    assert_eq!(u64::MAX - 100 + 50, wrapped.bytes());
}

#[test]
fn speed_needs_an_interval() {
    assert_eq!(Err(RateError::InvalidInterval), NetSpeed::from_bytes(0, 10, 5));
    assert_eq!(Err(RateError::InvalidInterval), NetSpeed::from_bytes(0, 0, 0));
    assert!(NetSpeed::from_bytes(1, 10, 5).is_ok());
}

#[test]
fn megabits_per_second() {
    // 250 000 bytes in one second are 2 Mbit/s.
    let speed = NetSpeed::from_bytes(SECOND, 250_000, 0).unwrap();
    assert_eq!((2_000_000_000, SECOND), speed.mbps());
    assert_eq!(2, speed.mbps_ceil());
    // In half a second, twice as much.
    let fast = NetSpeed::from_bytes(SECOND / 2, 250_000, 0).unwrap();
    assert_eq!(4, fast.mbps_ceil());
    let (num, den) = fast.mbps();
    assert_eq!(4.0, num as f64 / den as f64);
}

#[test]
fn whole_megabits_round_up() {
    assert_eq!(0, NetSpeed::from_bytes(SECOND, 0, 0).unwrap().mbps_ceil());
    assert_eq!(1, NetSpeed::from_bytes(SECOND, 1, 0).unwrap().mbps_ceil());
    assert_eq!(1, NetSpeed::from_bytes(SECOND, 125_000, 0).unwrap().mbps_ceil());
    assert_eq!(2, NetSpeed::from_bytes(SECOND, 125_001, 0).unwrap().mbps_ceil());
    assert_eq!(
        u64::MAX as u128 * 8000,
        NetSpeed::from_bytes(1, u64::MAX, 0).unwrap().mbps_ceil()
    );
}

#[test]
fn linear_share_of_a_gigabit() {
    // 500 Mbit/s are half of the range.
    let half = NetSpeed::from_bytes(SECOND, 62_500_000, 0).unwrap().linear_display();
    assert_eq!((500_000_000, SECOND), (half.num(), half.den()));
    // 2 Gbit/s are held to the whole range.
    let over = NetSpeed::from_bytes(SECOND, 250_000_000, 0).unwrap().linear_display();
    assert_eq!((SECOND, SECOND), (over.num(), over.den()));
    let idle = NetSpeed::from_bytes(SECOND, 0, 0).unwrap().linear_display();
    assert_eq!((0, SECOND), (idle.num(), idle.den()));
    let huge = NetSpeed::from_bytes(3, u64::MAX, 0).unwrap().linear_display();
    assert_eq!((3, 3), (huge.num(), huge.den()));
}

#[test]
fn speeds_between_two_samples() {
    let last = NetSample { time: 5 * SECOND, rx_bytes: 1000, tx_bytes: 10 };
    let now = NetSample { time: 7 * SECOND, rx_bytes: 4000, tx_bytes: 5 };
    let speeds = now.speeds(&last).unwrap();
    assert_eq!(3000, speeds.rx.bytes());
    assert_eq!(2 * SECOND, speeds.rx.nanos());
    assert_eq!(u64::MAX - 10 + 5, speeds.tx.bytes());
    assert_eq!(2 * SECOND, speeds.tx.nanos());
}

#[test]
fn speeds_need_a_later_sample() {
    let last = NetSample { time: 5 * SECOND, rx_bytes: 1000, tx_bytes: 10 };
    let same = NetSample { time: 5 * SECOND, rx_bytes: 2000, tx_bytes: 20 };
    let earlier = NetSample { time: 4 * SECOND, rx_bytes: 2000, tx_bytes: 20 };
    assert_eq!(Err(RateError::InvalidInterval), same.speeds(&last));
    assert_eq!(Err(RateError::InvalidInterval), earlier.speeds(&last));
}
