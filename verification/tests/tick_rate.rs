use plotstore::tick::Tps;
use std::time::Duration;

#[test]
fn sentinel_unlimited_round_trip() {
    let t = Tps::from_data(0xFFFF_FFFF);
    assert!(matches!(t, Tps::Unlimited));
    assert_eq!(t.to_data(), 0xFFFF_FFFF);
}

#[test]
fn sentinel_bounded_values() {
    assert!(matches!(Tps::from_data(0), Tps::Limited(0)));
    assert!(matches!(Tps::from_data(10), Tps::Limited(10)));
    assert!(matches!(Tps::from_data(0xFFFF_FFFE), Tps::Limited(0xFFFF_FFFE)));
    assert_eq!(Tps::from_data(123).to_data(), 123);
}

#[test]
fn sleep_time_policy() {
    assert_eq!(Tps::Limited(20).sleep_time().as_micros(), 50_000);
    assert_eq!(Tps::Limited(10).sleep_time(), Duration::from_millis(50));
    assert_eq!(Tps::Limited(0).sleep_time(), Duration::from_millis(50));
    assert_eq!(Tps::Unlimited.sleep_time(), Duration::ZERO);
    assert_eq!(Tps::Limited(100).sleep_time().as_micros(), 10_000);
    // floored to whole microseconds
    assert_eq!(Tps::Limited(11).sleep_time().as_micros(), 90_909);
}

#[test]
fn display_rendering() {
    assert_eq!(Tps::Limited(12345).display_string(), "12345");
    assert_eq!(Tps::Limited(0).display_string(), "0");
    assert_eq!(Tps::Limited(10).display_string(), "10");
    assert_eq!(Tps::Limited(4_294_967_294).display_string(), "4294967294");
    assert_eq!(Tps::Unlimited.display_string(), "unlimited");
}
