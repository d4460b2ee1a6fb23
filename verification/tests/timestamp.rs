use ntpclient::ntp::NSEC_PER_SEC;
use ntpclient::{NTPTimestamp, Timespec};

#[test]
fn ntp_epoch_offset_maps_to_unix_zero() {
    let t = NTPTimestamp { seconds: 2208988800, fraction: 0 };
    assert_eq!(t.as_timespec(), Timespec { sec: 0, nsec: 0 });
}

#[test]
fn half_a_second_is_500_million_nanoseconds() {
    let t = NTPTimestamp { seconds: 2208988800, fraction: 1 << 31 };
    assert_eq!(t.as_timespec(), Timespec { sec: 0, nsec: 500_000_000 });
}

#[test]
fn quarters_of_a_second_are_exact() {
    let quarter = NTPTimestamp { seconds: 2208988801, fraction: 1 << 30 };
    assert_eq!(quarter.as_timespec(), Timespec { sec: 1, nsec: 250_000_000 });
    let three = NTPTimestamp { seconds: 2208988801, fraction: 3 << 30 };
    assert_eq!(three.as_timespec(), Timespec { sec: 1, nsec: 750_000_000 });
}

#[test]
fn ntp_zero_lies_before_the_unix_epoch() {
    let t = NTPTimestamp { seconds: 0, fraction: 0 };
    assert_eq!(t.as_timespec(), Timespec { sec: -2_208_988_800, nsec: 0 });
}

#[test]
fn largest_timestamp_stays_below_a_full_second() {
    let t = NTPTimestamp { seconds: u32::MAX, fraction: u32::MAX };
    assert_eq!(t.as_timespec(), Timespec { sec: 2_085_978_495, nsec: 999_999_999 });
}

#[test]
fn nanoseconds_round_down() {
    // One unit of fraction is about 0.23 ns; five make 1.16 ns.
    for (fraction, nsec) in [(1u32, 0), (4, 0), (5, 1), (8, 1), (9, 2), (4295, 1000)] {
        let t = NTPTimestamp { seconds: 2208988800, fraction };
        assert_eq!(t.as_timespec(), Timespec { sec: 0, nsec });
    }
    let t = NTPTimestamp { seconds: 2208988800, fraction: u32::MAX - 1 };
    assert_eq!(t.as_timespec().nsec, 999_999_999);
}

#[test]
fn nanoseconds_are_always_a_proper_fraction() {
    let mut fraction: u32 = 0;
    let mut last = -1;
    loop {
        let t = NTPTimestamp { seconds: 0, fraction }.as_timespec();
        assert!(0 <= t.nsec && t.nsec < NSEC_PER_SEC);
        assert!(t.nsec >= last);
        assert_eq!(t.nsec as u64, fraction as u64 * 1_000_000_000 / (1u64 << 32));
        last = t.nsec;
        match fraction.checked_add(0x00ff_f001) {
            Some(next) => fraction = next,
            None => break,
        }
    }
}

#[test]
fn conversion_agrees_with_the_real_quotient() {
    for fraction in [1u32 << 31, 1 << 20, 0x8d72_4a55, 0xdead_beef, u32::MAX] {
        let t = NTPTimestamp { seconds: 2208988800, fraction }.as_timespec();
        let exact = fraction as f64 / 4294967296.0 * 1e9;
        assert!((t.nsec as f64 - exact).abs() < 1.0);
        assert!(t.nsec as f64 <= exact);
    }
}
