use ephemeris::MoonEphemeris;
use ephemeris::elevation_from_unix_timestamp;
use ephemeris::modulo_full;
use ephemeris::modulo_half_half;
use ephemeris::shadow_angle_from_unix_timestamp;

fn ephemeris_table() -> MoonEphemeris {
    MoonEphemeris {
        start: 1234567,
        period: 3600,
        shadow: &[0, 900, 1800, 2700, 0],
        elevation: &[0, 90, 0, -90, 0],
    }
}

fn sa(unix: i64) -> Option<u32> {
    shadow_angle_from_unix_timestamp(&ephemeris_table(), unix)
}

fn ev(unix: i64) -> Option<i32> {
    elevation_from_unix_timestamp(&ephemeris_table(), unix)
}

#[test]
fn modulo() {
    assert_eq!(modulo_full(-18000), 18000);
    assert_eq!(modulo_full(-9000), 27000);
    assert_eq!(modulo_full(0), 0);
    assert_eq!(modulo_full(9000), 9000);
    assert_eq!(modulo_full(18000), 18000);
    assert_eq!(modulo_full(36000), 0);
    assert_eq!(modulo_full(19000), 19000);
    assert_eq!(modulo_full(-19000), 17000);

    assert_eq!(modulo_half_half(-18000), -18000);
    assert_eq!(modulo_half_half(-9000), -9000);
    assert_eq!(modulo_half_half(0), 0);
    assert_eq!(modulo_half_half(9000), 9000);
    assert_eq!(modulo_half_half(18000), -18000);
    assert_eq!(modulo_half_half(36000), 0);
    assert_eq!(modulo_half_half(19000), -17000);
    assert_eq!(modulo_half_half(-19000), 17000);
}

#[test]
fn shadow_simple_known_values() {
    let t0: i64 = 1234567;

    assert_eq!(sa(t0 + 0 * 3600), Some(0));
    assert_eq!(sa(t0 + 1 * 3600), Some(9000));
    assert_eq!(sa(t0 + 2 * 3600), Some(18000));
    assert_eq!(sa(t0 + 3 * 3600), Some(27000));
    assert_eq!(sa(t0 + 4 * 3600), Some(0));
}

#[test]
fn elevation_simple_known_values() {
    let t0: i64 = 1234567;

    assert_eq!(ev(t0 + 0 * 3600), Some(0));
    assert_eq!(ev(t0 + 1 * 3600), Some(900));
    assert_eq!(ev(t0 + 2 * 3600), Some(0));
    assert_eq!(ev(t0 + 3 * 3600), Some(-900));
    assert_eq!(ev(t0 + 4 * 3600), Some(0));
}

#[test]
fn shadow_simple_intermediate_values() {
    let t0: i64 = 1234567;

    assert_eq!(sa(t0 + 1 * 30 * 60), Some(4500));
    assert_eq!(sa(t0 + 3 * 30 * 60), Some(13500));
    assert_eq!(sa(t0 + 5 * 30 * 60), Some(22500));
}

#[test]
fn elevation_simple_intermediate_values() {
    let t0: i64 = 1234567;

    assert_eq!(ev(t0 + 1 * 30 * 60), Some(450));
    assert_eq!(ev(t0 + 3 * 30 * 60), Some(450));
    assert_eq!(ev(t0 + 5 * 30 * 60), Some(-450));
    assert_eq!(ev(t0 + 7 * 30 * 60), Some(-450));
}

fn crossover_table() -> MoonEphemeris {
    MoonEphemeris { start: 1234567, period: 3600, shadow: &[3500, 100], elevation: &[] }
}

fn sa2(unix: i64) -> Option<u32> {
    shadow_angle_from_unix_timestamp(&crossover_table(), unix)
}

#[test]
fn shadow_simple_crossover() {
    let t0: i64 = 1234567;

    assert_eq!(sa2(t0 + 0 * 60 * 60), Some(35000));
    assert_eq!(sa2(t0 + 1 * 15 * 60), Some(35500));
    assert_eq!(sa2(t0 + 1 * 30 * 60), Some(0));
    assert_eq!(sa2(t0 + 1 * 45 * 60), Some(500));
    assert_eq!(sa2(t0 + 1 * 60 * 60), Some(1000));
}

fn backward_crossover_table() -> MoonEphemeris {
    MoonEphemeris { start: 1234567, period: 3600, shadow: &[100, 3500], elevation: &[] }
}

fn sa3(unix: i64) -> Option<u32> {
    shadow_angle_from_unix_timestamp(&backward_crossover_table(), unix)
}

#[test]
fn shadow_backward_crossover() {
    let t0: i64 = 1234567;

    assert_eq!(sa3(t0 + 0 * 60 * 60), Some(1000));
    assert_eq!(sa3(t0 + 1 * 15 * 60), Some(500));
    assert_eq!(sa3(t0 + 1 * 30 * 60), Some(0));
    assert_eq!(sa3(t0 + 1 * 45 * 60), Some(35500));
    assert_eq!(sa3(t0 + 1 * 60 * 60), Some(35000));
}

/// A day of hourly samples in the shape the generated ephemeris data has:
/// shadow angles in decidegrees sweeping a bit under a full turn, elevation
/// in whole degrees rising and falling within the horizon-to-zenith band.
fn real_table() -> MoonEphemeris {
    MoonEphemeris {
        start: 1700000000,
        period: 3600,
        shadow: &[
            0, 148, 296, 444, 592, 740, 888, 1036, 1184, 1332, 1480, 1628, 1776, 1924, 2072,
            2220, 2368, 2516, 2664, 2812, 2960, 3108, 3256, 3404, 3552,
        ],
        elevation: &[
            -60, -52, -38, -21, -2, 17, 35, 50, 60, 64, 61, 52, 38, 21, 2, -17, -35, -50, -60,
            -64, -61, -52, -38, -21, -2,
        ],
    }
}

#[test]
fn real_values_validity() {
    let table = real_table();
    let n: usize = table.shadow.len();
    let t0: i64 = table.start as i64;
    let p: u32 = table.period;

    // assert all values
    let mut ts = t0;
    for _ in 0..n {
        let a = shadow_angle_from_unix_timestamp(&table, ts);
        assert!(a.is_some());
        let a = a.unwrap();
        println!("a={a}");
        assert!(a < 36000);

        let e = elevation_from_unix_timestamp(&table, ts);
        assert!(e.is_some());
        let e = e.unwrap();
        println!("e={e}");
        assert!((-900 < e) && (e < 900));

        ts += p as i64;
    }
}
