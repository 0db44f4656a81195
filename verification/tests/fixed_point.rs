use traffic_sim::fixed::atan2_fx;
use traffic_sim::fixed::cos_fx;
use traffic_sim::fixed::deg_to_rad;
use traffic_sim::fixed::fx_abs;
use traffic_sim::fixed::fx_clamp;
use traffic_sim::fixed::fx_div;
use traffic_sim::fixed::fx_max;
use traffic_sim::fixed::fx_min;
use traffic_sim::fixed::fx_mul;
use traffic_sim::fixed::hypot;
use traffic_sim::fixed::isqrt;
use traffic_sim::fixed::mul_div;
use traffic_sim::fixed::narrow;
use traffic_sim::fixed::rad_to_deg;
use traffic_sim::fixed::sat_add;
use traffic_sim::fixed::sat_sub;
use traffic_sim::fixed::sin_fx;
use traffic_sim::fixed::wrap_angle;
use traffic_sim::fixed::HALF_PI;
use traffic_sim::fixed::LIMIT;
use traffic_sim::fixed::PI;
use traffic_sim::fixed::QUARTER_PI;
use traffic_sim::fixed::SCALE;
use traffic_sim::fixed::TWO_PI;

#[test]
fn product_of_fixed_point_values() {
    assert_eq!(fx_mul(2_500_000, 4_000_000), 10_000_000);
    assert_eq!(fx_mul(-2_500_000, 4_000_000), -10_000_000);
    assert_eq!(fx_mul(1, 1), 0);
    assert_eq!(fx_mul(-1_500_000, 1), -1);
    assert_eq!(fx_mul(SCALE, 123_456_789), 123_456_789);
}

#[test]
fn product_saturates_at_the_limit() {
    assert_eq!(fx_mul(LIMIT, LIMIT), LIMIT);
    assert_eq!(fx_mul(LIMIT, -LIMIT), -LIMIT);
    assert_eq!(fx_mul(i64::MIN, i64::MIN), LIMIT);
}

#[test]
fn quotient_of_fixed_point_values() {
    assert_eq!(fx_div(10_000_000, 4_000_000), 2_500_000);
    assert_eq!(fx_div(1_000_000, 3_000_000), 333_333);
    assert_eq!(fx_div(-1_000_000, 3_000_000), -333_333);
    assert_eq!(fx_div(1_000_000, -3_000_000), -333_333);
    assert_eq!(fx_div(-1_000_000, -3_000_000), 333_333);
    assert_eq!(fx_div(LIMIT, 1), LIMIT);
}

#[test]
fn product_over_divisor_rounds_once() {
    assert_eq!(mul_div(10, 10, 3), 33);
    assert_eq!(mul_div(-10, 10, 3), -33);
    assert_eq!(mul_div(7, 1, 2), 3);
    assert_eq!(mul_div(-7, 1, 2), -3);
    assert_eq!(mul_div(LIMIT, LIMIT, LIMIT), LIMIT);
}

#[test]
fn sums_and_differences_saturate() {
    assert_eq!(sat_add(1, 2), 3);
    assert_eq!(sat_add(LIMIT, 1), LIMIT);
    assert_eq!(sat_add(-LIMIT, -5), -LIMIT);
    assert_eq!(sat_sub(5, 7), -2);
    assert_eq!(sat_sub(-LIMIT, 2), -LIMIT);
    assert_eq!(sat_sub(0, i64::MIN), LIMIT);
    assert_eq!(narrow(i128::MAX), LIMIT);
    assert_eq!(narrow(-170), -170);
}

#[test]
fn minimum_maximum_clamp_and_magnitude() {
    assert_eq!(fx_min(3, -4), -4);
    assert_eq!(fx_max(3, -4), 3);
    assert_eq!(fx_clamp(5, 10, 20), 10);
    assert_eq!(fx_clamp(25, 10, 20), 20);
    assert_eq!(fx_clamp(15, 10, 20), 15);
    assert_eq!(fx_abs(-7), 7);
    assert_eq!(fx_abs(i64::MIN), LIMIT);
}

#[test]
fn integer_square_root_rounds_down() {
    assert_eq!(isqrt(0), 0);
    assert_eq!(isqrt(1), 1);
    assert_eq!(isqrt(15), 3);
    assert_eq!(isqrt(16), 4);
    assert_eq!(isqrt(2_000_000_000_000), 1_414_213);
    assert_eq!(isqrt(u128::MAX), 18_446_744_073_709_551_615);
}

#[test]
fn length_of_a_vector() {
    assert_eq!(hypot(3_000_000, 4_000_000), 5_000_000);
    assert_eq!(hypot(-3_000_000, 4_000_000), 5_000_000);
    assert_eq!(hypot(0, 0), 0);
    assert_eq!(hypot(1_000_000, 1_000_000), 1_414_213);
    assert_eq!(hypot(i64::MIN, i64::MIN), LIMIT);
}

#[test]
fn angles_wrap_into_one_turn() {
    assert_eq!(wrap_angle(0), 0);
    assert_eq!(wrap_angle(TWO_PI), 0);
    assert_eq!(wrap_angle(TWO_PI + 100), 100);
    assert_eq!(wrap_angle(-1), TWO_PI - 1);
    assert_eq!(wrap_angle(-TWO_PI), 0);
    assert_eq!(wrap_angle(-HALF_PI), TWO_PI - HALF_PI);
}

#[test]
fn sine_and_cosine_at_the_quarter_turns() {
    assert_eq!(sin_fx(0), 0);
    assert_eq!(cos_fx(0), SCALE);
    assert_eq!(sin_fx(HALF_PI), SCALE);
    assert_eq!(cos_fx(HALF_PI), 0);
    assert_eq!(sin_fx(PI), 0);
    assert_eq!(cos_fx(PI), -SCALE);
    assert_eq!(sin_fx(PI + HALF_PI), -SCALE);
    assert_eq!(cos_fx(PI + HALF_PI), 0);
    assert_eq!(sin_fx(-HALF_PI), -SCALE);
}

#[test]
fn sine_and_cosine_between_the_quarter_turns() {
    assert_eq!(sin_fx(523_599), 500_000);
    assert_eq!(cos_fx(523_599), 864_864);
    assert_eq!(sin_fx(1_047_198), 864_865);
    assert_eq!(cos_fx(1_047_198), 499_999);
    assert_eq!(sin_fx(QUARTER_PI), 705_882);
    assert_eq!(cos_fx(QUARTER_PI), 705_882);
    assert_eq!(sin_fx(TWO_PI + 100), 101);
}

#[test]
fn sine_stays_close_to_the_true_sine() {
    let mut a: i64 = -TWO_PI;
    while a <= 2 * TWO_PI {
        let exact = ((a as f64) / 1e6).sin();
        let got = (sin_fx(a) as f64) / 1e6;
        assert!((exact - got).abs() < 0.002, "sine of {} is {} but should be near {}", a, got, exact);
        let exact_cos = ((a as f64) / 1e6).cos();
        let got_cos = (cos_fx(a) as f64) / 1e6;
        assert!((exact_cos - got_cos).abs() < 0.002);
        a += 10_007;
    }
}

#[test]
fn direction_of_a_vector() {
    assert_eq!(atan2_fx(0, 0), 0);
    assert_eq!(atan2_fx(1_000_000, 1_000_000), QUARTER_PI);
    assert_eq!(atan2_fx(1, 0), HALF_PI);
    assert_eq!(atan2_fx(0, -5), PI);
    assert_eq!(atan2_fx(-3, 0), -HALF_PI);
    assert_eq!(atan2_fx(500_000, 1_000_000), 460_949);
    assert_eq!(atan2_fx(-1000, -1000), -2_356_194);
}

#[test]
fn direction_stays_close_to_the_true_arctangent() {
    let mut k: i64 = -50;
    while k <= 50 {
        let mut m: i64 = -50;
        while m <= 50 {
            if k != 0 || m != 0 {
                let exact = (k as f64).atan2(m as f64);
                let got = (atan2_fx(k * 1000, m * 1000) as f64) / 1e6;
                let mut diff = (exact - got).abs();
                if diff > 3.0 {
                    diff = (diff - 6.283185).abs();
                }
                assert!(diff < 0.005, "direction of ({}, {}) is {} but should be near {}", m, k, got, exact);
            }
            m += 7;
        }
        k += 7;
    }
}

#[test]
fn degrees_and_radians() {
    assert_eq!(deg_to_rad(180_000_000), PI);
    assert_eq!(deg_to_rad(90_000_000), HALF_PI);
    assert_eq!(deg_to_rad(0), 0);
    assert_eq!(rad_to_deg(HALF_PI), 90_000_000);
    assert_eq!(rad_to_deg(PI), 180_000_000);
}
