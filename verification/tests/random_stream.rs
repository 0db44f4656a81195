use traffic_sim::rng::draw_below;
use traffic_sim::rng::draw_coin;
use traffic_sim::rng::draw_noise;
use traffic_sim::rng::draw_unit;
use traffic_sim::rng::new_rng;

#[test]
fn unit_draws_lie_in_the_unit_interval_and_vary() {
    let mut rng = new_rng(Some(17));
    let mut low = 0;
    let mut high = 0;
    let mut k = 0;
    while k < 1000 {
        let u = draw_unit(&mut rng);
        assert!(u >= 0 && u < 1_000_000);
        if u < 250_000 {
            low += 1;
        }
        if u >= 750_000 {
            high += 1;
        }
        k += 1;
    }
    assert!(low > 150 && low < 350, "{} draws lie in the lowest quarter", low);
    assert!(high > 150 && high < 350, "{} draws lie in the highest quarter", high);
}

#[test]
fn bounded_draws_lie_below_the_bound_and_reach_every_value() {
    let mut rng = new_rng(Some(18));
    let mut seen = [false; 7];
    let mut k = 0;
    while k < 500 {
        let v = draw_below(&mut rng, 7);
        assert!(v < 7);
        seen[v as usize] = true;
        k += 1;
    }
    assert_eq!(seen, [true; 7]);
    assert_eq!(draw_below(&mut rng, 1), 0);
}

#[test]
fn the_coin_falls_on_both_sides() {
    let mut rng = new_rng(Some(19));
    let mut heads = 0;
    let mut k = 0;
    while k < 1000 {
        if draw_coin(&mut rng) {
            heads += 1;
        }
        k += 1;
    }
    assert!(heads > 400 && heads < 600, "{} of a thousand throws were heads", heads);
}

#[test]
fn noise_scatters_around_one() {
    let mut rng = new_rng(Some(20));
    let mut sum: i64 = 0;
    let mut below = 0;
    let mut k = 0;
    while k < 2000 {
        let n = draw_noise(&mut rng, 20_000);
        assert!(n >= 880_000 && n <= 1_120_000, "the noise factor {} is out of range", n);
        if n < 1_000_000 {
            below += 1;
        }
        sum += n;
        k += 1;
    }
    let mean = sum / 2000;
    assert!((mean - 1_000_000).abs() < 3_000, "the mean noise factor is {}", mean);
    assert!(below > 800 && below < 1200);
    assert_eq!(draw_noise(&mut rng, 0), 1_000_000);
}

#[test]
fn a_seed_fixes_the_stream() {
    let mut a = new_rng(Some(5));
    let mut b = new_rng(Some(5));
    let mut c = new_rng(Some(6));
    let mut same = true;
    let mut differs = false;
    let mut k = 0;
    while k < 50 {
        let x = draw_unit(&mut a);
        let y = draw_unit(&mut b);
        let z = draw_unit(&mut c);
        if x != y {
            same = false;
        }
        if x != z {
            differs = true;
        }
        k += 1;
    }
    assert!(same);
    assert!(differs);
}

#[test]
fn a_stream_without_a_seed_can_be_drawn_from() {
    let mut rng = new_rng(None);
    let u = draw_unit(&mut rng);
    assert!(u >= 0 && u < 1_000_000);
}
