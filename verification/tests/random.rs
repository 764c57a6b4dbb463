use magrathea::random::{draw_between, draw_fraction};

#[test]
fn draws_lie_in_their_interval() {
    for index in 0..2000u64 {
        let draw = draw_between(7, index, -3, 4);
        assert!((-3..=4).contains(&draw));
        assert_eq!(draw_between(7, index, 5, 5), 5);
        assert!(draw_fraction(7, index) <= 1_000_000);
    }
    assert_eq!(draw_between(1, 0, i64::MIN, i64::MIN), i64::MIN);
    let wide = draw_between(1, 0, i64::MIN, i64::MAX);
    assert!(wide >= i64::MIN);
}

#[test]
fn draws_reach_every_value_of_a_small_interval() {
    let mut seen = [false; 8];
    for index in 0..400u64 {
        seen[(draw_between(3, index, -3, 4) + 3) as usize] = true;
    }
    assert!(seen.iter().all(|&found| found));
}

#[test]
fn a_draw_depends_on_nothing_but_its_seed_and_its_number() {
    for seed in [0u64, 1, 99, u64::MAX] {
        for index in [0u64, 1, 2, 1000, 0x1000_0000] {
            let first = draw_between(seed, index, 0, 1_000_000_000);
            // other draws in between do not move it
            draw_between(seed, index / 2, 0, 10);
            draw_between(seed / 2, index, 0, 10);
            assert_eq!(draw_between(seed, index, 0, 1_000_000_000), first);
            assert_eq!(draw_fraction(seed, index), draw_fraction(seed, index));
        }
    }
}

#[test]
fn draws_of_other_seeds_and_numbers_differ() {
    let draws: Vec<i64> = (0..64u64).map(|index| draw_between(5, index, 0, i64::MAX)).collect();
    for (i, one) in draws.iter().enumerate() {
        for other in &draws[i + 1..] {
            assert_ne!(one, other);
        }
    }
    let seeds: Vec<i64> = (0..64u64).map(|seed| draw_between(seed, 0, 0, i64::MAX)).collect();
    for (i, one) in seeds.iter().enumerate() {
        for other in &seeds[i + 1..] {
            assert_ne!(one, other);
        }
    }
}

#[test]
fn fractions_spread_over_the_whole_interval() {
    let fractions: Vec<u32> = (0..1000u64).map(|index| draw_fraction(11, index)).collect();
    assert!(fractions.iter().any(|&fraction| fraction < 100_000));
    assert!(fractions.iter().any(|&fraction| fraction > 900_000));
    let mean = fractions.iter().map(|&fraction| fraction as u64).sum::<u64>() / 1000;
    assert!(mean > 400_000 && mean < 600_000);
}
