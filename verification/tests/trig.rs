use drone_optimizer::trig::{arcsine, sine, ARC_STEPS, HALF_PI, ONE, QUARTER_PI};

#[test]
fn sine_at_the_ends_of_the_quadrant() {
    assert_eq!(sine(0), 0);
    assert_eq!(sine(HALF_PI), ONE);
    assert_eq!(sine(1_000_000), 1_000_000);
}

#[test]
fn sine_at_known_angles() {
    assert_eq!(sine(QUARTER_PI), 707_106_781_186_547_524);
    assert_eq!(sine(523_598_775_598_298_873), 500_000_000_000_000_000);
}

#[test]
fn sine_agrees_with_floating_point() {
    let mut theta: u128 = 0;
    while theta <= HALF_PI {
        let got = sine(theta) as f64 / ONE as f64;
        let want = (theta as f64 / ONE as f64).sin();
        assert!((got - want).abs() < 1e-15, "{} against {}", got, want);
        theta += 7_853_981_633_974_483;
    }
}

#[test]
fn arcsine_at_known_values() {
    assert_eq!(arcsine(0), 0);
    assert_eq!(arcsine(ONE / 2), 523_598_775_599);
    assert_eq!(arcsine(707_106_781_186_547_524), 785_398_163_398);
    assert_eq!(arcsine(ONE), 1_570_796_325_381);
    assert!(arcsine(ONE) <= ARC_STEPS);
}

#[test]
fn arcsine_inverts_sine_on_the_grid() {
    let mut steps: u64 = 0;
    while steps <= ARC_STEPS - 2_000_000 {
        let s = sine(steps as u128 * 1_000_000);
        let back = arcsine(s);
        assert!(back <= steps);
        assert!(sine(back as u128 * 1_000_000) >= s);
        let got = back as f64 / 1e12;
        let want = (s as f64 / ONE as f64).asin();
        assert!((got - want).abs() < 1e-9, "{} against {}", got, want);
        steps += 15_707_963_267;
    }
}
