use pi_series::series::{BaselPiCalc, LeibnizPiCalc, NilakanthaPiCalc};

fn as_f64(num: i128, den: i128) -> f64 {
    num as f64 / den as f64
}

#[test]
fn basel_one_update() {
    let mut b = BaselPiCalc::new();
    assert!(b.update());
    assert_eq!(b.iterations(), 1);
    let s = b.sum_frac();
    assert_eq!(s.num, 1);
    assert_eq!(s.den, 1);
    assert_eq!(as_f64(s.num, s.den), 1.0);
    let r = b.pi_squared_frac().unwrap();
    assert_eq!(r.num, 6);
    assert_eq!(r.den, 1);
    let estimate = as_f64(r.num, r.den).sqrt();
    assert_eq!(estimate, 6.0f64.sqrt());
    assert!((estimate - 2.449489742783178).abs() < 1e-12);
}

#[test]
fn basel_starts_at_zero() {
    let b = BaselPiCalc::new();
    assert_eq!(b.iterations(), 0);
    let s = b.sum_frac();
    assert_eq!(s.num, 0);
    assert_eq!(s.den, 1);
    // Before any update the estimate is 0: the sum is empty.
    let r = b.pi_squared_frac().unwrap();
    assert_eq!(as_f64(r.num, r.den).sqrt(), 0.0);
}

#[test]
fn leibniz_one_update() {
    let mut l = LeibnizPiCalc::new();
    assert!(l.update());
    let s = l.sum_frac();
    assert_eq!(s.num, 1);
    assert_eq!(s.den, 1);
    assert_eq!(as_f64(s.num, s.den), 1.0);
    let e = l.pi_frac().unwrap();
    assert_eq!(as_f64(e.num, e.den), 4.0);
    // The count the position derives: |x| == 3 after one update, so
    // (|x| - 1) / 2 == 1.
    assert_eq!(l.iterations(), 1);
}

#[test]
fn leibniz_two_updates() {
    let mut l = LeibnizPiCalc::new();
    assert!(l.update());
    assert!(l.update());
    let s = l.sum_frac();
    // 1/1 - 1/3 == 2/3, unreduced (1*3 - 1*1) / 3.
    assert_eq!(s.num, 2);
    assert_eq!(s.den, 3);
    assert!((as_f64(s.num, s.den) - (1.0 - 1.0 / 3.0)).abs() < 1e-15);
    let e = l.pi_frac().unwrap();
    assert_eq!(e.num, 8);
    assert_eq!(e.den, 3);
    assert!((as_f64(e.num, e.den) - 2.6666666666666665).abs() < 1e-12);
    assert_eq!(l.iterations(), 2);
}

#[test]
fn nilakantha_zero_updates() {
    let n = NilakanthaPiCalc::new();
    assert_eq!(n.iterations(), -2);
    let s = n.sum_frac();
    assert_eq!(s.num, 3);
    assert_eq!(s.den, 4);
    let e = n.pi_frac().unwrap();
    assert_eq!(e.num, 12);
    assert_eq!(e.den, 4);
    assert_eq!(as_f64(e.num, e.den), 3.0);
}

#[test]
fn nilakantha_one_update() {
    let mut n = NilakanthaPiCalc::new();
    assert!(n.update());
    assert_eq!(n.iterations(), 2);
    let s = n.sum_frac();
    // 3/4 + 1/(2*3*4) - 1/(4*5*6), unreduced over 4*24*120.
    assert_eq!(s.num, 9024);
    assert_eq!(s.den, 11520);
    let sum = as_f64(s.num, s.den);
    assert!((sum - (0.75 + 1.0 / 24.0 - 1.0 / 120.0)).abs() < 1e-15);
    let e = n.pi_frac().unwrap();
    let estimate = as_f64(e.num, e.den);
    assert!((estimate - 4.0 * (0.75 + 1.0 / 24.0 - 1.0 / 120.0)).abs() < 1e-15);
}

#[test]
fn basel_refuses_update_past_the_bound() {
    let mut b = BaselPiCalc::new();
    let mut steps: i128 = 0;
    while b.update() {
        steps += 1;
        assert!(steps < 100);
    }
    // The unreduced denominator is the squared factorial of the count;
    // the thirteenth update is the first to leave the bound.
    assert_eq!(steps, 12);
    assert_eq!(b.iterations(), 12);
    let before = b.sum_frac();
    assert!(!b.update());
    let after = b.sum_frac();
    assert_eq!(before, after);
    assert_eq!(b.iterations(), 12);
}

#[test]
fn leibniz_refuses_update_past_the_bound() {
    let mut l = LeibnizPiCalc::new();
    let mut steps: i128 = 0;
    while l.update() {
        steps += 1;
        assert!(steps < 100);
    }
    // The unreduced denominator is the product of the first `count` odd
    // numbers; the eighteenth update is the first to leave the bound.
    assert_eq!(steps, 17);
    assert_eq!(l.iterations(), 17);
    let before = l.sum_frac();
    assert!(!l.update());
    assert_eq!(before, l.sum_frac());
    // Here the numerator has grown past a quarter of the bound, so the
    // four-fold estimate is refused as well.
    assert!(l.pi_frac().is_none());
}

#[test]
fn nilakantha_refuses_update_past_the_bound() {
    let mut n = NilakanthaPiCalc::new();
    let mut steps: i128 = 0;
    while n.update() {
        steps += 1;
        assert!(steps < 100);
    }
    // The fourth update's telescoping pair leaves the bound.
    assert_eq!(steps, 3);
    assert_eq!(n.iterations(), 10);
    let before = n.sum_frac();
    assert!(!n.update());
    assert_eq!(before, n.sum_frac());
}
