use gpusim::rat::Rat;

#[test]
fn rational_comparisons_are_exact() {
    // 1/3 equals 2/6 by cross-multiplication, though the fields differ.
    let a = Rat::new(1, 3);
    let b = Rat::new(2, 6);
    assert!(a.eq_rat(&b));
    assert_ne!(a, b);
    // 1/3 <= 2/6 <= 1/2
    let c = Rat::new(1, 2);
    assert!(a.le_rat(&b));
    assert!(b.le_rat(&c));
    assert!(!c.le_rat(&a));
}

#[test]
fn zero_and_one() {
    assert!(Rat::zero().is_zero());
    assert!(!Rat::one().is_zero());
    assert!(!Rat::new(0, 5).eq_rat(&Rat::one()));
    assert!(Rat::new(7, 7).eq_rat(&Rat::one()));
}
