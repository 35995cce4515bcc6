use isomine::float_text::FloatText;

#[test]
fn advances_sixty_times_then_expires() {
    let mut ft = FloatText::new(1000, 5000, "+1 Essence");
    for k in 1..=60i64 {
        assert!(ft.update(), "advance {} should still be alive", k);
        assert_eq!(ft.y, 5000 - 500 * k);
        assert_eq!(ft.x, 1000);
    }
    assert!(!ft.update());
    // an expired label no longer drifts
    assert_eq!(ft.y, 5000 - 500 * 60);
    assert!(!ft.update());
    assert_eq!(ft.y, 5000 - 500 * 60);
}

#[test]
fn label_text_is_kept() {
    let ft = FloatText::new(0, 0, "+1 Essence");
    assert_eq!(ft.text, "+1 Essence");
}

#[test]
fn drift_works_from_negative_heights() {
    let mut ft = FloatText::new(-7, -1000, "x");
    assert!(ft.update());
    assert_eq!(ft.y, -1500);
    assert_eq!(ft.x, -7);
}
