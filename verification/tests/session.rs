use isomine::session::Session;

#[test]
fn session_starts_exactly_once() {
    let mut s = Session::new();
    assert!(!s.started);
    assert!(s.try_start());
    assert!(s.started);
    assert!(!s.try_start());
    assert!(!s.try_start());
    assert!(s.started);
}

#[test]
fn auto_mint_toggles_independently() {
    let mut s = Session::new();
    assert!(!s.auto_mint);
    s.enable_auto_mint();
    assert!(s.auto_mint);
    assert!(!s.started);
    s.disable_auto_mint();
    assert!(!s.auto_mint);
    assert!(s.try_start());
    s.enable_auto_mint();
    assert!(s.auto_mint && s.started);
}
