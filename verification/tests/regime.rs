use ewm::{select_regime, EwmError, Regime};

#[test]
fn one_selects_the_degenerate_regime() {
    assert_eq!(select_regime(true, true, false), Ok(Regime::Degenerate));
    assert_eq!(select_regime(true, false, false), Ok(Regime::Degenerate));
    assert_eq!(select_regime(true, true, true), Ok(Regime::Degenerate));
    assert_eq!(select_regime(true, false, true), Ok(Regime::Degenerate));
}

#[test]
fn the_open_interval_selects_the_recurrence() {
    assert_eq!(select_regime(false, true, true), Ok(Regime::Recurrence));
}

#[test]
fn everything_else_is_rejected() {
    assert_eq!(select_regime(false, false, true), Err(EwmError::InvalidAlpha));
    assert_eq!(select_regime(false, true, false), Err(EwmError::InvalidAlpha));
    assert_eq!(select_regime(false, false, false), Err(EwmError::InvalidAlpha));
}
