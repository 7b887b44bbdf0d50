use options_scanner::strategies::{
    ButterflyStrategy, CalendarStrategy, CheapDirectionalStrategy, CoveredCallStrategy, IronCondorStrategy,
    IvCrushStrategy, RatioSpreadStrategy, SpreadStrategy, StraddleStrategy, UnusualVolumeStrategy, WheelStrategy,
};

#[test]
fn dte_windows() {
    assert!(!UnusualVolumeStrategy.accepts_dte(0) && UnusualVolumeStrategy.accepts_dte(1) && UnusualVolumeStrategy.accepts_dte(900));
    assert!(IvCrushStrategy.accepts_dte(60) && !IvCrushStrategy.accepts_dte(61) && !IvCrushStrategy.accepts_dte(0));
    assert!(!WheelStrategy.accepts_dte(19) && WheelStrategy.accepts_dte(20) && !WheelStrategy.accepts_dte(61));
    assert!(!CheapDirectionalStrategy.accepts_dte(13) && CheapDirectionalStrategy.accepts_dte(90) && !CheapDirectionalStrategy.accepts_dte(91));
    assert!(SpreadStrategy.accepts_dte(14) && !SpreadStrategy.accepts_dte(13));
    assert!(StraddleStrategy.accepts_dte(7) && !StraddleStrategy.accepts_dte(6) && !StraddleStrategy.accepts_dte(61));
    assert!(CoveredCallStrategy.accepts_dte(60) && !CoveredCallStrategy.accepts_dte(61));
    assert!(ButterflyStrategy.accepts_dte(30) && !ButterflyStrategy.accepts_dte(10));
    assert!(IronCondorStrategy.accepts_dte(20) && !IronCondorStrategy.accepts_dte(19));
    assert!(RatioSpreadStrategy.accepts_dte(60) && !RatioSpreadStrategy.accepts_dte(61));
}

#[test]
fn activity_rules() {
    assert!(UnusualVolumeStrategy.accepts_activity(100, 1, 100));
    assert!(!UnusualVolumeStrategy.accepts_activity(99, 1, 100));
    assert!(!UnusualVolumeStrategy.accepts_activity(500, 0, 100));
    assert!(!WheelStrategy.accepts_volume(0) && WheelStrategy.accepts_volume(1));
    assert!(!IvCrushStrategy.accepts_volume(0) && IvCrushStrategy.accepts_volume(3));
    assert!(!CheapDirectionalStrategy.accepts_volume(9) && CheapDirectionalStrategy.accepts_volume(10));
}

#[test]
fn listing_rules() {
    assert!(!ButterflyStrategy.accepts_call_count(4) && ButterflyStrategy.accepts_call_count(5));
    assert!(!RatioSpreadStrategy.accepts_call_count(3) && RatioSpreadStrategy.accepts_call_count(4));
    assert!(IronCondorStrategy.accepts_wing_counts(2, 2));
    assert!(!IronCondorStrategy.accepts_wing_counts(1, 5) && !IronCondorStrategy.accepts_wing_counts(5, 1));
}

#[test]
fn calendar_rules() {
    let c = CalendarStrategy;
    assert!(!c.accepts_chain_count(1) && c.accepts_chain_count(2));
    assert!(c.accepts_near_dte(7) && c.accepts_near_dte(45) && !c.accepts_near_dte(46) && !c.accepts_near_dte(6));
    assert!(c.accepts_far_dte(30) && c.accepts_far_dte(90) && !c.accepts_far_dte(29) && !c.accepts_far_dte(91));
    assert!(c.accepts_gap(16, 30) && !c.accepts_gap(17, 30));
}
