use jackdots::scale::iec_scale;

#[test]
fn silence_maps_to_zero() {
    assert_eq!(iec_scale(-7000, 136), 0);
    assert_eq!(iec_scale(-7001, 136), 0);
    assert_eq!(iec_scale(-90000, 136), 0);
    assert_eq!(iec_scale(i32::MIN, 136), 0);
}

#[test]
fn full_level_maps_to_width() {
    assert_eq!(iec_scale(0, 136), 136);
    assert_eq!(iec_scale(1, 136), 136);
    assert_eq!(iec_scale(600, 136), 136);
    assert_eq!(iec_scale(i32::MAX, 136), 136);
}

#[test]
fn curve_segments_exact() {
    // -60 dB: deflection 2.5% of 136 sub-columns, truncated.
    assert_eq!(iec_scale(-6000, 136), 3);
    // -50 dB: 7.5%.
    assert_eq!(iec_scale(-5000, 136), 10);
    // -40 dB: 15%.
    assert_eq!(iec_scale(-4000, 136), 20);
    // -35 dB: 22.5%.
    assert_eq!(iec_scale(-3500, 136), 30);
    // -30 dB: 30%.
    assert_eq!(iec_scale(-3000, 136), 40);
    // -20 dB: 50%.
    assert_eq!(iec_scale(-2000, 136), 68);
    // -10 dB: 75%.
    assert_eq!(iec_scale(-1000, 136), 102);
    // -5 dB: 87.5%.
    assert_eq!(iec_scale(-500, 136), 119);
}

#[test]
fn monotone_over_sweep() {
    let mut last = 0;
    let mut db = -7500;
    while db <= 500 {
        let pos = iec_scale(db, 136);
        assert!(pos >= last, "position fell from {} to {} at {} centi-dB", last, pos, db);
        assert!(pos <= 136);
        last = pos;
        db += 7;
    }
    assert_eq!(last, 136);
}

#[test]
fn widths_other_than_default() {
    assert_eq!(iec_scale(0, 1), 1);
    assert_eq!(iec_scale(-7000, 1), 0);
    assert_eq!(iec_scale(0, 0), 0);
    assert_eq!(iec_scale(-2000, 100), 50);
}
