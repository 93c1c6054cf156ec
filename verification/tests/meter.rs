use jackdots::meter::PeakDisplay;

#[test]
fn hold_then_decay_ballistics() {
    let mut meter = PeakDisplay::new(68, 0);

    // A -20 dB block; the first render tick raises the marker to its bar.
    let frame = meter.update(Some(-2000), 100).expect("render tick");
    assert_eq!(meter.dpeak, 68);
    assert_eq!(meter.dtime, 100);
    assert_eq!(frame.db, Some(-20));

    // A louder block (-0.92 dB) raises the marker at once.
    assert!(meter.update(Some(-92), 150).is_none(), "throttled between ticks");
    let frame = meter.update(None, 200).expect("render tick");
    assert_eq!(meter.dpeak, 132);
    assert_eq!(meter.dtime, 200);
    assert_eq!(frame.db, Some(-1));

    // A quieter block within the hold window leaves the marker standing.
    let frame = meter.update(Some(-1398), 1700).expect("render tick");
    assert_eq!(meter.dpeak, 132);
    assert_eq!(meter.dtime, 200);
    assert_eq!(frame.db, Some(-14));

    // Past the 1600 ms hold, the marker falls back to the bar.
    let frame = meter.update(Some(-1398), 1900).expect("render tick");
    assert_eq!(meter.dpeak, 88);
    assert_eq!(frame.db, Some(-14));
}

#[test]
fn throttle_accumulates_peaks_between_ticks() {
    let mut meter = PeakDisplay::new(68, 0);
    assert!(meter.update(Some(-2000), 0).is_none());
    assert!(meter.update(Some(-500), 50).is_none());
    assert!(meter.update(Some(-3000), 80).is_none());
    let frame = meter.update(None, 100).expect("render tick");
    // The loudest of the accumulated blocks wins.
    assert_eq!(frame.db, Some(-5));
    assert_eq!(meter.dpeak, 119);
    // The running peak resets after a render.
    assert!(meter.peak.is_none());
}

#[test]
fn silent_render_shows_only_reference_ticks() {
    let mut meter = PeakDisplay::new(68, 0);
    let frame = meter.update(None, 100).expect("render tick");
    assert_eq!(frame.db, None);
    assert_eq!(meter.dpeak, 0);
    let glyphs = frame.glyphs;
    assert_eq!(glyphs.len(), 68);
    // Reference ticks land one sub-column left of their scale position,
    // on the top row: -60 dB at sub-column 2, -5 dB at 118, 0 dB at 135.
    assert_eq!(glyphs[0], '\u{2800}');
    assert_eq!(glyphs[1], '\u{2801}');
    assert_eq!(glyphs[59], '\u{2801}');
    assert_eq!(glyphs[67], '\u{2808}');
}

#[test]
fn full_level_render_lights_the_whole_bar() {
    let mut meter = PeakDisplay::new(68, 0);
    let frame = meter.update(Some(0), 100).expect("render tick");
    assert_eq!(frame.db, Some(0));
    assert_eq!(meter.dpeak, 136);
    let glyphs = frame.glyphs;
    // Bar rows on both sub-columns, no tick, no marker in the first cell.
    assert_eq!(glyphs[0], '\u{28E4}');
    // Last cell: bar, the 0 dB tick and the held marker together.
    assert_eq!(glyphs[67], '\u{28FC}');
}

#[test]
fn bar_ends_at_the_scale_position() {
    let mut meter = PeakDisplay::new(68, 0);
    let _ = meter.update(Some(-2000), 100).expect("render tick");
    let frame = meter.update(Some(-2000), 200).expect("render tick");
    let glyphs = frame.glyphs;
    // -20 dB reaches sub-column 68: cell 33 carries bar, marker and the
    // -20 dB tick; cell 34 is dark.
    assert_eq!(glyphs[33], '\u{28FC}');
    assert_eq!(glyphs[34], '\u{2800}');
}

#[test]
fn held_marker_lights_all_four_rows() {
    // Raise the marker to sub-column 6 (odd parity, cell 2), then render
    // a silent tick within the hold window: cell 2 shows the marker
    // alone, on all four rows.
    let mut meter = PeakDisplay::new(68, 0);
    let _ = meter.update(Some(-5600), 100).expect("render tick");
    assert_eq!(meter.dpeak, 6);
    let frame = meter.update(None, 200).expect("render tick");
    assert_eq!(meter.dpeak, 6);
    assert_eq!(frame.glyphs[2], '\u{28B8}');

    // The same at even parity: marker at sub-column 5 (cell 2).
    let mut meter = PeakDisplay::new(68, 0);
    let _ = meter.update(Some(-5750), 100).expect("render tick");
    assert_eq!(meter.dpeak, 5);
    let frame = meter.update(None, 200).expect("render tick");
    assert_eq!(frame.glyphs[2], '\u{2847}');
}

#[test]
fn rounding_is_half_away_from_zero() {
    let mut meter = PeakDisplay::new(68, 0);
    let frame = meter.update(Some(-50), 100).expect("render tick");
    assert_eq!(frame.db, Some(-1));
    let frame = meter.update(Some(-49), 200).expect("render tick");
    assert_eq!(frame.db, Some(0));
    let frame = meter.update(Some(150), 300).expect("render tick");
    assert_eq!(frame.db, Some(2));
}
