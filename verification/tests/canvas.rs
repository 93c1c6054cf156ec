use jackdots::canvas::Line;

#[test]
fn blank_line_renders_blank_glyphs() {
    let line = Line::new(3);
    assert_eq!(line.render(), vec!['\u{2800}', '\u{2800}', '\u{2800}']);
}

#[test]
fn full_cell_renders_full_braille_pattern() {
    let mut line = Line::new(1);
    for y in 0..4 {
        line.set(0, y);
        line.set(1, y);
    }
    assert_eq!(line.render(), vec!['\u{28FF}']);
}

#[test]
fn each_dot_has_its_braille_weight() {
    // (sub-column parity, row) -> bit weight of the Braille pattern.
    let weights = [
        ((0, 0), 0x01u32),
        ((0, 1), 0x02),
        ((0, 2), 0x04),
        ((0, 3), 0x40),
        ((1, 0), 0x08),
        ((1, 1), 0x10),
        ((1, 2), 0x20),
        ((1, 3), 0x80),
    ];
    for ((xp, y), w) in weights {
        let mut line = Line::new(1);
        line.set(xp, y);
        let glyphs = line.render();
        assert_eq!(glyphs.len(), 1);
        assert_eq!(glyphs[0] as u32, 0x2800 + w);
    }
}

#[test]
fn dots_accumulate_within_a_cell() {
    let mut line = Line::new(2);
    line.set(2, 0);
    line.set(3, 3);
    let glyphs = line.render();
    assert_eq!(glyphs[0], '\u{2800}');
    assert_eq!(glyphs[1] as u32, 0x2800 + (0x01 | 0x80));
}

#[test]
fn setting_a_dot_twice_changes_nothing_more() {
    let mut line = Line::new(1);
    line.set(0, 2);
    line.set(0, 2);
    assert_eq!(line.render(), vec!['\u{2804}']);
}
