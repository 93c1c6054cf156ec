use jackdots::spectrum::{render_spectrum, spectrum_height, SpectrumWindow};

#[test]
fn window_keeps_most_recent_samples() {
    let mut window = SpectrumWindow::new(8);
    window.push_block(&vec![1, 2, 3, 4, 5]);
    assert_eq!(window.samples, vec![1, 2, 3, 4, 5]);
    window.push_block(&vec![6, 7, 8, 9, 10]);
    assert_eq!(window.samples, vec![3, 4, 5, 6, 7, 8, 9, 10]);
    window.push_block(&vec![11, 12, 13]);
    assert_eq!(window.samples, vec![6, 7, 8, 9, 10, 11, 12, 13]);
}

#[test]
fn one_oversized_block_is_truncated_to_its_tail() {
    let mut window = SpectrumWindow::new(4);
    window.push_block(&vec![1, 2, 3, 4, 5, 6, 7]);
    assert_eq!(window.samples, vec![4, 5, 6, 7]);
}

#[test]
fn window_fills_before_it_rolls() {
    let mut window = SpectrumWindow::new(6);
    assert!(!window.is_full());
    window.push_block(&vec![1, 2, 3]);
    assert!(!window.is_full());
    window.push_block(&vec![4, 5, 6]);
    assert!(window.is_full());
    assert_eq!(window.samples, vec![1, 2, 3, 4, 5, 6]);
    window.push_block(&vec![7]);
    assert!(window.is_full());
    assert_eq!(window.samples, vec![2, 3, 4, 5, 6, 7]);
}

#[test]
fn renders_only_full_windows_at_the_cadence() {
    let mut window = SpectrumWindow::new(4);
    window.push_block(&vec![1, 2, 3]);
    // Not full yet: never drawn, however much time has passed.
    assert!(!window.should_render(0, 500));
    window.push_block(&vec![4]);
    // Full, but inside the render interval.
    assert!(!window.should_render(500, 550));
    // Full and the interval has elapsed.
    assert!(window.should_render(500, 600));
}

#[test]
fn heights_follow_the_fixed_thresholds() {
    assert_eq!(spectrum_height(None), 0);
    assert_eq!(spectrum_height(Some(-9000)), 0);
    assert_eq!(spectrum_height(Some(-4001)), 0);
    assert_eq!(spectrum_height(Some(-4000)), 1);
    assert_eq!(spectrum_height(Some(-3001)), 1);
    assert_eq!(spectrum_height(Some(-3000)), 2);
    assert_eq!(spectrum_height(Some(-2000)), 3);
    assert_eq!(spectrum_height(Some(-1001)), 3);
    assert_eq!(spectrum_height(Some(-1000)), 4);
    assert_eq!(spectrum_height(Some(0)), 4);
    assert_eq!(spectrum_height(Some(300)), 4);
}

#[test]
fn columns_grow_from_the_bottom_row() {
    // Heights 4, 0, 3, 1 over two cells.
    let mags = vec![Some(0), None, Some(-1500), Some(-3500)];
    let glyphs = render_spectrum(&mags, 2);
    assert_eq!(glyphs.len(), 2);
    assert_eq!(glyphs[0] as u32, 0x2800 + 0x47);
    assert_eq!(glyphs[1] as u32, 0x2800 + (0x46 | 0x80));
}

#[test]
fn missing_bins_stay_dark() {
    let mags = vec![Some(0)];
    let glyphs = render_spectrum(&mags, 3);
    assert_eq!(glyphs, vec!['\u{2847}', '\u{2800}', '\u{2800}']);
}

#[test]
fn excess_bins_are_ignored() {
    let mags = vec![Some(0), Some(0), Some(0), Some(0), Some(-5000)];
    let glyphs = render_spectrum(&mags, 2);
    assert_eq!(glyphs, vec!['\u{28FF}', '\u{28FF}']);
}

#[test]
fn empty_spectrum_renders_blank() {
    let mags: Vec<Option<i32>> = Vec::new();
    let glyphs = render_spectrum(&mags, 4);
    assert_eq!(glyphs, vec!['\u{2800}'; 4]);
}
