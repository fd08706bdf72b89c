use std::time::Duration;
use tira::spinner::Spinner;

#[test]
fn spinner_advances_one_frame_per_interval_and_keeps_the_rest() {
    let mut spinner = Spinner::default();
    assert_eq!(spinner.glyph(false), "⠋");
    spinner.tick(Duration::from_millis(79));
    assert_eq!(spinner.frame, 0);
    spinner.tick(Duration::from_millis(1));
    assert_eq!(spinner.frame, 1);
    assert_eq!(spinner.elapsed_nanos, 0);
    spinner.tick(Duration::from_millis(250));
    assert_eq!(spinner.frame, 4);
    assert_eq!(spinner.elapsed_nanos, 10_000_000);
    assert_eq!(spinner.glyph(false), "⠼");
    assert_eq!(spinner.glyph(true), "|");
}

#[test]
fn spinner_frames_cycle() {
    let mut spinner = Spinner::default();
    spinner.tick_nanos(80_000_000 * 13);
    assert_eq!(spinner.glyph(false), "⠸");
    assert_eq!(spinner.glyph(true), "/");
    spinner.frame = usize::MAX;
    spinner.tick_nanos(80_000_000);
    assert_eq!(spinner.frame, 0);
}
