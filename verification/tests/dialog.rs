use tira::dialog::{Dialog, Rect};

fn rect(x: u16, y: u16, width: u16, height: u16) -> Rect {
    Rect { x, y, width, height }
}

#[test]
fn dialog_is_centred_and_offset_from_the_top() {
    let dialog = Dialog::new("Help", 40, 10);
    assert_eq!(dialog.area(rect(0, 0, 100, 30)), rect(30, 1, 40, 10));
    assert_eq!(dialog.y_offset(5).area(rect(2, 3, 100, 30)), rect(32, 8, 40, 10));
}

#[test]
fn dialog_shrinks_to_a_small_area() {
    let dialog = Dialog::new("Log", 80, 40).y_offset(3);
    assert_eq!(dialog.area(rect(0, 0, 50, 20)), rect(0, 0, 50, 20));
    assert_eq!(dialog.area(rect(4, 4, 0, 0)), rect(4, 4, 1, 1));
    let short = Dialog::new("Log", 10, 18).y_offset(3);
    assert_eq!(short.area(rect(0, 0, 20, 20)), rect(5, 2, 10, 18));
}
