use tira::input::{
    delete_backwards, delete_forwards, delete_to_end, delete_to_start, delete_word_left,
    delete_word_right, insert_char, move_left, move_right, move_word_left, move_word_right,
};

#[test]
fn insert_char_inserts_at_cursor() {
    let mut s = String::from("hello world");
    let mut cursor = 5;

    insert_char(&mut s, &mut cursor, '!');

    assert_eq!(s, "hello! world");
    assert_eq!(cursor, 6);
}

#[test]
fn delete_backwards_removes_char_before_cursor() {
    let mut s = String::from("hello! world");
    let mut cursor = 6;

    delete_backwards(&mut s, &mut cursor);

    assert_eq!(s, "hello world");
    assert_eq!(cursor, 5);
}

#[test]
fn move_word_left_jumps_to_word_start() {
    let s = String::from("hello world");
    let mut cursor = 5;

    move_word_left(&s, &mut cursor);

    assert_eq!(cursor, 0);
}

#[test]
fn move_word_right_jumps_to_word_end() {
    let s = String::from("hello world");
    let mut cursor = 0;

    move_word_right(&s, &mut cursor);

    assert_eq!(cursor, 5);
}

#[test]
fn delete_word_left_removes_preceding_word() {
    let mut s = String::from("hello world");
    let mut cursor = 11;

    delete_word_left(&mut s, &mut cursor);

    assert_eq!(s, "hello ");
    assert_eq!(cursor, 6);
}

#[test]
fn delete_word_right_removes_following_word() {
    let mut s = String::from("hello world");

    delete_word_right(&mut s, 5);

    assert_eq!(s, "hello");
}

#[test]
fn delete_to_end_truncates_from_cursor() {
    let mut s = String::from("hello world");

    delete_to_end(&mut s, 5);

    assert_eq!(s, "hello");
}

#[test]
fn delete_to_start_removes_up_to_cursor() {
    let mut s = String::from("hello world");
    let mut cursor = 6;

    delete_to_start(&mut s, &mut cursor);

    assert_eq!(s, "world");
    assert_eq!(cursor, 0);
}

#[test]
fn move_left_and_move_right_adjust_cursor() {
    let mut cursor = 2;

    move_left(&mut cursor);
    assert_eq!(cursor, 1);

    move_right("hello", &mut cursor);
    assert_eq!(cursor, 2);
}

#[test]
fn edits_at_the_ends_leave_text_alone() {
    let mut s = String::from("héllo");
    let mut cursor = 0;
    delete_backwards(&mut s, &mut cursor);
    assert_eq!((s.as_str(), cursor), ("héllo", 0));
    delete_forwards(&mut s, 5);
    assert_eq!(s, "héllo");
    delete_forwards(&mut s, 1);
    assert_eq!(s, "hllo");
    let mut end = 4;
    move_right("hllo", &mut end);
    assert_eq!(end, 4);
    move_left(&mut cursor);
    assert_eq!(cursor, 0);
}

#[test]
fn insert_then_delete_backwards_undoes_the_insert() {
    let mut s = String::from("ab");
    let mut cursor = 1;
    insert_char(&mut s, &mut cursor, 'é');
    delete_backwards(&mut s, &mut cursor);
    assert_eq!((s.as_str(), cursor), ("ab", 1));
}
