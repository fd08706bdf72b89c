use tira::priority;
use tira::work_item_key;

#[test]
fn highest_and_lowest_use_double_icons() {
    assert_eq!(priority::icon("Highest"), "󰄿");
    assert_eq!(priority::icon("High"), "󰅃");
    assert_eq!(priority::icon("Medium"), "󰇼");
    assert_eq!(priority::icon("Low"), "󰅀");
    assert_eq!(priority::icon("Lowest"), "󰄼");
}

#[test]
fn fallback_icon_is_book() {
    assert_eq!(work_item_key::icon("Custom"), "");
}

#[test]
fn subtask_icon_covers_both_spellings() {
    assert_eq!(work_item_key::icon("Sub-task"), work_item_key::icon("Subtask"));
    assert_ne!(work_item_key::icon("Bug"), work_item_key::icon("Custom"));
}
