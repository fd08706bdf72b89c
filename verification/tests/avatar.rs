use tira::avatar::{bubble_width, display_width, initials};

#[test]
fn initials_use_first_and_last_significant_name_parts() {
    assert_eq!(initials("Johan van der Brink"), "JB");
    assert_eq!(initials("Marlo Vlietstra"), "MV");
    assert_eq!(initials("Madonna"), "MA");
}

#[test]
fn initials_of_blank_or_particle_only_names() {
    assert_eq!(initials("   "), "??");
    assert_eq!(initials("van der"), "VD");
    assert_eq!(initials("ada lovelace"), "AL");
}

#[test]
fn avatar_widths_grow_with_a_name() {
    assert_eq!(bubble_width("Marlo Vlietstra"), 3);
    assert_eq!(bubble_width(""), 3);
    assert_eq!(display_width(""), 3);
    assert_eq!(display_width("Marlo Vlietstra"), bubble_width("Marlo Vlietstra") + 1 + 15);
}
