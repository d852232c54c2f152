use gangplank::selectable_text::{word_at, Selection};

#[test]
fn word_at_finds_boundaries() {
    assert_eq!(word_at("INFO tick_1 done", 7), 5..11);
    assert_eq!(word_at("INFO tick_1 done", 0), 0..4);
    assert_eq!(word_at("INFO tick_1 done", 4), 0..4);
    assert_eq!(word_at("a  b", 2), 2..2);
}

#[test]
fn word_at_counts_bytes_of_wide_characters() {
    // "é" is two bytes; "日本" six.
    assert_eq!(word_at("héllo wörld", 8), 7..13);
    assert_eq!(word_at("x 日本 y", 2), 2..8);
    assert_eq!(word_at("end", 3), 0..3);
}

#[test]
fn drag_selects_and_double_click_takes_a_word() {
    let text = "INFO tick_1 done";
    let mut sel: Selection<u32> = Selection::new();
    assert_eq!(sel.text(), None);
    sel.mouse_down(1, text, 5, 1);
    assert_eq!(sel.text(), None, "an empty selection reads as none");
    assert!(sel.mouse_move(&1, text, 11));
    assert_eq!(sel.text(), Some("tick_1"));
    assert_eq!(sel.range_in(&1), Some(5..11));
    assert_eq!(sel.range_in(&2), None);
    assert!(!sel.mouse_move(&1, text, 11), "same head, nothing to do");
    assert!(!sel.mouse_move(&2, text, 0), "another element does not drag this one");
    assert!(sel.mouse_up());
    assert!(!sel.mouse_move(&1, text, 0), "no drag after the button is up");

    // Dragging backwards keeps the range ordered.
    sel.mouse_down(1, text, 11, 1);
    sel.mouse_move(&1, text, 5);
    assert_eq!(sel.range(), 5..11);
    assert_eq!(sel.text(), Some("tick_1"));

    sel.mouse_down(2, "other line", 2, 2);
    assert_eq!(sel.text(), Some("other"));
    assert_eq!(sel.range_in(&1), None, "one owner at a time");
    assert_eq!(sel.range_in(&2), Some(0..5));
    assert!(!sel.mouse_up(), "a double-click does not drag");

    sel.clear();
    assert_eq!(sel.text(), None);
    assert_eq!(sel.range_in(&2), None);
}
