use gangplank::keys::Modifiers;
use gangplank::text_input::{KeyOutcome, TextInput};

const NONE: Modifiers = Modifiers { control: false, alt: false, shift: false, platform: false, function: false };
const SHIFT: Modifiers = Modifiers { control: false, alt: false, shift: true, platform: false, function: false };
const CMD: Modifiers = Modifiers { control: false, alt: false, shift: false, platform: true, function: false };
const CMD_SHIFT: Modifiers = Modifiers { control: false, alt: false, shift: true, platform: true, function: false };

fn typed(s: &str) -> TextInput {
    let mut t = TextInput::new();
    t.replace_text_in_range(None, s);
    t
}

fn key(t: &mut TextInput, k: &str, m: Modifiers) -> KeyOutcome {
    t.handle_key(k, m, None)
}

#[test]
fn insert_and_delete_at_both_ends() {
    let mut t = typed("héllo");
    assert_eq!(t.text(), "héllo");
    assert_eq!(t.cursor(), 5);

    key(&mut t, "delete", NONE);
    assert_eq!(t.text(), "héllo", "delete at end is a no-op");
    key(&mut t, "backspace", NONE);
    assert_eq!(t.text(), "héll");

    key(&mut t, "home", NONE);
    key(&mut t, "backspace", NONE);
    assert_eq!(t.text(), "héll", "backspace at start is a no-op");
    key(&mut t, "delete", NONE);
    assert_eq!(t.text(), "éll");
    assert_eq!(t.cursor(), 0);
}

#[test]
fn typing_replaces_the_selection() {
    let mut t = typed("abcdef");
    key(&mut t, "left", NONE);
    key(&mut t, "left", NONE);
    key(&mut t, "left", SHIFT);
    key(&mut t, "left", SHIFT);
    assert_eq!(t.selection(), Some(2..4));
    t.replace_text_in_range(None, "X");
    assert_eq!(t.text(), "abXef");
    assert_eq!(t.cursor(), 3);
    assert_eq!(t.selection(), None);
}

#[test]
fn home_end_and_cmd_arrows() {
    let mut t = typed("abc");
    key(&mut t, "home", NONE);
    assert_eq!(t.cursor(), 0);
    key(&mut t, "end", NONE);
    assert_eq!(t.cursor(), 3);
    key(&mut t, "left", CMD);
    assert_eq!(t.cursor(), 0);
    key(&mut t, "right", CMD_SHIFT);
    assert_eq!(t.selection(), Some(0..3));
    key(&mut t, "left", NONE);
    assert_eq!(t.cursor(), 0, "left collapses to the selection start");
}

#[test]
fn select_all_copy_cut_paste() {
    let mut t = typed("copy me");
    key(&mut t, "a", CMD);
    let copied = key(&mut t, "c", CMD);
    assert_eq!(copied, KeyOutcome::Copied("copy me".to_string()));
    let cut = key(&mut t, "x", CMD);
    assert_eq!(cut, KeyOutcome::Copied("copy me".to_string()));
    assert_eq!(t.text(), "");
    t.handle_key("v", CMD, Some("copy me"));
    t.handle_key("v", CMD, Some("copy me"));
    assert_eq!(t.text(), "copy mecopy me");
    assert_eq!(t.cursor(), 14);
}

#[test]
fn ime_marks_then_commits() {
    let mut t = typed("ab");
    key(&mut t, "left", NONE);
    // Pinyin-style: composition grows, then the candidate replaces it.
    t.replace_and_mark_text_in_range(None, "n", Some(1..1));
    t.replace_and_mark_text_in_range(None, "ni", Some(2..2));
    assert_eq!(t.text(), "anib");
    assert_eq!(t.marked_text_range(), Some(1..3));
    t.replace_text_in_range(None, "你");
    assert_eq!(t.marked_text_range(), None);
    assert_eq!(t.text(), "a你b");
    assert_eq!(t.cursor(), 2);

    // Ranges the IME sends are UTF-16; 你 is one unit, 𝄞 is two.
    key(&mut t, "end", NONE);
    t.replace_text_in_range(None, "𝄞");
    assert_eq!(t.text_for_range(1..5).0, "你b𝄞");
    assert_eq!(t.selected_text_range().range, 5..5);
}

#[test]
fn enter_goes_to_on_submit_and_newlines_stay_out() {
    let mut t = typed("go");
    assert_eq!(key(&mut t, "enter", NONE), KeyOutcome::Ignored);
    assert_eq!(key(&mut t, "escape", NONE), KeyOutcome::Ignored);
    assert_eq!(t.text(), "go");
    t.replace_text_in_range(None, "a\nb\r");
    assert_eq!(t.text(), "goab", "newlines never enter a one-line field");
    t.set_text("xy".to_string());
    assert_eq!((t.text(), t.cursor()), ("xy", 2));
}

#[test]
fn cursor_blinks_on_the_clock() {
    let mut t = typed("a");
    assert!(t.cursor_visible());
    t.blink();
    assert!(!t.cursor_visible(), "off after half a second");
    t.blink();
    assert!(t.cursor_visible(), "on again");
    t.blink();
    // An edit shows the cursor.
    t.replace_text_in_range(None, "b");
    assert!(t.cursor_visible());
    t.blink();
    t.stop_blink();
    assert!(t.cursor_visible(), "losing focus leaves the cursor shown");
}

#[test]
fn control_and_alt_keys_are_not_the_fields() {
    let mut t = typed("abc");
    let ctrl = Modifiers { control: true, ..NONE };
    let alt = Modifiers { alt: true, ..NONE };
    assert_eq!(key(&mut t, "left", ctrl), KeyOutcome::Ignored);
    assert_eq!(key(&mut t, "backspace", alt), KeyOutcome::Ignored);
    assert_eq!(t.cursor(), 3);
    assert_eq!(key(&mut t, "c", CMD), KeyOutcome::Handled, "copy with nothing selected");
}

#[test]
fn utf16_and_byte_offsets_agree() {
    let t = typed("a你𝄞b");
    assert_eq!((t.utf16(0), t.utf16(1), t.utf16(2), t.utf16(3), t.utf16(4)), (0, 1, 2, 4, 5));
    assert_eq!((t.byte(1), t.byte(2), t.byte(3), t.byte(4)), (1, 4, 8, 9));
    for ch in 0..=4 {
        assert_eq!(t.char_at_utf16(t.utf16(ch)), ch);
        assert_eq!(t.char_at_byte(t.byte(ch)), ch);
    }
    assert_eq!(t.char_at_utf16(3), 3, "inside a surrogate pair lands after it");
}

#[test]
fn mouse_drag_selects() {
    let mut t = typed("hello world");
    t.mouse_down(0, false);
    t.mouse_move(5);
    t.mouse_up();
    assert_eq!(t.selected_text(), Some("hello".to_string()));
    t.mouse_move(8);
    assert_eq!(t.selection(), Some(0..5), "no drag after mouse up");
    t.mouse_down(11, true);
    assert_eq!(t.selection(), Some(0..11), "shift-click extends the selection");
    t.mouse_down(2, false);
    assert_eq!((t.selection(), t.cursor()), (None, 2));
}

#[test]
fn delete_word_boundaries_and_move_to() {
    let mut t = typed("abc");
    t.move_to(1, false);
    t.insert("Z");
    assert_eq!(t.text(), "aZbc");
    t.select_all();
    t.backspace();
    assert_eq!(t.text(), "");
    t.paste(None);
    assert_eq!(t.text(), "");
    t.paste(Some("p\nq"));
    assert_eq!(t.text(), "pq");
    t.unmark_text();
    assert_eq!(t.copy(), None);
    t.home(true);
    assert_eq!(t.cut(), Some("pq".to_string()));
}

#[test]
fn reversed_range_inside_one_char_is_empty() {
    // 𝄞 is two UTF-16 units; offsets 1 and 2 both land after it.
    let mut t = typed("𝄞");
    assert_eq!(t.char_at_utf16(2), t.char_at_utf16(1));
    assert_eq!(t.text_for_range(2..1), (String::new(), 2..2));
    t.replace_text_in_range(Some(2..1), "x");
    assert_eq!(t.text_for_range(0..3).0, "𝄞x");
}
