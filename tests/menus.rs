use i_o::menu::{key_selection, menu_line, menu_lines, menu_selection};

fn text(v: &[char]) -> String {
    v.iter().collect()
}

#[test]
fn numbered_menu_lines() {
    let items = vec!["Add", "Remove", "Quit"];
    let lines: Vec<String> = menu_lines(&items).iter().map(|l| text(l)).collect();
    assert_eq!(lines, vec!["  1) Add", "  2) Remove", "  3) Quit"]);
}

#[test]
fn menu_line_numbers_in_decimal() {
    assert_eq!(text(&menu_line(12, "Twelve")), "  12) Twelve");
    assert_eq!(text(&menu_line(0, "")), "  0) ");
}

#[test]
fn numbered_menu_keystrokes() {
    assert_eq!(menu_selection(b'2', 3), Some(2));
    assert_eq!(menu_selection(b'9', 3), None);
    assert_eq!(menu_selection(b'1', 3), Some(1));
    assert_eq!(menu_selection(b'3', 3), Some(3));
    assert_eq!(menu_selection(b'4', 3), None);
    assert_eq!(menu_selection(b'0', 3), None);
    assert_eq!(menu_selection(b'a', 3), None);
    assert_eq!(menu_selection(b'1', 0), None);
}

#[test]
fn numbered_menu_accepts_exactly_the_option_digits() {
    for n in 1usize..=9 {
        for key in 0u8..=255 {
            let expected = if key >= b'1' && ((key - b'0') as usize) <= n && key <= b'9' {
                Some(key - b'0')
            } else {
                None
            };
            assert_eq!(menu_selection(key, n), expected);
        }
    }
    assert_eq!(menu_selection(b'9', 12), Some(9));
}

#[test]
fn keyed_menu_returns_the_pressed_key() {
    let keys = vec!["a", "r", "e", "d", "s", "m", "q"];
    for k in &keys {
        let b = k.as_bytes()[0];
        assert_eq!(key_selection(b, &keys), Some(b as char));
    }
    assert_eq!(key_selection(b'z', &keys), None);
    assert_eq!(key_selection(b'A', &keys), None);
}

#[test]
fn keyed_menu_reads_the_first_character_only() {
    let keys = vec!["add", "", "xq"];
    assert_eq!(key_selection(b'a', &keys), Some('a'));
    assert_eq!(key_selection(b'x', &keys), Some('x'));
    assert_eq!(key_selection(b'd', &keys), None);
    assert_eq!(key_selection(b'q', &keys), None);
}

#[test]
fn title_is_spaced_out() {
    assert_eq!(text(&i_o::menu::spaced_title("MENU")), " M E N U");
    assert_eq!(text(&i_o::menu::spaced_title("")), "");
}
