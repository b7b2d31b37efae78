use clibuddy_sidebar::forms::{
    Button, ButtonVariant, Dropdown, DropdownOption, FilePicker, FilePickerFilter, TextInput, Toggle,
};
use clibuddy_sidebar::markdown::ListMarkers;
use clibuddy_sidebar::validation::{u64_to_string, FormValidator};

fn input(value: &str) -> TextInput {
    TextInput::new().with_value(value.to_string())
}

#[test]
fn text_input_typing_and_backspace() {
    let mut t = TextInput::new();
    t.insert_char('a');
    t.insert_char('b');
    assert_eq!(t.value, "ab");
    assert_eq!(t.cursor_pos, 2);
    t.backspace();
    assert_eq!(t.value, "a");
    assert_eq!(t.cursor_pos, 1);
}

#[test]
fn text_input_backspace_undoes_typing() {
    let mut t = input("abc");
    t.move_left();
    t.move_left();
    assert_eq!(t.cursor_pos, 1);
    t.insert_char('\u{e9}');
    assert_eq!(t.value, "a\u{e9}bc");
    t.backspace();
    assert_eq!(t.value, "abc");
    assert_eq!(t.cursor_pos, 1);
    assert_eq!(t.selection_start, None);
}

#[test]
fn text_input_with_value_puts_cursor_at_byte_end() {
    let t = input("h\u{e9}llo");
    assert_eq!(t.cursor_pos, 6);
}

#[test]
fn text_input_respects_max_length_and_disabled() {
    let mut t = input("abc").with_max_length(3);
    t.insert_char('d');
    assert_eq!(t.value, "abc");
    let mut d = input("x").disabled(true);
    d.insert_char('y');
    d.backspace();
    d.delete();
    assert_eq!(d.value, "x");
}

#[test]
fn text_input_selection_is_replaced_by_typing() {
    let mut t = input("hello");
    t.select_all();
    assert_eq!(t.selection_start, Some(0));
    assert_eq!(t.cursor_pos, 5);
    t.insert_char('x');
    assert_eq!(t.value, "x");
    assert_eq!(t.cursor_pos, 1);
    assert_eq!(t.selection_start, None);
}

#[test]
fn text_input_backspace_and_delete_remove_selection() {
    let mut t = input("hello");
    t.select_all();
    t.backspace();
    assert_eq!(t.value, "");
    let mut u = input("hello");
    u.selection_start = Some(1);
    u.cursor_pos = 3;
    u.delete();
    assert_eq!(u.value, "hlo");
    assert_eq!(u.cursor_pos, 1);
}

#[test]
fn text_input_delete_and_cursor_moves() {
    let mut t = input("ab");
    t.move_home();
    assert_eq!(t.cursor_pos, 0);
    t.move_left();
    assert_eq!(t.cursor_pos, 0);
    t.backspace();
    assert_eq!(t.value, "ab");
    t.delete();
    assert_eq!(t.value, "b");
    t.move_end();
    assert_eq!(t.cursor_pos, 1);
    t.move_right();
    assert_eq!(t.cursor_pos, 1);
    t.delete();
    assert_eq!(t.value, "b");
    t.clear();
    assert_eq!(t.value, "");
    assert_eq!(t.cursor_pos, 0);
}

#[test]
fn text_input_builders() {
    let t = TextInput::new()
        .with_placeholder("name".to_string())
        .with_error(Some("bad".to_string()));
    assert_eq!(t.placeholder, "name");
    assert_eq!(t.error, Some("bad".to_string()));
    assert!(!t.focused);
    assert_eq!(t.max_length, None);
}

#[test]
fn button_ignores_pointer_when_disabled() {
    let mut b = Button::new("OK".to_string()).variant(ButtonVariant::Danger);
    assert_eq!(b.variant, ButtonVariant::Danger);
    b.set_hovered(true);
    b.set_pressed(true);
    assert!(b.hovered && b.pressed);
    let mut d = Button::new("No".to_string()).disabled(true);
    d.set_hovered(true);
    d.set_pressed(true);
    assert!(!d.hovered && !d.pressed);
    assert_eq!(Button::new("x".to_string()).variant, ButtonVariant::Primary);
}

#[test]
fn toggle_flips_unless_disabled() {
    let mut t = Toggle::new(false);
    t.toggle();
    assert!(t.checked);
    t.set_hovered(true);
    assert!(t.hovered);
    let mut d = Toggle::new(true).disabled(true);
    d.toggle();
    d.set_hovered(true);
    assert!(d.checked);
    assert!(!d.hovered);
}

#[test]
fn dropdown_selection() {
    let opts = vec![
        DropdownOption { value: "a".to_string(), label: "A".to_string() },
        DropdownOption { value: "b".to_string(), label: "B".to_string() },
    ];
    let mut d = Dropdown::new().with_options(opts).with_placeholder("Pick".to_string());
    assert_eq!(d.placeholder, "Pick");
    assert_eq!(Dropdown::new().placeholder, "Select...");
    assert_eq!(d.get_selected_value(), None);
    d.toggle_open();
    assert!(d.open);
    d.select(1);
    assert!(!d.open);
    assert_eq!(d.get_selected_value(), Some("b"));
    d.select(5);
    assert_eq!(d.selected, Some(1));
    let mut off = Dropdown::new().disabled(true);
    off.toggle_open();
    assert!(!off.open);
}

#[test]
fn file_picker_starts_empty() {
    let p = FilePicker::new();
    assert!(p.path.is_none());
    assert!(matches!(p.filter, FilePickerFilter::All));
    assert!(!p.disabled);
}

#[test]
fn validator_required() {
    assert_eq!(FormValidator::required("  \t"), Some("This field is required".to_string()));
    assert_eq!(FormValidator::required(""), Some("This field is required".to_string()));
    assert_eq!(FormValidator::required(" a "), None);
}

#[test]
fn validator_email_uses_pattern() {
    assert_eq!(FormValidator::email("user@example.com"), None);
    assert_eq!(FormValidator::email("userexample.com"), Some("Invalid email format".to_string()));
    assert_eq!(FormValidator::email("a b@c.d"), Some("Invalid email format".to_string()));
    assert_eq!(FormValidator::email("   "), None);
}

#[test]
fn validator_lengths() {
    assert_eq!(FormValidator::min_length("ab", 3), Some("Must be at least 3 characters".to_string()));
    assert_eq!(FormValidator::min_length("abc", 3), None);
    assert_eq!(FormValidator::max_length("abcd", 3), Some("Must be at most 3 characters".to_string()));
    assert_eq!(FormValidator::max_length("abc", 3), None);
    // lengths count bytes
    assert_eq!(FormValidator::max_length("\u{e9}\u{e9}", 3), Some("Must be at most 3 characters".to_string()));
    assert_eq!(FormValidator::min_length("", 12), Some("Must be at least 12 characters".to_string()));
}

#[test]
fn validator_numeric_follows_float_grammar() {
    for ok in ["4.2", "1e5", "1E+5", "-.5", "+3.", "inf", "-Infinity", "NaN", "007", ""] {
        assert_eq!(FormValidator::numeric(ok), None, "{}", ok);
    }
    for bad in ["abc", ".", "e5", "1e", "1.2.3", " 1", "1_000", "0x10", "--1"] {
        assert_eq!(FormValidator::numeric(bad), Some("Must be a valid number".to_string()), "{}", bad);
    }
}

#[test]
fn validator_integer_range() {
    assert_eq!(FormValidator::integer("-42"), None);
    assert_eq!(FormValidator::integer("+7"), None);
    assert_eq!(FormValidator::integer("9223372036854775807"), None);
    assert_eq!(FormValidator::integer("-9223372036854775808"), None);
    assert_eq!(
        FormValidator::integer("9223372036854775808"),
        Some("Must be a valid integer".to_string())
    );
    assert_eq!(FormValidator::integer("4.2"), Some("Must be a valid integer".to_string()));
    assert_eq!(FormValidator::integer("-"), Some("Must be a valid integer".to_string()));
}

#[test]
fn integers_are_numbers_and_ports_are_integers() {
    for v in ["0", "-12", "+5", "65535", "123456789012"] {
        if FormValidator::integer(v).is_none() {
            assert_eq!(FormValidator::numeric(v), None);
        }
        if FormValidator::port(v).is_none() {
            assert_eq!(FormValidator::integer(v), None);
        }
    }
}

#[test]
fn validator_port() {
    let msg = Some("Invalid port number (must be 1-65535)".to_string());
    assert_eq!(FormValidator::port("8080"), None);
    assert_eq!(FormValidator::port("+80"), None);
    assert_eq!(FormValidator::port("65535"), None);
    assert_eq!(FormValidator::port("0"), msg);
    assert_eq!(FormValidator::port("65536"), msg);
    assert_eq!(FormValidator::port("-1"), msg);
    assert_eq!(FormValidator::port("http"), msg);
    assert_eq!(FormValidator::port(""), None);
}

#[test]
fn validator_url() {
    assert_eq!(FormValidator::url("https://example.com/path"), None);
    assert_eq!(FormValidator::url("not a url"), Some("Invalid URL format".to_string()));
    assert_eq!(FormValidator::url(""), None);
}

#[test]
fn validator_hostname() {
    assert_eq!(FormValidator::hostname("example.com", false), None);
    assert_eq!(FormValidator::hostname("my-host", false), None);
    assert_eq!(
        FormValidator::hostname("-bad-", false),
        Some("Invalid hostname or IP address".to_string())
    );
    assert_eq!(FormValidator::hostname("10.0.0.1", true), None);
    assert_eq!(FormValidator::hostname(" ", false), None);
}

#[test]
fn validator_paths() {
    assert_eq!(FormValidator::file_exists("/x", false), Some("File does not exist".to_string()));
    assert_eq!(FormValidator::file_exists("/x", true), None);
    assert_eq!(FormValidator::dir_exists("/x", false, false), Some("Directory does not exist".to_string()));
    assert_eq!(FormValidator::dir_exists("/x", true, false), Some("Path is not a directory".to_string()));
    assert_eq!(FormValidator::dir_exists("/x", true, true), None);
    assert_eq!(FormValidator::dir_exists("", false, false), None);
}

#[test]
fn validator_combine_returns_first_error() {
    let validators: [fn(&str) -> Option<String>; 2] = [FormValidator::required, FormValidator::numeric];
    assert_eq!(FormValidator::combine("", &validators[..]), Some("This field is required".to_string()));
    assert_eq!(FormValidator::combine("x", &validators[..]), Some("Must be a valid number".to_string()));
    assert_eq!(FormValidator::combine("12", &validators[..]), None);
    let none: [fn(&str) -> Option<String>; 0] = [];
    assert_eq!(FormValidator::combine("", &none[..]), None);
}

#[test]
fn text_input_render_shows_placeholder_when_empty() {
    let mut t = TextInput::new().with_placeholder("name".to_string());
    assert_eq!(t.render(), ("name", true));
    t.focused = true;
    assert_eq!(t.render(), ("", false));
    t.insert_char('a');
    t.focused = false;
    assert_eq!(t.render(), ("a", false));
}

fn samples() -> Vec<String> {
    let base = [
        "0", "7", "-7", "+7", "--7", "+-7", "1.5", ".5", "5.", ".", "-.", "1e3", "1E3", "1e+3", "1e-3",
        "1e", "e1", "1e+", "1.5e3", ".5e-2", "5.e7", "1.2.3", "1e3e3", "inf", "INF", "Infinity",
        "-infinity", "+nan", "NaN", "nan1", "infinit", "abc", "12a", "a12", " 12", "12 ", "1_000",
        "0x1f", "65535", "65536", "+65535", "-0", "00065535", "9223372036854775807",
        "9223372036854775808", "-9223372036854775808", "-9223372036854775809",
        "99999999999999999999999", "\u{661}", "1\u{e9}", "e", "E5", "+", "-", "+.", "4.2E-",
    ];
    base.iter().map(|s| s.to_string()).collect()
}

#[test]
fn numeric_agrees_with_float_parsing() {
    for s in samples() {
        assert_eq!(FormValidator::numeric(&s).is_none(), s.parse::<f64>().is_ok(), "{:?}", s);
    }
}

#[test]
fn integer_agrees_with_i64_parsing() {
    for s in samples() {
        assert_eq!(FormValidator::integer(&s).is_none(), s.parse::<i64>().is_ok(), "{:?}", s);
    }
}

#[test]
fn port_agrees_with_u16_parsing() {
    for s in samples() {
        let expected = matches!(s.parse::<u16>(), Ok(p) if p > 0);
        assert_eq!(FormValidator::port(&s).is_none(), expected, "{:?}", s);
    }
}

#[test]
fn toggle_and_dropdown_render_text() {
    let mut t = Toggle::new(true);
    assert_eq!(t.render(), "[\u{25CF}]");
    t.toggle();
    assert_eq!(t.render(), "[\u{25CB}]");
    let opts = vec![
        DropdownOption { value: "a".to_string(), label: "Alpha".to_string() },
        DropdownOption { value: "b".to_string(), label: "Beta".to_string() },
    ];
    let mut d = Dropdown::new().with_options(opts);
    assert_eq!(d.render(), "Select... \u{25BC}");
    assert!(d.render_options().is_empty());
    d.toggle_open();
    assert_eq!(d.render(), "Select... \u{25B2}");
    assert_eq!(d.render_options(), vec![("Alpha", false), ("Beta", false)]);
    d.select(1);
    assert_eq!(d.render(), "Beta \u{25BC}");
    d.toggle_open();
    assert_eq!(d.render_options(), vec![("Alpha", false), ("Beta", true)]);
    d.selected = Some(9);
    assert_eq!(d.render(), "Select... \u{25B2}");
}

#[test]
fn list_markers_number_and_nest() {
    let mut m = ListMarkers::new();
    assert_eq!(m.next_marker(), None);
    m.start_list(None);
    assert_eq!(m.next_marker().as_deref(), Some("\u{2022} "));
    m.start_list(Some(9));
    assert_eq!(m.next_marker().as_deref(), Some("9. "));
    assert_eq!(m.next_marker().as_deref(), Some("10. "));
    m.start_list(None);
    assert_eq!(m.depth(), 3);
    assert_eq!(m.next_marker().as_deref(), Some("\u{25AA} "));
    m.start_list(None);
    assert_eq!(m.next_marker().as_deref(), Some("\u{2022} "));
    m.end_list();
    m.end_list();
    assert_eq!(m.next_marker().as_deref(), Some("11. "));
    m.end_list();
    m.start_list(None);
    assert_eq!(m.next_marker().as_deref(), Some("\u{25E6} "));
    m.end_list();
    m.end_list();
    m.end_list();
    assert_eq!(m.depth(), 0);
    assert_eq!(u64_to_string(18_446_744_073_709_551_615), "18446744073709551615");
}
