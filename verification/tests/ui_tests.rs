use memtty::cell::Cell;
use memtty::input::{
    input_line_after_key, is_history_completion_key, map_key_to_bytes, shortcut_intent_for_key,
    shortcut_intent_for_super_char, KeyInput, Modifiers, NamedKey, ShortcutIntent,
};
use memtty::links::{
    cell_head_char, char_class, is_leading_trim_char, is_link_break_cell, is_trailing_trim_char,
    link_span_in_row_at_col, looks_like_url, normalize_url_for_open, CharClass,
};
use memtty::selection::{current_selection_range, paste_bytes, selected_text, selection_line_text, SelectionRange};
use memtty::session::{
    active_after_close, next_tab_id, normalize_active_tab, parse_chunk_len, LinkInteractionSettings,
};
use memtty::settings::{
    content_rect, point_in_rect, primary_control_rect, secondary_control_rect, settings_button_rect,
    settings_click, settings_click_target, settings_item_rect, settings_panel_rect, sidebar_rect,
    truncate_value, AppearanceSettingKey, SettingsClick, SettingsClickTarget, SettingsControlRenderKind, UiRect,
};
use memtty::terminal::Terminal;

fn no_mods() -> Modifiers {
    Modifiers { alt: false, control: false, super_key: false, shift: false }
}

#[test]
fn selection_range_normalizes_descending_bounds() {
    let range = SelectionRange {
        start: (10, 8),
        end: (1, 3),
    }
    .normalized();
    assert_eq!(range.start, (1, 3));
    assert_eq!(range.end, (10, 8));
}

#[test]
fn normalizing_twice_changes_nothing() {
    let r = SelectionRange { start: (2, 9), end: (2, 4) }.normalized();
    assert_eq!(r.start, (2, 4));
    assert_eq!(r.normalized(), r);
}

#[test]
fn selection_rows_are_clamped_to_history() {
    let r = current_selection_range(Some((3, 50)), Some((1, 2)), 10).unwrap();
    assert_eq!(r.start, (1, 2));
    assert_eq!(r.end, (3, 9));
    assert!(current_selection_range(Some((0, 0)), None, 10).is_none());
    assert!(current_selection_range(Some((0, 0)), Some((1, 1)), 0).is_none());
}

#[test]
fn selection_line_text_trims_trailing_spaces() {
    let row = vec![
        Cell {
            c: 'a',
            text: "a".to_string().into(),
            ..Default::default()
        },
        Cell {
            c: 'b',
            text: "b".to_string().into(),
            ..Default::default()
        },
        Cell::default(),
        Cell::default(),
    ];

    assert_eq!(selection_line_text(&row, 0, 3), "ab");
}

#[test]
fn selection_line_text_ignores_wide_continuation_cells() {
    let row = vec![
        Cell {
            c: '中',
            text: "中".to_string().into(),
            wide_continuation: false,
            ..Default::default()
        },
        Cell {
            c: ' ',
            text: String::new().into(),
            wide_continuation: true,
            ..Default::default()
        },
        Cell {
            c: 'x',
            text: "x".to_string().into(),
            ..Default::default()
        },
    ];

    assert_eq!(selection_line_text(&row, 0, 2), "中x");
}

#[test]
fn selected_text_joins_rows_with_newlines() {
    let mut t = Terminal::new();
    t.process(b"one\r\ntwo  \r\nthree");
    let text = selected_text(&t.performer, Some((0, 0)), Some((2, 2))).unwrap();
    assert_eq!(text, "one\ntwo\nthr");
    assert!(selected_text(&t.performer, None, Some((2, 2))).is_none());
}

#[test]
fn paste_turns_line_ends_into_carriage_returns() {
    assert_eq!(paste_bytes("a\r\nb\nc", false), b"a\rb\rc".to_vec());
    assert_eq!(paste_bytes("x\n", true), b"\x1b[200~x\r\x1b[201~".to_vec());
    assert_eq!(paste_bytes("\r\r\n", false), b"\r\r".to_vec());
}

#[test]
fn hyperlink_lookup_prefers_cell_and_falls_back_to_leading_wide_cell() {
    let row = vec![
        Cell {
            hyperlink: Some("https://example.com".to_string().into()),
            c: '中',
            text: "中".to_string().into(),
            wide_continuation: false,
            ..Default::default()
        },
        Cell {
            hyperlink: None,
            c: ' ',
            text: String::new().into(),
            wide_continuation: true,
            ..Default::default()
        },
    ];

    let s0 = link_span_in_row_at_col(&row, 0, true).expect("expected span");
    assert_eq!(s0.0, 0);
    assert_eq!(s0.1, 1);
    assert_eq!(s0.2, "https://example.com");

    let s1 = link_span_in_row_at_col(&row, 1, true).expect("expected span");
    assert_eq!(s1.0, 0);
    assert_eq!(s1.1, 1);
    assert_eq!(s1.2, "https://example.com");
}

#[test]
fn plaintext_localhost_url_is_detected_and_normalized() {
    let row = vec![
        Cell {
            c: 'l',
            text: "localhost:3000/destek".to_string().into(),
            ..Default::default()
        },
        Cell::default(),
    ];

    let span = link_span_in_row_at_col(&row, 0, true).expect("expected localhost url span");
    assert_eq!(span.2, "localhost:3000/destek");
    assert_eq!(
        normalize_url_for_open(&span.2),
        "http://localhost:3000/destek"
    );
}

#[test]
fn filenames_are_not_detected_as_links() {
    let row = vec![Cell {
        c: 'p',
        text: "package.json".to_string().into(),
        ..Default::default()
    }];
    assert!(link_span_in_row_at_col(&row, 0, true).is_none());

    let row2 = vec![Cell {
        c: 'R',
        text: "README.md".to_string().into(),
        ..Default::default()
    }];
    assert!(link_span_in_row_at_col(&row2, 0, true).is_none());
}

#[test]
fn relative_paths_are_not_detected_as_links() {
    let row = vec![Cell {
        c: '.',
        text: "./crmFrontendNewModules/node_modules/@mui/material/ListItemSecondaryAction:"
            .to_string()
            .into(),
        ..Default::default()
    }];
    assert!(link_span_in_row_at_col(&row, 0, true).is_none());
}

fn text_row(s: &str) -> Vec<Cell> {
    s.chars()
        .map(|ch| Cell { c: ch, text: ch.to_string(), ..Default::default() })
        .collect()
}

#[test]
fn plain_links_drop_surrounding_punctuation() {
    let row = text_row("see (www.example.org). ok");
    let span = link_span_in_row_at_col(&row, 8, true).expect("link");
    assert_eq!(span, (5, 19, "www.example.org".to_string()));
    assert!(link_span_in_row_at_col(&row, 8, false).is_none());
    assert!(link_span_in_row_at_col(&row, 3, true).is_none());
    assert!(link_span_in_row_at_col(&row, 99, true).is_none());
}

#[test]
fn ip_addresses_read_as_urls() {
    assert!(looks_like_url("192.168.0.1:8080/x"));
    assert!(looks_like_url("  https://a  "));
    assert!(looks_like_url("localhost"));
    assert!(!looks_like_url("localhostx"));
    assert!(!looks_like_url("1234"));
    assert!(!looks_like_url(""));
    assert_eq!(normalize_url_for_open("10.0.0.1/a"), "http://10.0.0.1/a");
    assert_eq!(normalize_url_for_open("https://x.y"), "https://x.y");
    assert_eq!(normalize_url_for_open("foo/bar.baz"), "foo/bar.baz");
    let once = normalize_url_for_open("www.a.b");
    assert_eq!(normalize_url_for_open(&once), once);
}

#[test]
fn character_classes_and_cell_helpers() {
    assert_eq!(char_class('a'), CharClass::Word);
    assert_eq!(char_class('_'), CharClass::Word);
    assert_eq!(char_class(' '), CharClass::Whitespace);
    assert_eq!(char_class('-'), CharClass::Symbol);
    assert!(is_leading_trim_char('('));
    assert!(!is_leading_trim_char(')'));
    assert!(is_trailing_trim_char('.'));
    assert!(!is_trailing_trim_char('a'));
    let wide_half = Cell { wide_continuation: true, text: String::new(), ..Default::default() };
    assert_eq!(cell_head_char(&wide_half), ' ');
    assert!(is_link_break_cell(&wide_half));
    assert!(is_link_break_cell(&Cell::default()));
    let x = Cell { c: 'x', text: "xy".to_string(), ..Default::default() };
    assert_eq!(cell_head_char(&x), 'x');
    assert!(!is_link_break_cell(&x));
}

#[test]
fn maps_super_t_to_new_tab() {
    assert_eq!(
        shortcut_intent_for_super_char("t"),
        Some(ShortcutIntent::NewTab)
    );
}

#[test]
fn maps_super_digit_to_tab_switch() {
    assert_eq!(
        shortcut_intent_for_super_char("3"),
        Some(ShortcutIntent::SwitchToTab(2))
    );
}

#[test]
fn super_shortcuts_cover_their_keys() {
    assert_eq!(shortcut_intent_for_super_char("T"), Some(ShortcutIntent::NewTab));
    assert_eq!(shortcut_intent_for_super_char("="), Some(ShortcutIntent::FontSizeStep(2)));
    assert_eq!(shortcut_intent_for_super_char("-"), Some(ShortcutIntent::FontSizeStep(-2)));
    assert_eq!(shortcut_intent_for_super_char("0"), Some(ShortcutIntent::FontSizeReset));
    assert_eq!(shortcut_intent_for_super_char(","), Some(ShortcutIntent::ToggleSettingsPanel));
    assert_eq!(shortcut_intent_for_super_char("x"), None);
    let sup = Modifiers { super_key: true, ..no_mods() };
    let v = KeyInput::Character("V".to_string());
    assert_eq!(shortcut_intent_for_key(&v, true, sup, false), Some(ShortcutIntent::Paste));
    assert_eq!(shortcut_intent_for_key(&v, false, sup, false), None);
    assert_eq!(shortcut_intent_for_key(&v, true, no_mods(), false), None);
    let esc = KeyInput::Named(NamedKey::Escape);
    assert_eq!(shortcut_intent_for_key(&esc, true, no_mods(), true), Some(ShortcutIntent::CloseSettings));
    let enter = KeyInput::Named(NamedKey::Enter);
    assert_eq!(shortcut_intent_for_key(&enter, true, sup, false), Some(ShortcutIntent::ToggleFullscreen));
}

#[test]
fn keys_map_to_terminal_bytes() {
    let alt = Modifiers { alt: true, ..no_mods() };
    let ctrl = Modifiers { control: true, ..no_mods() };
    let shift = Modifiers { shift: true, ..no_mods() };
    assert_eq!(map_key_to_bytes(&KeyInput::Named(NamedKey::ArrowUp), alt), Some(b"\x1b[1;3A".to_vec()));
    assert_eq!(map_key_to_bytes(&KeyInput::Named(NamedKey::ArrowUp), no_mods()), Some(b"\x1b[A".to_vec()));
    assert_eq!(map_key_to_bytes(&KeyInput::Character("C".to_string()), ctrl), Some(vec![3]));
    assert_eq!(map_key_to_bytes(&KeyInput::Character("[".to_string()), ctrl), Some(vec![0x1b]));
    assert_eq!(map_key_to_bytes(&KeyInput::Character("1".to_string()), ctrl), None);
    assert_eq!(map_key_to_bytes(&KeyInput::Character("c".to_string()), no_mods()), None);
    assert_eq!(map_key_to_bytes(&KeyInput::Named(NamedKey::Tab), shift), Some(b"\x1b[Z".to_vec()));
    assert_eq!(map_key_to_bytes(&KeyInput::Named(NamedKey::F12), no_mods()), Some(b"\x1b[24~".to_vec()));
    assert_eq!(map_key_to_bytes(&KeyInput::Named(NamedKey::Other), no_mods()), None);
    assert!(is_history_completion_key(&KeyInput::Named(NamedKey::Tab), shift));
    assert!(!is_history_completion_key(&KeyInput::Named(NamedKey::Tab), no_mods()));
}

#[test]
fn tracked_line_follows_editing_keys() {
    let ctrl = Modifiers { control: true, ..no_mods() };
    let mut line = "git log".to_string();
    input_line_after_key(&mut line, &KeyInput::Named(NamedKey::Backspace), no_mods(), b"\x7f");
    assert_eq!(line, "git lo");
    input_line_after_key(&mut line, &KeyInput::Character("w".to_string()), ctrl, &[0x17]);
    assert_eq!(line, "git ");
    input_line_after_key(&mut line, &KeyInput::Named(NamedKey::Enter), no_mods(), b"\r");
    assert_eq!(line, "");
}

#[test]
fn settings_geometry() {
    assert_eq!(settings_button_rect(1000), UiRect { x: 942, y: 15, width: 44, height: 40 });
    assert_eq!(settings_button_rect(10).x, 0);
    let panel = settings_panel_rect(1200, 800);
    assert_eq!(panel, UiRect { x: 190, y: 185, width: 820, height: 500 });
    let small = settings_panel_rect(100, 100);
    assert_eq!((small.width, small.height), (360, 320));
    let sidebar = sidebar_rect(panel);
    assert_eq!(sidebar.width, 188);
    let content = content_rect(panel, sidebar);
    assert_eq!(content.x, 190 + 188 + 28);
    assert_eq!(content.width, 820 - 188 - 56);
    let row = settings_item_rect(content, 1).unwrap();
    assert_eq!(row.y, 185 + 92 + 83);
    assert!(settings_item_rect(content, 5).is_none());
    let primary = primary_control_rect(row);
    assert_eq!(primary.width, 168);
    assert!(secondary_control_rect(AppearanceSettingKey::FontSize, primary).is_some());
    assert!(secondary_control_rect(AppearanceSettingKey::Ligatures, primary).is_none());
    assert!(point_in_rect(primary.x, primary.y, primary));
    assert!(!point_in_rect(primary.x + primary.width, primary.y, primary));
}

#[test]
fn settings_click_hits() {
    let button = settings_button_rect(1200);
    let panel = settings_panel_rect(1200, 800);
    let content = content_rect(panel, sidebar_rect(panel));
    assert_eq!(
        settings_click_target(930, 550, content),
        Some(SettingsClickTarget::Secondary(AppearanceSettingKey::FontSize))
    );
    assert_eq!(
        settings_click_target(810, 550, content),
        Some(SettingsClickTarget::Primary(AppearanceSettingKey::FontSize))
    );
    assert_eq!(
        settings_click_target(410, 530, content),
        Some(SettingsClickTarget::Row(AppearanceSettingKey::FontSize))
    );
    assert_eq!(
        settings_click_target(930, 300, content),
        Some(SettingsClickTarget::Primary(AppearanceSettingKey::FontFamily))
    );
    assert_eq!(settings_click_target(410, 355, content), None);
    assert_eq!(settings_click(1150, 20, false, button, panel, content), SettingsClick::ToggleButton);
    assert_eq!(settings_click(410, 530, false, button, panel, content), SettingsClick::Ignored);
    assert_eq!(
        settings_click(410, 530, true, button, panel, content),
        SettingsClick::Target(SettingsClickTarget::Row(AppearanceSettingKey::FontSize))
    );
    assert_eq!(settings_click(410, 355, true, button, panel, content), SettingsClick::Absorbed);
    assert_eq!(settings_click(100, 100, true, button, panel, content), SettingsClick::ClosePanel);
}

#[test]
fn settings_keys_and_values() {
    let all = AppearanceSettingKey::all();
    assert_eq!(all.len(), 5);
    assert_eq!(all[0].title(), "Font family");
    assert_eq!(all[4].detail(), "Restore startup typography");
    assert_eq!(all[1].control(true), SettingsControlRenderKind::Toggle { enabled: true });
    assert_eq!(truncate_value("abcdef", 3), "abc...");
    assert_eq!(truncate_value("abc", 3), "abc");
}

#[test]
fn tab_bookkeeping() {
    assert_eq!(normalize_active_tab(5, 3), Some(2));
    assert_eq!(normalize_active_tab(1, 3), Some(1));
    assert_eq!(normalize_active_tab(0, 0), None);
    assert_eq!(next_tab_id(&[3, 7, 1]), 8);
    assert_eq!(next_tab_id(&[]), 0);
    assert_eq!(active_after_close(2, 3), 1);
    assert_eq!(active_after_close(0, 3), 0);
    assert_eq!(parse_chunk_len(100_000, 50_000), 16384);
    assert_eq!(parse_chunk_len(10, 50_000), 10);
    assert_eq!(parse_chunk_len(10_000, 20), 20);
    let d = LinkInteractionSettings::default();
    assert!(d.enable_hyperlinks && d.disable_in_alt_screen);
}

#[test]
fn link_settings_gate_links() {
    let on = LinkInteractionSettings::default();
    assert!(on.hyperlinks_active(false));
    assert!(!on.hyperlinks_active(true));
    assert!(on.plaintext_links_active(false));
    let mut s = on;
    s.disable_in_alt_screen = false;
    assert!(s.hyperlinks_active(true));
    s.enable_plaintext_links = false;
    assert!(!s.plaintext_links_active(false));
    s.enable_hyperlinks = false;
    assert!(!s.hyperlinks_active(false));
}

#[test]
fn tab_titles_show_shortcut_and_title() {
    assert_eq!(memtty::session::tab_title(0, ""), "\u{2318} + 1  ~");
    assert_eq!(memtty::session::tab_title(11, "vim main.rs"), "\u{2318} + 12  vim main.rs");
}

#[test]
fn link_span_is_none_past_the_row_and_for_plain_text_when_not_allowed() {
    let row: Vec<Cell> = "see https://example.com now"
        .chars()
        .map(|ch| Cell { c: ch, text: ch.to_string().into(), ..Default::default() })
        .collect();
    assert!(link_span_in_row_at_col(&row, row.len(), true).is_none());
    assert!(link_span_in_row_at_col(&row, 8, false).is_none());
    let (s, e, u) = link_span_in_row_at_col(&row, 8, true).expect("expected span");
    assert_eq!((s, e), (4, 22));
    assert_eq!(u, "https://example.com");
    assert!(link_span_in_row_at_col(&row, 1, true).is_none());
}
