use std::collections::VecDeque;

use runbook_tui::api::ApiStatus;
use runbook_tui::app::{AppMode, Focus, ProcessStatus};
use runbook_tui::highlight::{colorize_json_line, colorize_line, colorize_xml_line, is_content_type, TextRole};
use runbook_tui::layout::{
    cjk_safe_symbol, help_entries, help_line, is_cjk_locale_name, truncate_status, visible_cells, wrap_colored_lines, wrap_lines, CellInfo,
    HelpEntry,
};
use runbook_tui::theme::Theme;

#[test]
fn status_line_fits_or_is_cut_from_the_left() {
    assert_eq!(truncate_status("/tmp/runbook.toml", 40), "/tmp/runbook.toml");
    assert_eq!(truncate_status("/home/user/projects/runbook.toml", 12), "...book.toml");
    assert_eq!(truncate_status("abcdef", 3), "abc");
    assert_eq!(truncate_status("abcdef", 0), "");
    assert_eq!(truncate_status("abcdef", 4), "...f");
    assert_eq!(truncate_status("éèêë", 4), "éèêë");
}

fn deque(v: &[&str]) -> VecDeque<String> {
    v.iter().map(|s| s.to_string()).collect()
}

#[test]
fn lines_wrap_by_columns() {
    assert_eq!(wrap_lines(&deque(&["abcdefgh", "", "xy"]), 3), vec!["abc", "def", "gh", "", "xy"]);
    assert_eq!(wrap_lines(&deque(&["abc"]), 0), Vec::<String>::new());
    assert_eq!(wrap_lines(&deque(&["日本語"]), 4), vec!["日本", "語"]);
    assert_eq!(wrap_lines(&deque(&["日本"]), 1), vec!["日", "本"]);
}

#[test]
fn wrapped_pieces_join_back() {
    let line = "a long line of text that wraps several times";
    let pieces = wrap_lines(&deque(&[line]), 7);
    assert_eq!(pieces.concat(), line);
    assert!(pieces.iter().all(|p| p.chars().count() <= 7));
}

#[test]
fn help_lines_pad_keys() {
    assert_eq!(help_line("?", "Toggle help"), format!("  {:<22}{}", "?", "Toggle help"));
    assert_eq!(help_line("a-very-long-key-name-here", "x"), "  a-very-long-key-name-herex");
}

#[test]
fn help_entries_follow_mode_and_focus() {
    let e = help_entries(AppMode::Runbook, Focus::Commands);
    assert!(matches!(e[0], HelpEntry::Heading("help.global")));
    assert!(matches!(e[1], HelpEntry::Line("?", "help.desc.toggle_help")));
    assert!(matches!(e[17], HelpEntry::Blank));
    assert!(matches!(e[18], HelpEntry::Heading("help.section.runbook_commands")));
    assert_eq!(e.len(), 24);
    let v = help_entries(AppMode::Api, Focus::Variables);
    assert!(matches!(v[18], HelpEntry::Heading("help.section.api_variables")));
    assert_eq!(v.len(), 22);
    let none = help_entries(AppMode::Runbook, Focus::Variables);
    assert_eq!(none.len(), 18);
    let cwl = help_entries(AppMode::Cwl, Focus::Output);
    assert!(matches!(cwl[18], HelpEntry::Heading("help.section.runbook_output")));
}

#[test]
fn cjk_locales_get_ascii_symbols() {
    assert!(is_cjk_locale_name("zh-CN"));
    assert!(is_cjk_locale_name("ja"));
    assert!(is_cjk_locale_name("ko-KR"));
    assert!(!is_cjk_locale_name("en"));
    assert_eq!(cjk_safe_symbol("●", true), "*");
    assert_eq!(cjk_safe_symbol("✓", true), "+");
    assert_eq!(cjk_safe_symbol("✗", true), "!");
    assert_eq!(cjk_safe_symbol("●", false), "●");
    assert_eq!(cjk_safe_symbol("x", true), "x");
}

#[test]
fn wide_cells_cover_the_next_cell() {
    let cells = vec![
        CellInfo { x: 0, y: 0, width: 2, emoji: false },
        CellInfo { x: 1, y: 0, width: 1, emoji: false },
        CellInfo { x: 2, y: 0, width: 1, emoji: false },
        CellInfo { x: 3, y: 0, width: 2, emoji: true },
        CellInfo { x: 4, y: 0, width: 1, emoji: false },
        CellInfo { x: 0, y: 1, width: 2, emoji: false },
        CellInfo { x: 0, y: 2, width: 1, emoji: false },
    ];
    assert_eq!(visible_cells(&cells), vec![true, false, true, true, true, true, true]);
}

#[test]
fn status_indicators() {
    let t = Theme::default_theme();
    assert_eq!(ApiStatus::Running.indicator(&t), ("●", t.running));
    assert_eq!(ApiStatus::Done(204).indicator(&t), ("✓", t.success));
    assert_eq!(ApiStatus::Done(500).indicator(&t), ("✗", t.error));
    assert_eq!(ApiStatus::Failed("x".to_string()).indicator(&t), ("✗", t.error));
    assert_eq!(ProcessStatus::Exited(0).indicator(&t), ("✓", t.success));
    assert_eq!(ProcessStatus::Exited(2).indicator(&t), ("✗", t.error));
    assert_eq!(ProcessStatus::Running.indicator(&t), ("●", t.running));
}

fn texts(v: &[(String, TextRole)]) -> Vec<(&str, TextRole)> {
    v.iter().map(|(s, r)| (s.as_str(), *r)).collect()
}

#[test]
fn json_line_tokens() {
    let t = colorize_json_line("  \"key\": [1.5e3, true, null, nope, \"a\\\"b\"],");
    assert_eq!(
        texts(&t),
        vec![
            ("  ", TextRole::Plain),
            ("\"key\"", TextRole::JsonString),
            (":", TextRole::JsonPunctuation),
            (" ", TextRole::Plain),
            ("[", TextRole::JsonPunctuation),
            ("1.5e3", TextRole::JsonNumber),
            (",", TextRole::JsonPunctuation),
            (" ", TextRole::Plain),
            ("true", TextRole::JsonKeyword),
            (",", TextRole::JsonPunctuation),
            (" ", TextRole::Plain),
            ("null", TextRole::JsonKeyword),
            (",", TextRole::JsonPunctuation),
            (" ", TextRole::Plain),
            ("nope", TextRole::JsonWord),
            (",", TextRole::JsonPunctuation),
            (" ", TextRole::Plain),
            ("\"a\\\"b\"", TextRole::JsonString),
            ("]", TextRole::JsonPunctuation),
            (",", TextRole::JsonPunctuation),
        ]
    );
}

#[test]
fn json_tokens_give_the_line_back() {
    for line in ["{\"a\": -1}", "  \"unterminated", "@#", "", "\"x\\"] {
        let t = colorize_json_line(line);
        let joined: String = t.iter().map(|(s, _)| s.as_str()).collect();
        assert_eq!(joined, line);
    }
}

#[test]
fn xml_line_tokens() {
    let t = colorize_xml_line("<a href=\"x>y\">text</a>");
    assert_eq!(
        texts(&t),
        vec![("<a href=\"x>y\">", TextRole::XmlTag), ("text", TextRole::Plain), ("</a>", TextRole::XmlTag)]
    );
    let u = colorize_xml_line("x < y");
    assert_eq!(texts(&u), vec![("x ", TextRole::Plain), ("< y", TextRole::XmlTag)]);
}

#[test]
fn line_colouring_follows_content_type() {
    assert!(is_content_type(Some("application/json"), "json"));
    assert!(!is_content_type(None, "json"));
    assert_eq!(texts(&colorize_line(Some("text/plain"), "a<b>")), vec![("a<b>", TextRole::Plain)]);
    assert_eq!(texts(&colorize_line(Some("text/html"), "a<b>")), vec![("a", TextRole::Plain), ("<b>", TextRole::XmlTag)]);
    assert_eq!(texts(&colorize_line(Some("application/javascript"), "1")), vec![("1", TextRole::JsonNumber)]);
}

#[test]
fn coloured_lines_wrap_line_by_line() {
    let t = |x: &str, r: TextRole| (x.to_string(), r);
    let lines = vec![
        vec![t("{", TextRole::JsonPunctuation), t("\"abc\"", TextRole::JsonString)],
        vec![],
        vec![t("xy", TextRole::Plain), t("z", TextRole::Plain)],
    ];
    let rows = wrap_colored_lines(&lines, 4);
    assert_eq!(
        rows,
        vec![
            vec![t("{", TextRole::JsonPunctuation), t("\"ab", TextRole::JsonString)],
            vec![t("c\"", TextRole::JsonString)],
            vec![],
            vec![t("xyz", TextRole::Plain)],
        ]
    );
    assert!(wrap_colored_lines(&lines, 0).is_empty());
    let wide = vec![vec![t("日本", TextRole::Plain)]];
    assert_eq!(wrap_colored_lines(&wide, 3), vec![vec![t("日", TextRole::Plain)], vec![t("本", TextRole::Plain)]]);
    let too_wide = vec![vec![t("日", TextRole::Plain)]];
    assert_eq!(wrap_colored_lines(&too_wide, 1), vec![vec![], vec![t("日", TextRole::Plain)]]);
}

#[test]
fn coloured_lines_wrap_by_grapheme_and_skip_controls() {
    let t = |x: &str, r: TextRole| (x.to_string(), r);
    let heart = vec![vec![t("\u{2764}\u{fe0f}a", TextRole::JsonString)]];
    assert_eq!(
        wrap_colored_lines(&heart, 2),
        vec![vec![t("\u{2764}\u{fe0f}", TextRole::JsonString)], vec![t("a", TextRole::JsonString)]]
    );
    let tab = vec![vec![t("a\tb", TextRole::Plain)]];
    assert_eq!(wrap_colored_lines(&tab, 10), vec![vec![t("ab", TextRole::Plain)]]);
    let accent = vec![vec![t("e\u{301}x", TextRole::Plain)]];
    assert_eq!(
        wrap_colored_lines(&accent, 1),
        vec![vec![t("e\u{301}", TextRole::Plain)], vec![t("x", TextRole::Plain)]]
    );
}
