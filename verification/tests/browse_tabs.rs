use runbook_tui::app::ImportEntry;
use runbook_tui::browse::list_import_entries;
use runbook_tui::config::editor_command;
use runbook_tui::keybinding::{KeyCode, KeyEventKind, KeyInput};
use runbook_tui::keys::{tab_key, TabAction};

fn entry(name: &str, is_dir: bool) -> ImportEntry {
    ImportEntry { name: name.to_string(), is_dir }
}

fn names(v: &[ImportEntry]) -> Vec<(&str, bool)> {
    v.iter().map(|e| (e.name.as_str(), e.is_dir)).collect()
}

fn raw() -> Vec<ImportEntry> {
    vec![
        entry("b.txt", false),
        entry("src", true),
        entry(".hidden", false),
        entry("Apps", true),
        entry("a.toml", false),
        entry("B.json", false),
        entry(".git", true),
    ]
}

#[test]
fn import_list_puts_parent_dirs_then_files() {
    let l = list_import_entries(&raw(), "", true);
    assert_eq!(
        names(&l),
        vec![("..", true), ("Apps", true), ("src", true), ("a.toml", false), ("B.json", false), ("b.txt", false)]
    );
    let no_parent = list_import_entries(&raw(), "", false);
    assert_eq!(no_parent[0].name, "Apps");
}

#[test]
fn import_list_filters_case_insensitively() {
    let l = list_import_entries(&raw(), "B", true);
    assert_eq!(names(&l), vec![("B.json", false), ("b.txt", false)]);
    let hidden = list_import_entries(&raw(), "HID", true);
    assert_eq!(names(&hidden), vec![(".hidden", false)]);
    let none = list_import_entries(&raw(), "zzz", true);
    assert!(none.is_empty());
}

fn press(code: KeyCode, control: bool) -> KeyInput {
    KeyInput { code, control, alt: false, shift: false, kind: KeyEventKind::Press }
}

#[test]
fn tab_keys() {
    assert_eq!(tab_key(&press(KeyCode::F(2), false), 1, 0), TabAction::Ignore);
    assert_eq!(tab_key(&press(KeyCode::F(2), false), 2, 0), TabAction::Switch(1));
    assert_eq!(tab_key(&press(KeyCode::F(2), false), 2, 1), TabAction::Switch(0));
    assert_eq!(tab_key(&press(KeyCode::F(2), false), 3, 1), TabAction::OpenTabSelect);
    assert_eq!(tab_key(&press(KeyCode::Right, true), 3, 2), TabAction::Switch(0));
    assert_eq!(tab_key(&press(KeyCode::Left, true), 3, 0), TabAction::Switch(2));
    assert_eq!(tab_key(&press(KeyCode::Left, true), 3, 2), TabAction::Switch(1));
    assert_eq!(tab_key(&press(KeyCode::Right, true), 1, 0), TabAction::Ignore);
    assert_eq!(tab_key(&press(KeyCode::Right, false), 3, 0), TabAction::Pass);
    let mut release = press(KeyCode::F(2), false);
    release.kind = KeyEventKind::Release;
    assert_eq!(tab_key(&release, 2, 0), TabAction::Ignore);
}

#[test]
fn tab_next_then_prev_returns() {
    for tabs in 2..6usize {
        for cur in 0..tabs {
            let n = match tab_key(&press(KeyCode::Right, true), tabs, cur) {
                TabAction::Switch(n) => n,
                _ => panic!("expected a switch"),
            };
            assert_eq!(tab_key(&press(KeyCode::Left, true), tabs, n), TabAction::Switch(cur));
        }
    }
}

#[test]
fn editor_paths_are_quoted() {
    assert_eq!(editor_command("/usr/bin/vim"), "/usr/bin/vim");
    assert_eq!(editor_command("/my tools/vim"), "'/my tools/vim'");
}
