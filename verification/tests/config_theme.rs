use runbook_tui::config::{build_config, resolve_editor, ConfigError, ConfigFile, RawCommand};
use runbook_tui::env::{variable_groups, VariableGroupFile};
use runbook_tui::keybinding::KeyBinding;
use runbook_tui::ordered::{str_less, StringMap, StringSet};
use runbook_tui::theme::{theme_by_name, theme_names, Color, Theme};

fn raw(title: &str, key: &str, cmd: &str) -> RawCommand {
    RawCommand { title: title.to_string(), keybinding: key.to_string(), command: cmd.to_string() }
}

#[test]
fn config_builds_commands() {
    let cfg = build_config(ConfigFile {
        commands: vec![raw("Ping localhost", "p", "ping -c 3 127.0.0.1"), raw("Quit", "ctrl+q", "exit")],
        editor: Some(String::new()),
    })
    .ok()
    .unwrap();
    assert_eq!(cfg.commands.len(), 2);
    assert_eq!(cfg.commands[0].key, KeyBinding::Char('p'));
    assert_eq!(cfg.commands[1].key, KeyBinding::Ctrl('q'));
    assert_eq!(cfg.commands[1].command, "exit");
    assert!(cfg.editor.is_none());
}

#[test]
fn config_rejects_bad_keybinding() {
    let r = build_config(ConfigFile { commands: vec![raw("Ok", "a", "x"), raw("Bad", "nope", "y")], editor: None });
    match r {
        Err(ConfigError::InvalidKeybinding { raw, title }) => {
            assert_eq!(raw, "nope");
            assert_eq!(title, "Bad");
        },
        Ok(_) => panic!("expected an error"),
    }
}

#[test]
fn editor_resolution_order() {
    let some = |s: &str| Some(s.to_string());
    assert_eq!(resolve_editor(some("nano"), some("vim"), None, None, None), "nano");
    assert_eq!(resolve_editor(some(""), some("vim"), some("code"), None, None), "vim");
    assert_eq!(resolve_editor(None, None, some(""), some("emacs"), some("/usr/bin/vim")), "emacs");
    assert_eq!(resolve_editor(None, None, None, None, some("/usr/bin/vim")), "/usr/bin/vim");
    assert_eq!(resolve_editor(None, None, None, None, None), "vi");
}

#[test]
fn themes_by_name() {
    assert_eq!(theme_names().len(), 10);
    assert_eq!(theme_names()[0], "Default");
    let d = theme_by_name("no such theme");
    assert_eq!(d, Theme::default_theme());
    let mocha = theme_by_name("Catppuccin Mocha");
    assert_ne!(mocha, d);
    assert_eq!(mocha.success.fg, Some(Color::Rgb(0xa6, 0xe3, 0xa1)));
}

#[test]
fn variable_group_files() {
    let file = VariableGroupFile {
        environments: vec![("Staging".to_string(), vec![("host".to_string(), "s".to_string())])],
        variable: vec![("host".to_string(), "d".to_string())],
        name: None,
    };
    let g = variable_groups(file);
    assert_eq!(g.len(), 2);
    assert_eq!(g[0].0, "default");
    assert_eq!(g[1].0, "Staging");
    let named = variable_groups(VariableGroupFile { environments: Vec::new(), variable: Vec::new(), name: Some("Team".to_string()) });
    assert_eq!(named.len(), 1);
    assert_eq!(named[0].0, "Team");
    let none = variable_groups(VariableGroupFile { environments: Vec::new(), variable: Vec::new(), name: None });
    assert!(none.is_empty());
}

#[test]
fn ordered_strings() {
    assert!(str_less("a", "b"));
    assert!(str_less("a", "ab"));
    assert!(!str_less("b", "ab"));
    assert!(!str_less("x", "x"));
    assert!(str_less("Z", "a"));
    let mut m = StringMap::new();
    m.insert_if_absent("b".to_string(), "1".to_string());
    m.insert_if_absent("a".to_string(), "2".to_string());
    m.insert_if_absent("b".to_string(), "3".to_string());
    m.insert_if_absent("c".to_string(), "4".to_string());
    let v: Vec<(&str, &str)> = m.entries.iter().map(|(k, x)| (k.as_str(), x.as_str())).collect();
    assert_eq!(v, vec![("a", "2"), ("b", "1"), ("c", "4")]);
    let mut s = StringSet::new();
    s.insert("k2".to_string());
    s.insert("k1".to_string());
    s.insert("k2".to_string());
    assert_eq!(s.items, vec!["k1".to_string(), "k2".to_string()]);
    assert!(s.contains("k1"));
    assert!(!s.contains("k3"));
}
