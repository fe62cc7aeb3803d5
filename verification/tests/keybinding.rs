use runbook_tui::keybinding::{KeyBinding, KeyCode, KeyEventKind, KeyInput};

fn press(code: KeyCode, control: bool) -> KeyInput {
    KeyInput { code, control, alt: false, shift: false, kind: KeyEventKind::Press }
}

#[test]
fn keybinding_parses_letters_and_digits() {
    assert_eq!(KeyBinding::parse("a"), Some(KeyBinding::Char('a')));
    assert_eq!(KeyBinding::parse("1"), Some(KeyBinding::Char('1')));
    assert_eq!(KeyBinding::parse("  p  "), Some(KeyBinding::Char('p')));
    assert_eq!(KeyBinding::parse("P"), Some(KeyBinding::Char('P')));
}

#[test]
fn keybinding_parses_function_keys() {
    assert_eq!(KeyBinding::parse("f1"), Some(KeyBinding::F(1)));
    assert_eq!(KeyBinding::parse("F12"), Some(KeyBinding::F(12)));
    assert_eq!(KeyBinding::parse("f13"), None);
    assert_eq!(KeyBinding::parse("f0"), None);
    assert_eq!(KeyBinding::parse("f"), Some(KeyBinding::Char('f')));
}

#[test]
fn keybinding_parses_control_combinations() {
    assert_eq!(KeyBinding::parse("ctrl+c"), Some(KeyBinding::Ctrl('c')));
    assert_eq!(KeyBinding::parse("Ctrl+X"), Some(KeyBinding::Ctrl('x')));
    assert_eq!(KeyBinding::parse("^c"), Some(KeyBinding::Ctrl('c')));
    assert_eq!(KeyBinding::parse("ctrl+"), None);
    assert_eq!(KeyBinding::parse("^"), None);
}

#[test]
fn keybinding_rejects_empty_and_words() {
    assert_eq!(KeyBinding::parse(""), None);
    assert_eq!(KeyBinding::parse("   "), None);
    assert_eq!(KeyBinding::parse("abc"), None);
}

#[test]
fn keybinding_display() {
    assert_eq!(KeyBinding::Char('a').display(), "a");
    assert_eq!(KeyBinding::F(5).display(), "F5");
    assert_eq!(KeyBinding::F(12).display(), "F12");
    assert_eq!(KeyBinding::Ctrl('c').display(), "Ctrl+c");
}

#[test]
fn keybinding_display_parses_back() {
    for k in [KeyBinding::Char('z'), KeyBinding::Char('7'), KeyBinding::F(3), KeyBinding::F(11), KeyBinding::Ctrl('d')] {
        assert_eq!(KeyBinding::parse(&k.display()), Some(k));
    }
}

#[test]
fn keybinding_matches_key_presses() {
    let a = KeyBinding::Char('a');
    assert!(a.matches(&press(KeyCode::Char('a'), false)));
    assert!(a.matches(&press(KeyCode::Char('A'), false)));
    assert!(!a.matches(&press(KeyCode::Char('a'), true)));
    assert!(!a.matches(&press(KeyCode::Char('b'), false)));
    let c = KeyBinding::Ctrl('c');
    assert!(c.matches(&press(KeyCode::Char('c'), true)));
    assert!(c.matches(&press(KeyCode::Char('C'), true)));
    assert!(!c.matches(&press(KeyCode::Char('c'), false)));
    let f = KeyBinding::F(2);
    assert!(f.matches(&press(KeyCode::F(2), false)));
    assert!(!f.matches(&press(KeyCode::F(3), false)));
    assert!(!f.matches(&press(KeyCode::Char('2'), false)));
}
