use runbook_tui::api::ApiItem;
use runbook_tui::app::{App, AppMode, Focus, InputMode, ProcessStatus};
use runbook_tui::config::Command;
use runbook_tui::keybinding::{KeyBinding, KeyCode, KeyEventKind, KeyInput};
use runbook_tui::keys::Action;

fn key(code: KeyCode) -> KeyInput {
    KeyInput { code, control: false, alt: false, shift: false, kind: KeyEventKind::Press }
}

fn ctrl(c: char) -> KeyInput {
    KeyInput { code: KeyCode::Char(c), control: true, alt: false, shift: false, kind: KeyEventKind::Press }
}

fn command(title: &str, k: char, cmd: &str) -> Command {
    Command { title: title.to_string(), key: KeyBinding::Char(k), command: cmd.to_string() }
}

fn runbook() -> App {
    App::new(
        vec![
            command("Ping localhost", 'p', "ping -c 3 127.0.0.1"),
            command("List files", 'l', "ls -la"),
            command("Failing command", 'f', "false"),
        ],
        None,
    )
}

fn api_item(name: &str, url: &str) -> ApiItem {
    ApiItem {
        name: name.to_string(),
        key: KeyBinding::Char('a'),
        method: "GET".to_string(),
        url: url.to_string(),
        headers: Vec::new(),
        body: None,
        variables: Vec::new(),
    }
}

#[test]
fn new_runbook_lists_every_command() {
    let app = runbook();
    assert_eq!(app.app_mode, AppMode::Runbook);
    assert_eq!(app.filtered, vec![0, 1, 2]);
    assert_eq!(app.selected_command, 0);
    assert_eq!(app.focus, Focus::Commands);
    assert_eq!(app.theme_name, "Default");
    assert!(app.log_follow);
}

#[test]
fn saved_theme_is_used() {
    let app = App::new(Vec::new(), Some("Catppuccin Mocha".to_string()));
    assert_eq!(app.theme_name, "Catppuccin Mocha");
}

#[test]
fn arrows_wrap_around_the_list() {
    let mut app = runbook();
    app.handle_key(&key(KeyCode::Up));
    assert_eq!(app.selected_command, 2);
    app.handle_key(&key(KeyCode::Down));
    assert_eq!(app.selected_command, 0);
    app.handle_key(&ctrl('n'));
    assert_eq!(app.selected_command, 1);
    app.handle_key(&ctrl('p'));
    assert_eq!(app.selected_command, 0);
}

#[test]
fn search_filters_case_insensitively() {
    let mut app = runbook();
    app.handle_key(&key(KeyCode::Char('/')));
    assert_eq!(app.input_mode, InputMode::Search);
    for c in "LI".chars() {
        app.handle_key(&key(KeyCode::Char(c)));
    }
    assert_eq!(app.search, "LI");
    assert_eq!(app.filtered, vec![1, 2]);
    app.handle_key(&key(KeyCode::Char('S')));
    assert_eq!(app.filtered, vec![1]);
    app.handle_key(&key(KeyCode::Backspace));
    app.handle_key(&key(KeyCode::Backspace));
    app.handle_key(&key(KeyCode::Backspace));
    assert_eq!(app.filtered, vec![0, 1, 2]);
    app.handle_key(&key(KeyCode::Esc));
    assert_eq!(app.input_mode, InputMode::Normal);
}

#[test]
fn enter_runs_the_selected_command() {
    let mut app = runbook();
    app.handle_key(&key(KeyCode::Down));
    let a = app.handle_key(&key(KeyCode::Enter));
    match a {
        Action::RunProcess { id, command } => {
            assert_eq!(id, 0);
            assert_eq!(command, "ls -la");
        },
        _ => panic!("expected a process to run"),
    }
    assert_eq!(app.processes.len(), 1);
    assert_eq!(app.processes[0].title, "List files");
    assert!(matches!(app.processes[0].status, ProcessStatus::Running));
    assert_eq!(app.process_selected, Some(0));
    assert_eq!(app.id_counter, 1);
}

#[test]
fn letter_keys_run_bound_commands() {
    let mut app = runbook();
    let a = app.handle_key(&key(KeyCode::Char('F')));
    assert!(matches!(a, Action::RunProcess { id: 0, .. }));
    assert_eq!(app.processes[0].title, "Failing command");
    let b = app.handle_key(&key(KeyCode::Char('z')));
    assert!(matches!(b, Action::Nothing));
    assert_eq!(app.processes.len(), 1);
}

#[test]
fn process_output_and_exit_are_recorded() {
    let mut app = runbook();
    app.handle_key(&key(KeyCode::Enter));
    app.push_process_line(0, "PING".to_string());
    app.push_process_line(7, "ignored".to_string());
    app.set_process_exit(0, Some(1));
    assert_eq!(app.processes[0].output.len(), 1);
    assert!(matches!(app.processes[0].status, ProcessStatus::Exited(1)));
}

#[test]
fn tab_cycles_focus_and_help_toggles() {
    let mut app = runbook();
    app.handle_key(&key(KeyCode::Tab));
    assert_eq!(app.focus, Focus::Processes);
    app.handle_key(&key(KeyCode::Tab));
    assert_eq!(app.focus, Focus::Output);
    app.handle_key(&key(KeyCode::Tab));
    assert_eq!(app.focus, Focus::Commands);
    app.handle_key(&key(KeyCode::BackTab));
    assert_eq!(app.focus, Focus::Output);
    app.handle_key(&key(KeyCode::Char('?')));
    assert!(app.show_help);
    app.handle_key(&key(KeyCode::Char('x')));
    assert!(app.show_help);
    app.handle_key(&key(KeyCode::Esc));
    assert!(!app.show_help);
}

#[test]
fn control_c_quits_and_releases_are_ignored() {
    let mut app = runbook();
    let mut release = key(KeyCode::Char('p'));
    release.kind = KeyEventKind::Release;
    assert!(matches!(app.handle_key(&release), Action::Nothing));
    assert!(app.processes.is_empty());
    app.handle_key(&ctrl('c'));
    assert!(app.quit);
}

#[test]
fn zoom_toggles_on_m() {
    let mut app = runbook();
    app.handle_key(&key(KeyCode::Char('m')));
    assert_eq!(app.zoom, Some(Focus::Commands));
    app.handle_key(&key(KeyCode::Char('m')));
    assert_eq!(app.zoom, None);
}

#[test]
fn api_tab_sends_requests_with_variables() {
    let vars = vec![("base".to_string(), "http://h".to_string()), ("env".to_string(), "dev".to_string())];
    let envs = vec![("Prod".to_string(), vec![("env".to_string(), "prod".to_string())])];
    let mut app = App::new_api(
        vec![api_item("Get", "{{base}}/{{env}}"), api_item("Other", "x")],
        vars,
        Vec::new(),
        envs,
        Some(0),
        Vec::new(),
        None,
    );
    assert_eq!(app.app_mode, AppMode::Api);
    assert_eq!(app.filtered_apis, vec![0, 1]);
    assert_eq!(app.selected_environment, Some(0));
    assert_eq!(app.variable_selected, Some(0));
    let env: Vec<(&str, &str)> = app.variables.iter().map(|(k, v)| (k.as_str(), v.as_str())).collect();
    assert_eq!(env, vec![("base", "http://h"), ("env", "prod")]);
    let a = app.handle_key(&key(KeyCode::Enter));
    match a {
        Action::SendRequest { id, item } => {
            assert_eq!(id, 0);
            assert_eq!(item.url, "http://h/prod");
        },
        _ => panic!("expected a request"),
    }
    assert_eq!(app.api_requests.len(), 1);
    assert_eq!(app.api_requests[0].url, "http://h/prod");
    app.push_api_response(0, 200, "content-type: text/plain\n".to_string(), "ok".to_string());
    assert_eq!(app.api_requests[0].body.len(), 1);
    app.set_api_error(0, "boom".to_string());
}

#[test]
fn variables_can_be_edited() {
    let vars = vec![("token".to_string(), "abc".to_string())];
    let mut app = App::new_api(vec![api_item("Get", "x")], vars, vec!["token".to_string()], Vec::new(), None, Vec::new(), None);
    app.focus = Focus::Variables;
    app.handle_key(&key(KeyCode::Enter));
    assert_eq!(app.input_mode, InputMode::VariableEdit);
    assert!(!app.variable_edit_reveal);
    app.handle_key(&key(KeyCode::Backspace));
    app.handle_key(&key(KeyCode::Char('Z')));
    app.handle_key(&key(KeyCode::Enter));
    assert_eq!(app.input_mode, InputMode::Normal);
    assert_eq!(app.variables[0].1, "abZ");
    assert_eq!(app.mask_secret_values("token=abZ"), "token=********");
}

#[test]
fn environment_menu_switches_environment() {
    let vars = vec![("env".to_string(), "dev".to_string())];
    let envs = vec![("Prod".to_string(), vec![("env".to_string(), "prod".to_string())])];
    let mut app = App::new_api(vec![api_item("Get", "x")], vars, Vec::new(), envs, None, Vec::new(), None);
    assert_eq!(app.variables[0].1, "dev");
    app.handle_key(&ctrl('g'));
    assert_eq!(app.input_mode, InputMode::EnvironmentSelect);
    app.handle_key(&key(KeyCode::Down));
    let a = app.handle_key(&key(KeyCode::Enter));
    assert!(matches!(a, Action::Nothing));
    assert_eq!(app.selected_environment, Some(0));
    assert_eq!(app.variables[0].1, "prod");
    assert_eq!(app.input_mode, InputMode::Normal);
}

#[test]
fn import_dialog_keys() {
    let mut app = runbook();
    let a = app.handle_key(&ctrl('o'));
    assert!(matches!(a, Action::OpenImport));
    assert_eq!(app.input_mode, InputMode::Import);
    let b = app.handle_key(&key(KeyCode::Char('t')));
    assert!(matches!(b, Action::RefreshImport));
    assert_eq!(app.import_filter, "t");
    app.handle_key(&key(KeyCode::Esc));
    assert_eq!(app.input_mode, InputMode::Normal);
}

#[test]
fn esc_clears_the_search() {
    let mut app = runbook();
    app.handle_key(&key(KeyCode::Char('/')));
    app.handle_key(&key(KeyCode::Char('p')));
    app.handle_key(&key(KeyCode::Char('i')));
    assert_eq!(app.search, "pi");
    assert_eq!(app.filtered.len(), 1);
    app.handle_key(&key(KeyCode::Esc));
    assert_eq!(app.search, "");
    assert_eq!(app.input_mode, InputMode::Normal);
    assert_eq!(app.filtered, vec![0, 1, 2]);
}
