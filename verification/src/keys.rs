//! Key handling: the effect of a key press on a tab's state, stated as a
//! function from state and key to next state and the work asked of the
//! caller.

use vstd::prelude::*;
use crate::api::{ApiItem, ApiItemView};
use crate::app::{
    EnvironmentChoice, api_names, command_titles, filter_indices, App, AppMode, AppView, Focus, ImportKind, ImportStep,
    InputMode,
};
use crate::config::CommandView;
use crate::keybinding::{matches_spec, KeyCode, KeyEventKind, KeyInput};
use crate::text::lower_text;

verus! {

/// Work a key press asks of the caller.
#[derive(Debug)]
pub enum Action {
    Nothing,
    /// Run the shell command of the new process `id`.
    RunProcess { id: usize, command: String },
    /// Run the tab's CWL document as the new process `id`.
    RunCwl { id: usize },
    /// Send the request `id` for the given entry.
    SendRequest { id: usize, item: ApiItem },
    /// Export the selected process output or request.
    Export,
    /// Save the name of the new theme.
    SaveTheme,
    /// The import dialog was opened: list the working directory.
    OpenImport,
    /// The import filter changed: list the directory again.
    RefreshImport,
    /// Enter the directory of the given import entry.
    EnterImportDir(usize),
    /// Load the file of the given import entry.
    LoadImportFile(usize),
    /// Switch to the given tab.
    SwitchTab(usize),
    /// Jump to the last line of the selected request's body.
    RequestBodyBottom,
}

/// The view of an action.
pub enum ActionView {
    Nothing,
    RunProcess { id: usize, command: Seq<char> },
    RunCwl { id: usize },
    SendRequest { id: usize, item: ApiItemView },
    Export,
    SaveTheme,
    OpenImport,
    RefreshImport,
    EnterImportDir(usize),
    LoadImportFile(usize),
    SwitchTab(usize),
    RequestBodyBottom,
}

impl View for Action {
    type V = ActionView;

    open spec fn view(&self) -> ActionView {
        match self {
            Action::Nothing => ActionView::Nothing,
            Action::RunProcess { id, command } => ActionView::RunProcess { id: *id, command: command@ },
            Action::RunCwl { id } => ActionView::RunCwl { id: *id },
            Action::SendRequest { id, item } => ActionView::SendRequest { id: *id, item: item@ },
            Action::Export => ActionView::Export,
            Action::SaveTheme => ActionView::SaveTheme,
            Action::OpenImport => ActionView::OpenImport,
            Action::RefreshImport => ActionView::RefreshImport,
            Action::EnterImportDir(i) => ActionView::EnterImportDir(*i),
            Action::LoadImportFile(i) => ActionView::LoadImportFile(*i),
            Action::SwitchTab(i) => ActionView::SwitchTab(*i),
            Action::RequestBodyBottom => ActionView::RequestBodyBottom,
        }
    }
}

/// Index of the first command whose key binding `key` triggers, or the
/// length when none does.
pub open spec fn command_key_index(c: Seq<CommandView>, key: KeyInput) -> int
    decreases c.len(),
{
    if c.len() == 0 {
        0
    } else if matches_spec(c[0].key, key) {
        0
    } else {
        1 + command_key_index(c.drop_first(), key)
    }
}

/// Index of the first API entry whose key binding `key` triggers, or the
/// length when none does.
pub open spec fn api_key_index(a: Seq<ApiItemView>, key: KeyInput) -> int
    decreases a.len(),
{
    if a.len() == 0 {
        0
    } else if matches_spec(a[0].key, key) {
        0
    } else {
        1 + api_key_index(a.drop_first(), key)
    }
}

/// The page size of a pane `height` lines tall (at least one line).
pub open spec fn page(height: u16) -> usize {
    if height == 0 {
        1
    } else {
        height as usize
    }
}

impl AppView {
    /// Starts the command at `idx`; the action runs its shell command (or,
    /// in CWL mode, the tab's document).
    pub open spec fn start_command(self, idx: usize) -> (AppView, ActionView) {
        (
            self.spawn(idx),
            if self.app_mode == AppMode::Cwl {
                ActionView::RunCwl { id: self.id_counter }
            } else {
                ActionView::RunProcess { id: self.id_counter, command: self.commands[idx as int].command }
            },
        )
    }

    /// Sends the API entry at `idx`.
    pub open spec fn start_request(self, idx: usize) -> (AppView, ActionView) {
        let (s, item) = self.spawn_api(idx);
        (s, ActionView::SendRequest { id: self.id_counter, item })
    }

    /// Runs the selected filtered command, or sends the selected filtered
    /// API entry.
    pub open spec fn run_selected(self) -> (AppView, ActionView) {
        match self.app_mode {
            AppMode::Api => if self.selected_api < self.filtered_apis.len() {
                self.start_request(self.filtered_apis[self.selected_api as int])
            } else {
                (self, ActionView::Nothing)
            },
            _ => if self.selected_command < self.filtered.len() {
                self.start_command(self.filtered[self.selected_command as int])
            } else {
                (self, ActionView::Nothing)
            },
        }
    }

    /// Runs the first command (or sends the first API entry) whose key
    /// binding the key press triggers.
    pub open spec fn try_keybinding(self, key: KeyInput) -> (AppView, ActionView) {
        match self.app_mode {
            AppMode::Api => {
                let i = api_key_index(self.apis, key);
                if 0 <= i < self.apis.len() {
                    self.start_request(i as usize)
                } else {
                    (self, ActionView::Nothing)
                }
            },
            _ => {
                let i = command_key_index(self.commands, key);
                if 0 <= i < self.commands.len() {
                    self.start_command(i as usize)
                } else {
                    (self, ActionView::Nothing)
                }
            },
        }
    }

    /// A key press in the command (or API) list: Esc clears the search, `/`
    /// enters it, arrows move, Enter runs; other keys edit the search while
    /// searching and otherwise trigger key bindings.
    pub open spec fn list_key(self, key: KeyInput) -> (AppView, ActionView) {
        let api = self.app_mode == AppMode::Api;
        match key.code {
            KeyCode::Esc => (
                if self.input_mode == InputMode::Search || self.search.len() > 0 {
                    self.clear_search()
                } else {
                    self
                },
                ActionView::Nothing,
            ),
            KeyCode::Char('/') => (AppView { input_mode: InputMode::Search, ..self }, ActionView::Nothing),
            KeyCode::Up => (if api { self.prev_api() } else { self.prev_command() }, ActionView::Nothing),
            KeyCode::Down => (if api { self.next_api() } else { self.next_command() }, ActionView::Nothing),
            KeyCode::Enter => self.run_selected(),
            _ => if self.input_mode == InputMode::Search {
                match key.code {
                    KeyCode::Char(c) => if !key.control && !key.alt {
                        (self.search_push(c), ActionView::Nothing)
                    } else {
                        (self, ActionView::Nothing)
                    },
                    KeyCode::Backspace => (self.search_pop(), ActionView::Nothing),
                    _ => (self, ActionView::Nothing),
                }
            } else {
                self.try_keybinding(key)
            },
        }
    }

    /// A key press in the process (or request) list: Esc or `q` returns to
    /// the commands, arrows select, paging keys scroll the output.
    pub open spec fn history_key(self, key: KeyInput) -> AppView {
        let api = self.app_mode == AppMode::Api;
        let p = page(self.log_area_height);
        match key.code {
            KeyCode::Esc => AppView { focus: Focus::Commands, ..self },
            KeyCode::Char('q') => AppView { focus: Focus::Commands, ..self },
            KeyCode::Up => if api { self.prev_request() } else { self.prev_process() },
            KeyCode::Down => if api { self.next_request() } else { self.next_process() },
            KeyCode::PageUp => self.scroll_log_up(p),
            KeyCode::PageDown => self.scroll_log_down(p),
            KeyCode::Home => self.scroll_log_top(),
            KeyCode::End => self.scroll_log_bottom(),
            _ => self,
        }
    }

    /// A key press in the output (or response body): Esc or `q` returns to
    /// the process list, arrows and paging keys scroll.
    pub open spec fn output_key(self, key: KeyInput) -> AppView {
        let p = page(self.log_area_height);
        match key.code {
            KeyCode::Esc => AppView { focus: Focus::Processes, ..self },
            KeyCode::Char('q') => AppView { focus: Focus::Processes, ..self },
            KeyCode::Up => self.scroll_log_up(1),
            KeyCode::Down => self.scroll_log_down(1),
            KeyCode::PageUp => self.scroll_log_up(p),
            KeyCode::PageDown => self.scroll_log_down(p),
            KeyCode::Home => self.scroll_log_top(),
            KeyCode::End => self.scroll_log_bottom(),
            _ => self,
        }
    }

    /// A key press in the request body: Esc or `q` returns to the request
    /// list, arrows and paging keys scroll, End asks for the last line.
    pub open spec fn request_body_key(self, key: KeyInput) -> (AppView, ActionView) {
        let p = page(self.request_body_area_height);
        match key.code {
            KeyCode::Esc => (AppView { focus: Focus::Processes, ..self }, ActionView::Nothing),
            KeyCode::Char('q') => (AppView { focus: Focus::Processes, ..self }, ActionView::Nothing),
            KeyCode::Up => (self.scroll_request_body_up(1), ActionView::Nothing),
            KeyCode::Down => (self.scroll_request_body_down(1), ActionView::Nothing),
            KeyCode::PageUp => (self.scroll_request_body_up(p), ActionView::Nothing),
            KeyCode::PageDown => (self.scroll_request_body_down(p), ActionView::Nothing),
            KeyCode::Home => (self.scroll_request_body_top(), ActionView::Nothing),
            KeyCode::End => (self, ActionView::RequestBodyBottom),
            _ => (self, ActionView::Nothing),
        }
    }

    /// A key press in the variable list: arrows and Control+N/P select,
    /// Enter edits.
    pub open spec fn variables_key(self, key: KeyInput) -> AppView {
        match key.code {
            KeyCode::Up => self.prev_variable(),
            KeyCode::Down => self.next_variable(),
            KeyCode::Enter => self.start_variable_edit(),
            KeyCode::Char('n') => if key.control { self.next_variable() } else { self },
            KeyCode::Char('p') => if key.control { self.prev_variable() } else { self },
            _ => self,
        }
    }

    /// Control+N: the next entry (or line) of the focused pane.
    pub open spec fn ctrl_n(self) -> AppView {
        match (self.app_mode, self.focus) {
            (AppMode::Api, Focus::Commands) => self.next_api(),
            (AppMode::Api, Focus::Variables) => self.next_variable(),
            (AppMode::Api, Focus::Processes) => self.next_request(),
            (AppMode::Api, Focus::RequestBody) => self.scroll_request_body_down(1),
            (AppMode::Api, Focus::ResponseBody) => self.scroll_log_down(1),
            (_, Focus::Output) => self.scroll_log_down(1),
            (AppMode::Api, _) => self,
            (_, Focus::Commands) => self.next_command(),
            (_, Focus::Processes) => self.next_process(),
            _ => self,
        }
    }

    /// Control+P: the previous entry (or line) of the focused pane.
    pub open spec fn ctrl_p(self) -> AppView {
        match (self.app_mode, self.focus) {
            (AppMode::Api, Focus::Commands) => self.prev_api(),
            (AppMode::Api, Focus::Variables) => self.prev_variable(),
            (AppMode::Api, Focus::Processes) => self.prev_request(),
            (AppMode::Api, Focus::RequestBody) => self.scroll_request_body_up(1),
            (AppMode::Api, Focus::ResponseBody) => self.scroll_log_up(1),
            (_, Focus::Output) => self.scroll_log_up(1),
            (AppMode::Api, _) => self,
            (_, Focus::Commands) => self.prev_command(),
            (_, Focus::Processes) => self.prev_process(),
            _ => self,
        }
    }

    /// A key press dispatched to the focused pane.
    pub open spec fn pane_key(self, key: KeyInput) -> (AppView, ActionView) {
        match (self.app_mode, self.focus) {
            (_, Focus::Commands) => self.list_key(key),
            (AppMode::Api, Focus::Variables) => (self.variables_key(key), ActionView::Nothing),
            (_, Focus::Processes) => (self.history_key(key), ActionView::Nothing),
            (AppMode::Api, Focus::RequestBody) => self.request_body_key(key),
            (AppMode::Api, Focus::ResponseBody) => (self.output_key(key), ActionView::Nothing),
            (_, Focus::Output) => (self.output_key(key), ActionView::Nothing),
            _ => (self, ActionView::Nothing),
        }
    }

    /// A key press in the import dialog: Enter enters a directory or loads
    /// a file, arrows and Control+N/P select, typing edits the filter.
    pub open spec fn import_key(self, key: KeyInput) -> (AppView, ActionView) {
        match key.code {
            KeyCode::Enter => {
                let (s, step) = self.import_enter_selected();
                (
                    s,
                    match step {
                        ImportStep::EnterDir(i) => ActionView::EnterImportDir(i),
                        ImportStep::LoadFile(i) => ActionView::LoadImportFile(i),
                        ImportStep::Nothing => ActionView::Nothing,
                    },
                )
            },
            KeyCode::Up => (self.prev_import_entry(), ActionView::Nothing),
            KeyCode::Down => (self.next_import_entry(), ActionView::Nothing),
            KeyCode::Char(c) => if key.control && c == 'n' {
                (self.next_import_entry(), ActionView::Nothing)
            } else if key.control && c == 'p' {
                (self.prev_import_entry(), ActionView::Nothing)
            } else if !key.control && !key.alt {
                (self.import_filter_push(c), ActionView::RefreshImport)
            } else {
                (self, ActionView::Nothing)
            },
            KeyCode::Backspace => {
                let (s, popped) = self.import_filter_pop();
                (s, if popped { ActionView::RefreshImport } else { ActionView::Nothing })
            },
            _ => (self, ActionView::Nothing),
        }
    }

    /// A key press while editing a variable: Enter stores, Esc cancels, `m`
    /// shows or hides the value, other characters and Backspace edit it.
    pub open spec fn variable_edit_key(self, key: KeyInput) -> AppView {
        match key.code {
            KeyCode::Enter => self.confirm_variable_edit(),
            KeyCode::Esc => self.cancel_variable_edit(),
            KeyCode::Char(c) => if !key.control && !key.alt {
                if c == 'm' {
                    self.toggle_variable_edit_reveal()
                } else {
                    self.variable_edit_push(c)
                }
            } else {
                self
            },
            KeyCode::Backspace => self.variable_edit_pop(),
            _ => self,
        }
    }

    /// A key press in the environment menu: Enter acts on the entry, Esc
    /// leaves, arrows and Control+N/P move.
    pub open spec fn environment_select_key(self, key: KeyInput) -> (AppView, ActionView) {
        match key.code {
            KeyCode::Enter => {
                let (s, opened) = self.confirm_environment_select();
                (s, if opened { ActionView::OpenImport } else { ActionView::Nothing })
            },
            KeyCode::Esc => (AppView { input_mode: InputMode::Normal, ..self }, ActionView::Nothing),
            KeyCode::Up => (self.prev_environment(), ActionView::Nothing),
            KeyCode::Down => (self.next_environment(), ActionView::Nothing),
            KeyCode::Char('p') => (if key.control { self.prev_environment() } else { self }, ActionView::Nothing),
            KeyCode::Char('n') => (if key.control { self.next_environment() } else { self }, ActionView::Nothing),
            _ => (self, ActionView::Nothing),
        }
    }

    /// A key press in the tab menu: Enter switches to the selected tab and
    /// leaves, Esc leaves, arrows and Control+N/P move.
    pub open spec fn tab_select_key(self, key: KeyInput) -> (AppView, ActionView) {
        match key.code {
            KeyCode::Enter => (
                AppView { input_mode: InputMode::Normal, ..self },
                match self.tab_selected {
                    Some(i) => ActionView::SwitchTab(i),
                    None => ActionView::Nothing,
                },
            ),
            KeyCode::Esc => (AppView { input_mode: InputMode::Normal, ..self }, ActionView::Nothing),
            KeyCode::Up => (self.prev_tab(), ActionView::Nothing),
            KeyCode::Down => (self.next_tab(), ActionView::Nothing),
            KeyCode::Char('p') => (if key.control { self.prev_tab() } else { self }, ActionView::Nothing),
            KeyCode::Char('n') => (if key.control { self.next_tab() } else { self }, ActionView::Nothing),
            _ => (self, ActionView::Nothing),
        }
    }

    /// A key press with no dialog open: zoom, focus cycling, global
    /// shortcuts, then the focused pane.
    pub open spec fn normal_key(self, key: KeyInput) -> (AppView, ActionView) {
        let c = key.code;
        if c == KeyCode::Char('m') && self.input_mode == InputMode::Normal && !key.control && !key.alt {
            (self.toggle_zoom(), ActionView::Nothing)
        } else if c == KeyCode::BackTab || (c == KeyCode::Tab && key.shift) {
            (self.cycle_focus(false), ActionView::Nothing)
        } else if c == KeyCode::Tab {
            (self.cycle_focus(true), ActionView::Nothing)
        } else if c == KeyCode::Char('e') && key.control {
            (self, ActionView::Export)
        } else if c == KeyCode::Char('g') && key.control {
            (if self.app_mode == AppMode::Api { self.open_environment_select() } else { self }, ActionView::Nothing)
        } else if c == KeyCode::F(3) {
            (self.start_import(ImportKind::NewTab), ActionView::OpenImport)
        } else if c == KeyCode::Char('o') && key.control {
            (self.start_import(ImportKind::File), ActionView::OpenImport)
        } else if c == KeyCode::Char('t') && key.control {
            (self.cycle_theme(), ActionView::SaveTheme)
        } else if c == KeyCode::Char('n') && key.control {
            (self.ctrl_n(), ActionView::Nothing)
        } else if c == KeyCode::Char('p') && key.control {
            (self.ctrl_p(), ActionView::Nothing)
        } else {
            self.pane_key(key)
        }
    }

    /// A key press while a dialog takes the keys: the import dialog,
    /// variable editing, the environment menu or the tab menu.
    pub open spec fn dialog_key(self, key: KeyInput) -> (AppView, ActionView) {
        let c = key.code;
        if self.input_mode == InputMode::Import {
            if c == KeyCode::Esc || (c == KeyCode::Char('o') && key.control) {
                (self.close_import(), ActionView::Nothing)
            } else {
                self.import_key(key)
            }
        } else if self.input_mode == InputMode::VariableEdit {
            (self.variable_edit_key(key), ActionView::Nothing)
        } else if self.input_mode == InputMode::EnvironmentSelect {
            self.environment_select_key(key)
        } else {
            self.tab_select_key(key)
        }
    }

    /// The effect of a key press: only presses count; Control+C quits; the
    /// help overlay, the import dialog, variable editing, the environment
    /// menu and the tab menu take keys first; otherwise see `normal_key`.
    #[verifier::opaque]
    pub open spec fn handle_key(self, key: KeyInput) -> (AppView, ActionView) {
        let c = key.code;
        if key.kind != KeyEventKind::Press {
            (self, ActionView::Nothing)
        } else if c == KeyCode::Char('c') && key.control {
            (AppView { quit: true, ..self }, ActionView::Nothing)
        } else if self.show_help {
            if c == KeyCode::Char('?') || c == KeyCode::Esc || c == KeyCode::Char('q') {
                (AppView { show_help: false, ..self }, ActionView::Nothing)
            } else {
                (self, ActionView::Nothing)
            }
        } else if c == KeyCode::Char('?') && self.input_mode == InputMode::Normal {
            (AppView { show_help: true, ..self }, ActionView::Nothing)
        } else if self.input_mode == InputMode::Import || self.input_mode == InputMode::VariableEdit
            || self.input_mode == InputMode::EnvironmentSelect || self.input_mode == InputMode::TabSelect {
            self.dialog_key(key)
        } else {
            self.normal_key(key)
        }
    }
}

/// Key releases and repeats change nothing and ask for nothing.
pub proof fn lemma_non_press_ignored(s: AppView, key: KeyInput)
    requires
        key.kind != KeyEventKind::Press,
    ensures
        s.handle_key(key) == (s, ActionView::Nothing),
{
    reveal(AppView::handle_key);
}

/// While the help overlay is shown it takes every key press but Control+C:
/// `?`, Esc and `q` close it, any other key is ignored, and nothing else
/// changes.
pub proof fn lemma_help_overlay_takes_keys(s: AppView, key: KeyInput)
    requires
        s.show_help,
        key.kind == KeyEventKind::Press,
        !(key.code == KeyCode::Char('c') && key.control),
    ensures
        s.handle_key(key) == (
            AppView {
                show_help: !(key.code == KeyCode::Char('?') || key.code == KeyCode::Esc || key.code
                    == KeyCode::Char('q')),
                ..s
            },
            ActionView::Nothing,
        ),
{
    reveal(AppView::handle_key);
}

/// With no dialog or help open, Esc or `q` in the process (or request)
/// list goes back to the command list and changes nothing else; in the
/// output (or response body) they go back to the process list.
pub proof fn lemma_escape_goes_back(s: AppView, key: KeyInput)
    requires
        s.input_mode == InputMode::Normal,
        !s.show_help,
        key.kind == KeyEventKind::Press,
        key.code == KeyCode::Esc || key.code == KeyCode::Char('q'),
    ensures
        s.focus == Focus::Processes ==> s.handle_key(key) == (
            AppView { focus: Focus::Commands, ..s },
            ActionView::Nothing,
        ),
        s.focus == Focus::Output || (s.app_mode == AppMode::Api && s.focus == Focus::ResponseBody)
            ==> s.handle_key(key) == (AppView { focus: Focus::Processes, ..s }, ActionView::Nothing),
{
    reveal(AppView::handle_key);
}

proof fn lemma_command_key_index(c: Seq<CommandView>, key: KeyInput, i: int)
    requires
        0 <= i <= c.len(),
        forall|j: int| 0 <= j < i ==> !matches_spec(c[j].key, key),
        i < c.len() ==> matches_spec(c[i].key, key),
    ensures
        command_key_index(c, key) == i,
    decreases i,
{
    if i > 0 {
        let t = c.drop_first();
        assert forall|j: int| 0 <= j < i - 1 implies !matches_spec(t[j].key, key) by {
            assert(t[j] == c[j + 1]);
        }
        if i < c.len() {
            assert(t[i - 1] == c[i]);
        }
        lemma_command_key_index(t, key, i - 1);
    }
}

proof fn lemma_api_key_index(a: Seq<ApiItemView>, key: KeyInput, i: int)
    requires
        0 <= i <= a.len(),
        forall|j: int| 0 <= j < i ==> !matches_spec(a[j].key, key),
        i < a.len() ==> matches_spec(a[i].key, key),
    ensures
        api_key_index(a, key) == i,
    decreases i,
{
    if i > 0 {
        let t = a.drop_first();
        assert forall|j: int| 0 <= j < i - 1 implies !matches_spec(t[j].key, key) by {
            assert(t[j] == a[j + 1]);
        }
        if i < a.len() {
            assert(t[i - 1] == a[i]);
        }
        lemma_api_key_index(t, key, i - 1);
    }
}

proof fn lemma_filter_indices_bound(titles: Seq<Seq<char>>, q: Seq<char>, n: int)
    requires
        n <= usize::MAX + 1,
    ensures
        forall|j: int|
            0 <= j < filter_indices(titles, q, n).len() ==> #[trigger] filter_indices(titles, q, n)[j] < n,
    decreases n,
{
    if n > 0 {
        lemma_filter_indices_bound(titles, q, n - 1);
        let a = filter_indices(titles, q, n - 1);
        let r = filter_indices(titles, q, n);
        assert forall|j: int| 0 <= j < r.len() implies #[trigger] r[j] < n by {
            if j < a.len() {
                assert(r[j] == a[j]);
            }
        }
    }
}

proof fn lemma_update_filtered_wf(s: AppView)
    requires
        s.wf(),
        s.commands.len() <= usize::MAX,
        s.apis.len() <= usize::MAX,
    ensures
        s.update_filtered().wf(),
{
    let q = lower_text(s.search);
    lemma_filter_indices_bound(api_names(s.apis), q, s.apis.len() as int);
    lemma_filter_indices_bound(command_titles(s.commands), q, s.commands.len() as int);
}

proof fn lemma_search_wf(s: AppView, c: char)
    requires
        s.wf(),
        s.commands.len() <= usize::MAX,
        s.apis.len() <= usize::MAX,
    ensures
        s.search_push(c).wf(),
        s.search_pop().wf(),
{
    let s1 = AppView { search: s.search.push(c), ..s };
    let s1 = if s.app_mode == AppMode::Runbook {
        AppView { selected_command: 0, ..s1 }
    } else {
        AppView { selected_api: 0, ..s1 }
    };
    lemma_update_filtered_wf(s1);
    let s2 = AppView { search: if s.search.len() > 0 { s.search.drop_last() } else { s.search }, ..s };
    let s2 = if s.app_mode == AppMode::Runbook {
        AppView { selected_command: 0, ..s2 }
    } else {
        AppView { selected_api: 0, ..s2 }
    };
    lemma_update_filtered_wf(s2);
}

proof fn lemma_start_wf(s: AppView, idx: usize)
    requires
        s.wf(),
    ensures
        s.start_command(idx).0.wf(),
        s.start_request(idx).0.wf(),
{
}

proof fn lemma_run_selected_wf(s: AppView)
    requires
        s.wf(),
    ensures
        s.run_selected().0.wf(),
{
    if s.app_mode == AppMode::Api {
        if s.selected_api < s.filtered_apis.len() {
            lemma_start_wf(s, s.filtered_apis[s.selected_api as int]);
        }
    } else {
        if s.selected_command < s.filtered.len() {
            lemma_start_wf(s, s.filtered[s.selected_command as int]);
        }
    }
}

proof fn lemma_try_keybinding_wf(s: AppView, key: KeyInput)
    requires
        s.wf(),
    ensures
        s.try_keybinding(key).0.wf(),
{
    if s.app_mode == AppMode::Api {
        let i = api_key_index(s.apis, key);
        if 0 <= i < s.apis.len() {
            lemma_start_wf(s, i as usize);
        }
    } else {
        let i = command_key_index(s.commands, key);
        if 0 <= i < s.commands.len() {
            lemma_start_wf(s, i as usize);
        }
    }
}

proof fn lemma_list_key_wf(s: AppView, key: KeyInput)
    requires
        s.wf(),
        s.commands.len() <= usize::MAX,
        s.apis.len() <= usize::MAX,
    ensures
        s.list_key(key).0.wf(),
{
    match key.code {
        KeyCode::Esc => {
            lemma_update_filtered_wf(AppView { input_mode: InputMode::Normal, search: Seq::empty(), ..s });
        },
        KeyCode::Up => {},
        KeyCode::Down => {},
        KeyCode::Enter => {
            lemma_run_selected_wf(s);
        },
        KeyCode::Char(c) => {
            if c != '/' {
                if s.input_mode == InputMode::Search {
                    lemma_search_wf(s, c);
                } else {
                    lemma_try_keybinding_wf(s, key);
                }
            }
        },
        KeyCode::Backspace => {
            if s.input_mode == InputMode::Search {
                lemma_search_wf(s, ' ');
            } else {
                lemma_try_keybinding_wf(s, key);
            }
        },
        _ => {
            lemma_try_keybinding_wf(s, key);
        },
    }
}

proof fn lemma_pane_key_wf(s: AppView, key: KeyInput)
    requires
        s.wf(),
        s.commands.len() <= usize::MAX,
        s.apis.len() <= usize::MAX,
    ensures
        s.pane_key(key).0.wf(),
{
    if s.focus == Focus::Commands {
        lemma_list_key_wf(s, key);
    } else if s.app_mode == AppMode::Api && s.focus == Focus::Variables {
        assert(s.variables_key(key).wf());
    } else if s.focus == Focus::Processes {
        assert(s.history_key(key).wf());
    } else if s.app_mode == AppMode::Api && s.focus == Focus::RequestBody {
        assert(s.request_body_key(key).0.wf());
    } else {
        assert(s.output_key(key).wf());
    }
}

proof fn lemma_normal_key_wf(s: AppView, key: KeyInput)
    requires
        s.wf(),
        s.commands.len() <= usize::MAX,
        s.apis.len() <= usize::MAX,
    ensures
        s.normal_key(key).0.wf(),
{
    let c = key.code;
    if c == KeyCode::Char('m') && s.input_mode == InputMode::Normal && !key.control && !key.alt {
        assert(s.toggle_zoom().wf());
    } else if c == KeyCode::BackTab || (c == KeyCode::Tab && key.shift) {
        assert(s.cycle_focus(false).wf());
    } else if c == KeyCode::Tab {
        assert(s.cycle_focus(true).wf());
    } else if c == KeyCode::Char('e') && key.control {
    } else if c == KeyCode::Char('g') && key.control {
        assert(s.open_environment_select().wf());
    } else if c == KeyCode::F(3) {
        assert(s.start_import(ImportKind::NewTab).wf());
    } else if c == KeyCode::Char('o') && key.control {
        assert(s.start_import(ImportKind::File).wf());
    } else if c == KeyCode::Char('t') && key.control {
        assert(s.cycle_theme().wf());
    } else if c == KeyCode::Char('n') && key.control {
        assert(s.ctrl_n().wf());
    } else if c == KeyCode::Char('p') && key.control {
        assert(s.ctrl_p().wf());
    } else {
        lemma_pane_key_wf(s, key);
    }
}

proof fn lemma_set_environment_wf(s: AppView, index: Option<usize>)
    requires
        s.wf(),
    ensures
        s.set_environment(index).wf(),
        (AppView { env_overlay: !s.env_overlay, ..s }).recompute_variables().wf(),
{
    reveal(AppView::set_environment);
    reveal(AppView::recompute_variables);
}

proof fn lemma_confirm_environment_wf(s: AppView)
    requires
        s.wf(),
    ensures
        s.confirm_environment_select().0.wf(),
{
    match s.choice_at() {
        Some(EnvironmentChoice::Collection) => {
            lemma_set_environment_wf(s, None);
        },
        Some(EnvironmentChoice::Environment(i)) => {
            lemma_set_environment_wf(s, Some(i));
        },
        Some(EnvironmentChoice::ToggleEnvOverlay) => {
            lemma_set_environment_wf(s, None);
        },
        _ => {},
    }
}

proof fn lemma_environment_select_key_wf(s: AppView, key: KeyInput)
    requires
        s.wf(),
    ensures
        s.environment_select_key(key).0.wf(),
{
    match key.code {
        KeyCode::Enter => {
            lemma_confirm_environment_wf(s);
        },
        KeyCode::Esc => {},
        KeyCode::Up => {
            assert(s.prev_environment().wf());
        },
        KeyCode::Down => {
            assert(s.next_environment().wf());
        },
        _ => {
            assert(s.prev_environment().wf());
            assert(s.next_environment().wf());
        },
    }
}

proof fn lemma_import_key_wf(s: AppView, key: KeyInput)
    requires
        s.wf(),
    ensures
        s.import_key(key).0.wf(),
{
    match key.code {
        KeyCode::Enter => {
            assert(s.import_enter_selected().0.wf());
        },
        KeyCode::Up => {},
        KeyCode::Down => {},
        KeyCode::Char(c) => {
            assert(s.import_filter_push(c).wf());
        },
        KeyCode::Backspace => {
            assert(s.import_filter_pop().0.wf());
        },
        _ => {},
    }
}

proof fn lemma_variable_edit_key_wf(s: AppView, key: KeyInput)
    requires
        s.wf(),
    ensures
        s.variable_edit_key(key).wf(),
{
    match key.code {
        KeyCode::Enter => {
            assert(s.confirm_variable_edit().wf());
        },
        KeyCode::Esc => {},
        KeyCode::Char(c) => {
            assert(s.variable_edit_push(c).wf());
        },
        KeyCode::Backspace => {},
        _ => {},
    }
}

proof fn lemma_dialog_key_wf(s: AppView, key: KeyInput)
    requires
        s.wf(),
    ensures
        s.dialog_key(key).0.wf(),
{
    if s.input_mode == InputMode::Import {
        lemma_import_key_wf(s, key);
    } else if s.input_mode == InputMode::VariableEdit {
        lemma_variable_edit_key_wf(s, key);
    } else if s.input_mode == InputMode::EnvironmentSelect {
        lemma_environment_select_key_wf(s, key);
    } else {
        assert(s.tab_select_key(key).0.wf());
    }
}

/// Every key press keeps the state invariant: the filtered lists index
/// existing commands and API entries, and the selections stay inside them.
pub proof fn lemma_handle_key_keeps_wf(s: AppView, key: KeyInput)
    requires
        s.wf(),
        s.commands.len() <= usize::MAX,
        s.apis.len() <= usize::MAX,
    ensures
        s.handle_key(key).0.wf(),
{
    reveal(AppView::handle_key);
    lemma_normal_key_wf(s, key);
    lemma_dialog_key_wf(s, key);
}

impl App {
    /// Starts the command at `idx` (see `AppView::start_command`).
    fn start_command(&mut self, idx: usize) -> (a: Action)
        requires
            idx < old(self)@.commands.len(),
            old(self)@.id_counter < usize::MAX,
        ensures
            (final(self)@, a@) == old(self)@.start_command(idx),
    {
        let command = self.commands[idx].command.clone();
        let id = self.spawn(idx);
        if self.app_mode == AppMode::Cwl {
            Action::RunCwl { id }
        } else {
            Action::RunProcess { id, command }
        }
    }

    /// Sends the API entry at `idx` (see `AppView::start_request`).
    fn start_request(&mut self, idx: usize) -> (a: Action)
        requires
            idx < old(self)@.apis.len(),
            old(self)@.id_counter < usize::MAX,
        ensures
            (final(self)@, a@) == old(self)@.start_request(idx),
    {
        let (id, item) = self.spawn_api(idx);
        Action::SendRequest { id, item }
    }

    /// Runs the selected filtered command or sends the selected filtered
    /// API entry.
    pub fn run_selected(&mut self) -> (a: Action)
        requires
            old(self)@.wf(),
            old(self)@.id_counter < usize::MAX,
        ensures
            (final(self)@, a@) == old(self)@.run_selected(),
    {
        match self.app_mode {
            AppMode::Api => {
                if self.selected_api < self.filtered_apis.len() {
                    let idx = self.filtered_apis[self.selected_api];
                    self.start_request(idx)
                } else {
                    Action::Nothing
                }
            },
            _ => {
                if self.selected_command < self.filtered.len() {
                    let idx = self.filtered[self.selected_command];
                    self.start_command(idx)
                } else {
                    Action::Nothing
                }
            },
        }
    }

    /// Runs the first command (or sends the first API entry) whose key
    /// binding the key press triggers.
    pub fn try_keybinding(&mut self, key: &KeyInput) -> (a: Action)
        requires
            old(self)@.id_counter < usize::MAX,
        ensures
            (final(self)@, a@) == old(self)@.try_keybinding(*key),
    {
        match self.app_mode {
            AppMode::Api => {
                let mut i: usize = 0;
                while i < self.apis.len()
                    invariant
                        i <= self.apis@.len(),
                        self@ == old(self)@,
                        self.app_mode == AppMode::Api,
                        self@.id_counter < usize::MAX,
                        forall|j: int| 0 <= j < i ==> !matches_spec(self@.apis[j].key, *key),
                    decreases self.apis@.len() - i,
                {
                    if self.apis[i].key.matches(key) {
                        proof {
                            lemma_api_key_index(self@.apis, *key, i as int);
                        }
                        return self.start_request(i);
                    }
                    i = i + 1;
                }
                proof {
                    lemma_api_key_index(self@.apis, *key, i as int);
                }
                Action::Nothing
            },
            _ => {
                let mut i: usize = 0;
                while i < self.commands.len()
                    invariant
                        i <= self.commands@.len(),
                        self@ == old(self)@,
                        self.app_mode != AppMode::Api,
                        self@.id_counter < usize::MAX,
                        forall|j: int| 0 <= j < i ==> !matches_spec(self@.commands[j].key, *key),
                    decreases self.commands@.len() - i,
                {
                    if self.commands[i].key.matches(key) {
                        proof {
                            lemma_command_key_index(self@.commands, *key, i as int);
                        }
                        return self.start_command(i);
                    }
                    i = i + 1;
                }
                proof {
                    lemma_command_key_index(self@.commands, *key, i as int);
                }
                Action::Nothing
            },
        }
    }

    /// A key press in the command (or API) list (see `AppView::list_key`).
    fn list_key(&mut self, key: &KeyInput) -> (a: Action)
        requires
            old(self)@.wf(),
            old(self)@.id_counter < usize::MAX,
        ensures
            (final(self)@, a@) == old(self)@.list_key(*key),
    {
        let api = self.app_mode == AppMode::Api;
        match key.code {
            KeyCode::Esc => {
                if self.input_mode == InputMode::Search || crate::text::char_count(self.search.as_str()) > 0 {
                    self.clear_search();
                }
                Action::Nothing
            },
            KeyCode::Char('/') => {
                self.input_mode = InputMode::Search;
                Action::Nothing
            },
            KeyCode::Up => {
                if api {
                    self.select_prev_api();
                } else {
                    self.select_prev_command();
                }
                Action::Nothing
            },
            KeyCode::Down => {
                if api {
                    self.select_next_api();
                } else {
                    self.select_next_command();
                }
                Action::Nothing
            },
            KeyCode::Enter => self.run_selected(),
            _ => {
                if self.input_mode == InputMode::Search {
                    match key.code {
                        KeyCode::Char(c) => {
                            if !key.control && !key.alt {
                                self.search_push(c);
                            }
                            Action::Nothing
                        },
                        KeyCode::Backspace => {
                            self.search_pop();
                            Action::Nothing
                        },
                        _ => Action::Nothing,
                    }
                } else {
                    self.try_keybinding(key)
                }
            },
        }
    }

    /// A key press in the process (or request) list.
    fn history_key(&mut self, key: &KeyInput)
        ensures
            final(self)@ == old(self)@.history_key(*key),
    {
        let api = self.app_mode == AppMode::Api;
        let p: usize = if self.log_area_height == 0 {
            1
        } else {
            self.log_area_height as usize
        };
        match key.code {
            KeyCode::Esc => self.focus = Focus::Commands,
            KeyCode::Char('q') => self.focus = Focus::Commands,
            KeyCode::Up => if api {
                self.select_prev_request();
            } else {
                self.select_prev_process();
            },
            KeyCode::Down => if api {
                self.select_next_request();
            } else {
                self.select_next_process();
            },
            KeyCode::PageUp => self.scroll_log_up(p),
            KeyCode::PageDown => self.scroll_log_down(p),
            KeyCode::Home => self.scroll_log_top(),
            KeyCode::End => self.scroll_log_bottom(),
            _ => {},
        }
    }

    /// A key press in the output (or response body).
    fn output_key(&mut self, key: &KeyInput)
        ensures
            final(self)@ == old(self)@.output_key(*key),
    {
        let p: usize = if self.log_area_height == 0 {
            1
        } else {
            self.log_area_height as usize
        };
        match key.code {
            KeyCode::Esc => self.focus = Focus::Processes,
            KeyCode::Char('q') => self.focus = Focus::Processes,
            KeyCode::Up => self.scroll_log_up(1),
            KeyCode::Down => self.scroll_log_down(1),
            KeyCode::PageUp => self.scroll_log_up(p),
            KeyCode::PageDown => self.scroll_log_down(p),
            KeyCode::Home => self.scroll_log_top(),
            KeyCode::End => self.scroll_log_bottom(),
            _ => {},
        }
    }

    /// A key press in the request body.
    fn request_body_key(&mut self, key: &KeyInput) -> (a: Action)
        ensures
            (final(self)@, a@) == old(self)@.request_body_key(*key),
    {
        let p: usize = if self.request_body_area_height == 0 {
            1
        } else {
            self.request_body_area_height as usize
        };
        match key.code {
            KeyCode::Esc => {
                self.focus = Focus::Processes;
                Action::Nothing
            },
            KeyCode::Char('q') => {
                self.focus = Focus::Processes;
                Action::Nothing
            },
            KeyCode::Up => {
                self.scroll_request_body_up(1);
                Action::Nothing
            },
            KeyCode::Down => {
                self.scroll_request_body_down(1);
                Action::Nothing
            },
            KeyCode::PageUp => {
                self.scroll_request_body_up(p);
                Action::Nothing
            },
            KeyCode::PageDown => {
                self.scroll_request_body_down(p);
                Action::Nothing
            },
            KeyCode::Home => {
                self.scroll_request_body_top();
                Action::Nothing
            },
            KeyCode::End => Action::RequestBodyBottom,
            _ => Action::Nothing,
        }
    }

    /// A key press in the variable list.
    fn variables_key(&mut self, key: &KeyInput)
        ensures
            final(self)@ == old(self)@.variables_key(*key),
    {
        match key.code {
            KeyCode::Up => self.select_prev_variable(),
            KeyCode::Down => self.select_next_variable(),
            KeyCode::Enter => self.start_variable_edit(),
            KeyCode::Char('n') => if key.control {
                self.select_next_variable();
            },
            KeyCode::Char('p') => if key.control {
                self.select_prev_variable();
            },
            _ => {},
        }
    }

    /// Control+N in the focused pane.
    pub fn handle_ctrl_n(&mut self)
        ensures
            final(self)@ == old(self)@.ctrl_n(),
    {
        match (self.app_mode, self.focus) {
            (AppMode::Api, Focus::Commands) => self.select_next_api(),
            (AppMode::Api, Focus::Variables) => self.select_next_variable(),
            (AppMode::Api, Focus::Processes) => self.select_next_request(),
            (AppMode::Api, Focus::RequestBody) => self.scroll_request_body_down(1),
            (AppMode::Api, Focus::ResponseBody) => self.scroll_log_down(1),
            (_, Focus::Output) => self.scroll_log_down(1),
            (AppMode::Api, _) => {},
            (_, Focus::Commands) => self.select_next_command(),
            (_, Focus::Processes) => self.select_next_process(),
            _ => {},
        }
    }

    /// Control+P in the focused pane.
    pub fn handle_ctrl_p(&mut self)
        ensures
            final(self)@ == old(self)@.ctrl_p(),
    {
        match (self.app_mode, self.focus) {
            (AppMode::Api, Focus::Commands) => self.select_prev_api(),
            (AppMode::Api, Focus::Variables) => self.select_prev_variable(),
            (AppMode::Api, Focus::Processes) => self.select_prev_request(),
            (AppMode::Api, Focus::RequestBody) => self.scroll_request_body_up(1),
            (AppMode::Api, Focus::ResponseBody) => self.scroll_log_up(1),
            (_, Focus::Output) => self.scroll_log_up(1),
            (AppMode::Api, _) => {},
            (_, Focus::Commands) => self.select_prev_command(),
            (_, Focus::Processes) => self.select_prev_process(),
            _ => {},
        }
    }

    /// A key press dispatched to the focused pane.
    fn pane_key(&mut self, key: &KeyInput) -> (a: Action)
        requires
            old(self)@.wf(),
            old(self)@.id_counter < usize::MAX,
        ensures
            (final(self)@, a@) == old(self)@.pane_key(*key),
    {
        match (self.app_mode, self.focus) {
            (_, Focus::Commands) => self.list_key(key),
            (AppMode::Api, Focus::Variables) => {
                self.variables_key(key);
                Action::Nothing
            },
            (_, Focus::Processes) => {
                self.history_key(key);
                Action::Nothing
            },
            (AppMode::Api, Focus::RequestBody) => self.request_body_key(key),
            (AppMode::Api, Focus::ResponseBody) => {
                self.output_key(key);
                Action::Nothing
            },
            (_, Focus::Output) => {
                self.output_key(key);
                Action::Nothing
            },
            _ => Action::Nothing,
        }
    }

    /// A key press in the import dialog.
    fn import_key(&mut self, key: &KeyInput) -> (a: Action)
        ensures
            (final(self)@, a@) == old(self)@.import_key(*key),
    {
        match key.code {
            KeyCode::Enter => match self.import_enter_selected() {
                ImportStep::EnterDir(i) => Action::EnterImportDir(i),
                ImportStep::LoadFile(i) => Action::LoadImportFile(i),
                ImportStep::Nothing => Action::Nothing,
            },
            KeyCode::Up => {
                self.select_prev_import_entry();
                Action::Nothing
            },
            KeyCode::Down => {
                self.select_next_import_entry();
                Action::Nothing
            },
            KeyCode::Char(c) => {
                if key.control && c == 'n' {
                    self.select_next_import_entry();
                    Action::Nothing
                } else if key.control && c == 'p' {
                    self.select_prev_import_entry();
                    Action::Nothing
                } else if !key.control && !key.alt {
                    self.import_filter_push(c);
                    Action::RefreshImport
                } else {
                    Action::Nothing
                }
            },
            KeyCode::Backspace => {
                if self.import_filter_pop() {
                    Action::RefreshImport
                } else {
                    Action::Nothing
                }
            },
            _ => Action::Nothing,
        }
    }

    /// A key press while editing a variable.
    fn variable_edit_key(&mut self, key: &KeyInput)
        ensures
            final(self)@ == old(self)@.variable_edit_key(*key),
    {
        match key.code {
            KeyCode::Enter => self.confirm_variable_edit(),
            KeyCode::Esc => self.cancel_variable_edit(),
            KeyCode::Char(c) => {
                if !key.control && !key.alt {
                    if c == 'm' {
                        self.toggle_variable_edit_reveal();
                    } else {
                        self.variable_edit_push(c);
                    }
                }
            },
            KeyCode::Backspace => self.variable_edit_pop(),
            _ => {},
        }
    }

    /// A key press in the environment menu.
    fn environment_select_key(&mut self, key: &KeyInput) -> (a: Action)
        ensures
            (final(self)@, a@) == old(self)@.environment_select_key(*key),
    {
        match key.code {
            KeyCode::Enter => {
                if self.confirm_environment_select() {
                    Action::OpenImport
                } else {
                    Action::Nothing
                }
            },
            KeyCode::Esc => {
                self.cancel_environment_select();
                Action::Nothing
            },
            KeyCode::Up => {
                self.select_prev_environment();
                Action::Nothing
            },
            KeyCode::Down => {
                self.select_next_environment();
                Action::Nothing
            },
            KeyCode::Char('p') => {
                if key.control {
                    self.select_prev_environment();
                }
                Action::Nothing
            },
            KeyCode::Char('n') => {
                if key.control {
                    self.select_next_environment();
                }
                Action::Nothing
            },
            _ => Action::Nothing,
        }
    }

    /// A key press in the tab menu.
    fn tab_select_key(&mut self, key: &KeyInput) -> (a: Action)
        ensures
            (final(self)@, a@) == old(self)@.tab_select_key(*key),
    {
        match key.code {
            KeyCode::Enter => {
                let a = match self.tab_selected {
                    Some(i) => Action::SwitchTab(i),
                    None => Action::Nothing,
                };
                self.input_mode = InputMode::Normal;
                a
            },
            KeyCode::Esc => {
                self.input_mode = InputMode::Normal;
                Action::Nothing
            },
            KeyCode::Up => {
                self.select_prev_tab();
                Action::Nothing
            },
            KeyCode::Down => {
                self.select_next_tab();
                Action::Nothing
            },
            KeyCode::Char('p') => {
                if key.control {
                    self.select_prev_tab();
                }
                Action::Nothing
            },
            KeyCode::Char('n') => {
                if key.control {
                    self.select_next_tab();
                }
                Action::Nothing
            },
            _ => Action::Nothing,
        }
    }

    /// A key press with no dialog open.
    fn normal_key(&mut self, key: &KeyInput) -> (a: Action)
        requires
            old(self)@.wf(),
            old(self)@.id_counter < usize::MAX,
        ensures
            (final(self)@, a@) == old(self)@.normal_key(*key),
    {
        let c = key.code;
        if c == KeyCode::Char('m') && self.input_mode == InputMode::Normal && !key.control && !key.alt {
            self.toggle_zoom();
            Action::Nothing
        } else if c == KeyCode::BackTab || (c == KeyCode::Tab && key.shift) {
            self.cycle_focus(false);
            Action::Nothing
        } else if c == KeyCode::Tab {
            self.cycle_focus(true);
            Action::Nothing
        } else if c == KeyCode::Char('e') && key.control {
            Action::Export
        } else if c == KeyCode::Char('g') && key.control {
            if self.app_mode == AppMode::Api {
                self.open_environment_select();
            }
            Action::Nothing
        } else if c == KeyCode::F(3) {
            self.start_import(ImportKind::NewTab);
            Action::OpenImport
        } else if c == KeyCode::Char('o') && key.control {
            self.start_import(ImportKind::File);
            Action::OpenImport
        } else if c == KeyCode::Char('t') && key.control {
            self.cycle_theme();
            Action::SaveTheme
        } else if c == KeyCode::Char('n') && key.control {
            self.handle_ctrl_n();
            Action::Nothing
        } else if c == KeyCode::Char('p') && key.control {
            self.handle_ctrl_p();
            Action::Nothing
        } else {
            self.pane_key(key)
        }
    }

    /// A key press while a dialog takes the keys.
    fn dialog_key(&mut self, key: &KeyInput) -> (a: Action)
        ensures
            (final(self)@, a@) == old(self)@.dialog_key(*key),
    {
        let c = key.code;
        if self.input_mode == InputMode::Import {
            if c == KeyCode::Esc || (c == KeyCode::Char('o') && key.control) {
                self.close_import();
                Action::Nothing
            } else {
                self.import_key(key)
            }
        } else if self.input_mode == InputMode::VariableEdit {
            self.variable_edit_key(key);
            Action::Nothing
        } else if self.input_mode == InputMode::EnvironmentSelect {
            self.environment_select_key(key)
        } else {
            self.tab_select_key(key)
        }
    }

    /// Applies a key press (see `AppView::handle_key`) and returns the work
    /// it asks of the caller.
    pub fn handle_key(&mut self, key: &KeyInput) -> (a: Action)
        requires
            old(self)@.wf(),
            old(self)@.id_counter < usize::MAX,
        ensures
            (final(self)@, a@) == old(self)@.handle_key(*key),
            final(self)@.wf(),
    {
        let n_commands = self.commands.len();
        let n_apis = self.apis.len();
        proof {
            assert(old(self)@.commands.len() == n_commands);
            assert(old(self)@.apis.len() == n_apis);
            lemma_handle_key_keeps_wf(old(self)@, *key);
        }
        self.dispatch_key(key)
    }

    /// The dispatch of `handle_key`, without the invariant.
    #[verifier::rlimit(30)]
    fn dispatch_key(&mut self, key: &KeyInput) -> (a: Action)
        requires
            old(self)@.wf(),
            old(self)@.id_counter < usize::MAX,
        ensures
            (final(self)@, a@) == old(self)@.handle_key(*key),
    {
        proof {
            reveal(AppView::handle_key);
        }
        let c = key.code;
        if key.kind != KeyEventKind::Press {
            return Action::Nothing;
        }
        if c == KeyCode::Char('c') && key.control {
            self.quit = true;
            return Action::Nothing;
        }
        if self.show_help {
            if c == KeyCode::Char('?') || c == KeyCode::Esc || c == KeyCode::Char('q') {
                self.show_help = false;
            }
            return Action::Nothing;
        }
        if c == KeyCode::Char('?') && self.input_mode == InputMode::Normal {
            self.show_help = true;
            return Action::Nothing;
        }
        if self.input_mode == InputMode::Import || self.input_mode == InputMode::VariableEdit
            || self.input_mode == InputMode::EnvironmentSelect || self.input_mode == InputMode::TabSelect {
            return self.dialog_key(key);
        }
        self.normal_key(key)
    }
}

// ----------------------------------------------------------------------------
// Tabs and events
// ----------------------------------------------------------------------------

/// What a key press does to the tabs.
#[derive(Debug, Clone, Copy, PartialEq, Eq, Structural)]
pub enum TabAction {
    /// Nothing: a key that is not a press, or tab keys with too few tabs.
    Ignore,
    /// Show the tab with this index.
    Switch(usize),
    /// Open the tab menu of the current tab.
    OpenTabSelect,
    /// The key is for the current tab.
    Pass,
}

/// The effect of a key press on the tabs: F2 toggles between two tabs or
/// opens the tab menu when there are more; Control with Right or Left moves
/// to the next or previous tab, wrapping around; other presses go to the
/// current tab.
pub open spec fn tab_key_spec(key: KeyInput, tabs: usize, current: usize) -> TabAction {
    if key.kind != KeyEventKind::Press {
        TabAction::Ignore
    } else if key.code == KeyCode::F(2) {
        if tabs < 2 {
            TabAction::Ignore
        } else if tabs == 2 {
            TabAction::Switch((1 - current) as usize)
        } else {
            TabAction::OpenTabSelect
        }
    } else if key.code == KeyCode::Right && key.control {
        if tabs > 1 {
            TabAction::Switch(((current + 1) % (tabs as int)) as usize)
        } else {
            TabAction::Ignore
        }
    } else if key.code == KeyCode::Left && key.control {
        if tabs > 1 {
            TabAction::Switch(((current + tabs - 1) % (tabs as int)) as usize)
        } else {
            TabAction::Ignore
        }
    } else {
        TabAction::Pass
    }
}

/// The effect of a key press on the tabs (see `tab_key_spec`).
pub fn tab_key(key: &KeyInput, tabs: usize, current: usize) -> (r: TabAction)
    requires
        current < tabs,
    ensures
        r == tab_key_spec(*key, tabs, current),
        r matches TabAction::Switch(t) ==> t < tabs,
{
    if key.kind != KeyEventKind::Press {
        return TabAction::Ignore;
    }
    if key.code == KeyCode::F(2) {
        if tabs < 2 {
            return TabAction::Ignore;
        }
        if tabs == 2 {
            return TabAction::Switch(1 - current);
        }
        return TabAction::OpenTabSelect;
    }
    if key.code == KeyCode::Right && key.control {
        if tabs > 1 {
            return TabAction::Switch(crate::app::step_next(current, tabs));
        }
        return TabAction::Ignore;
    }
    if key.code == KeyCode::Left && key.control {
        if tabs > 1 {
            let p = crate::app::step_prev(current, tabs);
            proof {
                assert((current + tabs - 1) % (tabs as int) == crate::app::wrap_prev(current, tabs as nat)) by {
                    if current == 0 {
                        vstd::arithmetic::div_mod::lemma_mod_self_0(tabs as int);
                        vstd::arithmetic::div_mod::lemma_small_mod((tabs - 1) as nat, tabs as nat);
                    } else {
                        vstd::arithmetic::div_mod::lemma_add_mod_noop(current - 1, tabs as int, tabs as int);
                        vstd::arithmetic::div_mod::lemma_mod_self_0(tabs as int);
                        vstd::arithmetic::div_mod::lemma_small_mod((current - 1) as nat, tabs as nat);
                    }
                }
            }
            return TabAction::Switch(p);
        }
        return TabAction::Ignore;
    }
    TabAction::Pass
}

/// Moving to the next tab and then to the previous one comes back to the
/// tab one started from.
pub proof fn lemma_tab_next_prev(tabs: usize, current: usize, right: KeyInput, left: KeyInput)
    requires
        current < tabs,
        tabs > 1,
        right.kind == KeyEventKind::Press,
        right.code == KeyCode::Right,
        right.control,
        left.kind == KeyEventKind::Press,
        left.code == KeyCode::Left,
        left.control,
    ensures
        tab_key_spec(right, tabs, current) matches TabAction::Switch(n) && tab_key_spec(left, tabs, n)
            == TabAction::Switch(current),
{
    let n = ((current + 1) % (tabs as int)) as usize;
    if current + 1 < tabs {
        vstd::arithmetic::div_mod::lemma_small_mod((current + 1) as nat, tabs as nat);
        vstd::arithmetic::div_mod::lemma_small_mod(current as nat, tabs as nat);
        assert((n + tabs - 1) % (tabs as int) == current) by {
            vstd::arithmetic::div_mod::lemma_add_mod_noop(current as int, tabs as int, tabs as int);
            vstd::arithmetic::div_mod::lemma_mod_self_0(tabs as int);
        }
    } else {
        vstd::arithmetic::div_mod::lemma_mod_self_0(tabs as int);
        assert(n == 0);
        vstd::arithmetic::div_mod::lemma_small_mod((tabs - 1) as nat, tabs as nat);
    }
}

/// A report from the work a tab asked for.
pub enum TabEvent {
    ProcessLine { id: usize, line: String },
    ProcessExit { id: usize, code: Option<i32> },
    ProcessError { id: usize, error: String },
    ApiResponse { id: usize, status: u16, headers: String, body: String },
    ApiError { id: usize, error: String },
}

impl App {
    /// Records a report from a process or a request of this tab.
    pub fn handle_event(&mut self, event: TabEvent)
        ensures
            final(self)@ == match event {
                TabEvent::ProcessLine { id, line } => old(self)@.push_process_line(id, line@),
                TabEvent::ProcessExit { id, code } => old(self)@.set_process_status(
                    id,
                    crate::app::ProcessStatusView::Exited(code.unwrap_or(-1i32)),
                ),
                TabEvent::ProcessError { id, error } => old(self)@.set_process_status(
                    id,
                    crate::app::ProcessStatusView::Failed(error@),
                ),
                TabEvent::ApiResponse { id, status, headers, body } => old(self)@.push_api_response(
                    id,
                    status,
                    headers@,
                    body@,
                ),
                TabEvent::ApiError { id, error } => old(self)@.set_api_error(id, error@),
            },
    {
        match event {
            TabEvent::ProcessLine { id, line } => self.push_process_line(id, line),
            TabEvent::ProcessExit { id, code } => self.set_process_exit(id, code),
            TabEvent::ProcessError { id, error } => self.set_process_error(id, error),
            TabEvent::ApiResponse { id, status, headers, body } => self.push_api_response(id, status, headers, body),
            TabEvent::ApiError { id, error } => self.set_api_error(id, error),
        }
    }
}

} // verus!
