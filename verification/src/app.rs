//! The application state of one tab and its transitions: list navigation,
//! search filtering, focus cycling, variable editing, environments, the
//! import dialog, spawned processes and sent requests, and the dispatch of
//! key presses to these transitions.  Work that needs the outside world
//! (running a process, sending a request, reading a directory, saving the
//! theme) is returned to the caller as an `Action`.

use std::collections::VecDeque;
use vstd::prelude::*;
use crate::api::{
    log_push, opt_view, strings_view, ApiItem, ApiItemView, ApiRequest, ApiRequestView,
    ApiStatusView, MAX_LOG_LINES,
};
use crate::config::{Command, CommandView};
use crate::keybinding::{matches_spec, KeyBinding, KeyCode, KeyEventKind, KeyInput};
use crate::text::{has_substring, lower_text, replace_spec};
use crate::api::{
    apply_variables_spec, clone_pairs, format_body_spec, last_n, pairs_view, parse_content_type_spec,
};
use crate::text::{eq_ignore_ascii_case_spec, lines_spec};
use crate::theme::{theme_by_name_spec, theme_names_spec};
use crate::theme::Theme;

verus! {

/// What keyboard input currently edits.
#[derive(Debug, Clone, Copy, PartialEq, Eq, Structural)]
pub enum InputMode {
    Normal,
    Search,
    Import,
    VariableEdit,
    EnvironmentSelect,
    TabSelect,
}

/// An entry of the environment menu.
#[derive(Debug, Clone, Copy, PartialEq, Eq, Structural)]
pub enum EnvironmentChoice {
    Collection,
    Environment(usize),
    ToggleEnvOverlay,
    ImportEnvGroup,
}

/// The focused pane.
#[derive(Debug, Clone, Copy, PartialEq, Eq, Structural)]
pub enum Focus {
    Commands,
    Processes,
    Output,
    RequestBody,
    ResponseBody,
    Variables,
}

/// What a tab shows: a runbook, an API collection, or a CWL document.
#[derive(Debug, Clone, Copy, PartialEq, Eq, Structural)]
pub enum AppMode {
    Runbook,
    Api,
    Cwl,
}

/// The state of a spawned process.
#[derive(Debug, Clone)]
pub enum ProcessStatus {
    Running,
    Exited(i32),
    Failed(String),
}

/// The view of a process state.
pub enum ProcessStatusView {
    Running,
    Exited(i32),
    Failed(Seq<char>),
}

impl View for ProcessStatus {
    type V = ProcessStatusView;

    open spec fn view(&self) -> ProcessStatusView {
        match self {
            ProcessStatus::Running => ProcessStatusView::Running,
            ProcessStatus::Exited(c) => ProcessStatusView::Exited(*c),
            ProcessStatus::Failed(e) => ProcessStatusView::Failed(e@),
        }
    }
}

/// A spawned runbook command and its output.
#[derive(Debug, Clone)]
pub struct Process {
    pub id: usize,
    pub title: String,
    pub command: String,
    pub status: ProcessStatus,
    pub output: VecDeque<String>,
}

/// The view of a spawned process.
pub struct ProcessView {
    pub id: usize,
    pub title: Seq<char>,
    pub command: Seq<char>,
    pub status: ProcessStatusView,
    pub output: Seq<Seq<char>>,
}

impl View for Process {
    type V = ProcessView;

    open spec fn view(&self) -> ProcessView {
        ProcessView {
            id: self.id,
            title: self.title@,
            command: self.command@,
            status: self.status@,
            output: strings_view(self.output@),
        }
    }
}

impl Process {
    /// Appends a line of output, dropping the oldest line first when the
    /// output already holds `MAX_LOG_LINES` lines.
    pub fn push_line(&mut self, line: String)
        ensures
            final(self)@ == (ProcessView { output: log_push(old(self)@.output, line@), ..old(self)@ }),
    {
        let ghost before = self.output@;
        if self.output.len() >= MAX_LOG_LINES {
            self.output.pop_front();
        }
        self.output.push_back(line);
        assert(strings_view(self.output@) =~= log_push(strings_view(before), line@));
    }
}

/// An entry of the import dialog's file list.
#[derive(Debug, Clone)]
pub struct ImportEntry {
    pub name: String,
    pub is_dir: bool,
}

/// The view of an import entry.
pub struct ImportEntryView {
    pub name: Seq<char>,
    pub is_dir: bool,
}

impl View for ImportEntry {
    type V = ImportEntryView;

    open spec fn view(&self) -> ImportEntryView {
        ImportEntryView { name: self.name@, is_dir: self.is_dir }
    }
}

/// The state of one tab.
pub struct App {
    pub app_mode: AppMode,
    pub commands: Vec<Command>,
    pub search: String,
    pub filtered: Vec<usize>,
    pub selected_command: usize,
    pub apis: Vec<ApiItem>,
    pub filtered_apis: Vec<usize>,
    pub selected_api: usize,
    pub input_mode: InputMode,
    pub import_filter: String,
    pub import_entries: Vec<ImportEntry>,
    pub import_selected: Option<usize>,
    pub import_error: bool,
    pub importing_env_group: bool,
    pub importing_new_tab: bool,
    pub focus: Focus,
    pub processes: Vec<Process>,
    pub process_selected: Option<usize>,
    pub api_requests: Vec<ApiRequest>,
    pub request_selected: Option<usize>,
    pub log_selected: Option<usize>,
    pub log_follow: bool,
    pub log_area_height: u16,
    pub request_body_selected: Option<usize>,
    pub request_body_area_height: u16,
    pub id_counter: usize,
    pub show_help: bool,
    pub quit: bool,
    pub theme: Theme,
    pub theme_name: String,
    pub collection_variables: Vec<(String, String)>,
    pub secret_keys: Vec<String>,
    pub environments: Vec<(String, Vec<(String, String)>)>,
    pub selected_environment: Option<usize>,
    pub env_overlay: bool,
    pub env_overrides: Vec<(String, String)>,
    pub environment_selected: Option<usize>,
    pub variables: Vec<(String, String)>,
    pub variable_selected: Option<usize>,
    pub variable_edit_index: Option<usize>,
    pub variable_edit_value: String,
    pub variable_edit_reveal: bool,
    pub zoom: Option<Focus>,
    pub tab_idx: usize,
    pub tab_titles: Vec<String>,
    pub tab_selected: Option<usize>,
}

/// The view of a tab's state.
pub struct AppView {
    pub app_mode: AppMode,
    pub commands: Seq<CommandView>,
    pub search: Seq<char>,
    pub filtered: Seq<usize>,
    pub selected_command: usize,
    pub apis: Seq<ApiItemView>,
    pub filtered_apis: Seq<usize>,
    pub selected_api: usize,
    pub input_mode: InputMode,
    pub import_filter: Seq<char>,
    pub import_entries: Seq<ImportEntryView>,
    pub import_selected: Option<usize>,
    pub import_error: bool,
    pub importing_env_group: bool,
    pub importing_new_tab: bool,
    pub focus: Focus,
    pub processes: Seq<ProcessView>,
    pub process_selected: Option<usize>,
    pub api_requests: Seq<ApiRequestView>,
    pub request_selected: Option<usize>,
    pub log_selected: Option<usize>,
    pub log_follow: bool,
    pub log_area_height: u16,
    pub request_body_selected: Option<usize>,
    pub request_body_area_height: u16,
    pub id_counter: usize,
    pub show_help: bool,
    pub quit: bool,
    pub theme: Theme,
    pub theme_name: Seq<char>,
    pub collection_variables: Seq<(Seq<char>, Seq<char>)>,
    pub secret_keys: Seq<Seq<char>>,
    pub environments: Seq<(Seq<char>, Seq<(Seq<char>, Seq<char>)>)>,
    pub selected_environment: Option<usize>,
    pub env_overlay: bool,
    pub env_overrides: Seq<(Seq<char>, Seq<char>)>,
    pub environment_selected: Option<usize>,
    pub variables: Seq<(Seq<char>, Seq<char>)>,
    pub variable_selected: Option<usize>,
    pub variable_edit_index: Option<usize>,
    pub variable_edit_value: Seq<char>,
    pub variable_edit_reveal: bool,
    pub zoom: Option<Focus>,
    pub tab_idx: usize,
    pub tab_titles: Seq<Seq<char>>,
    pub tab_selected: Option<usize>,
}

/// The views of a list of environments.
pub open spec fn envs_view(e: Seq<(String, Vec<(String, String)>)>) -> Seq<(Seq<char>, Seq<(Seq<char>, Seq<char>)>)> {
    e.map_values(|p: (String, Vec<(String, String)>)| (p.0@, crate::api::pairs_view(p.1@)))
}

impl View for App {
    type V = AppView;

    open spec fn view(&self) -> AppView {
        AppView {
            app_mode: self.app_mode,
            commands: self.commands@.map_values(|c: Command| c@),
            search: self.search@,
            filtered: self.filtered@,
            selected_command: self.selected_command,
            apis: self.apis@.map_values(|a: ApiItem| a@),
            filtered_apis: self.filtered_apis@,
            selected_api: self.selected_api,
            input_mode: self.input_mode,
            import_filter: self.import_filter@,
            import_entries: self.import_entries@.map_values(|e: ImportEntry| e@),
            import_selected: self.import_selected,
            import_error: self.import_error,
            importing_env_group: self.importing_env_group,
            importing_new_tab: self.importing_new_tab,
            focus: self.focus,
            processes: self.processes@.map_values(|p: Process| p@),
            process_selected: self.process_selected,
            api_requests: self.api_requests@.map_values(|r: ApiRequest| r@),
            request_selected: self.request_selected,
            log_selected: self.log_selected,
            log_follow: self.log_follow,
            log_area_height: self.log_area_height,
            request_body_selected: self.request_body_selected,
            request_body_area_height: self.request_body_area_height,
            id_counter: self.id_counter,
            show_help: self.show_help,
            quit: self.quit,
            theme: self.theme,
            theme_name: self.theme_name@,
            collection_variables: crate::api::pairs_view(self.collection_variables@),
            secret_keys: strings_view(self.secret_keys@),
            environments: envs_view(self.environments@),
            selected_environment: self.selected_environment,
            env_overlay: self.env_overlay,
            env_overrides: crate::api::pairs_view(self.env_overrides@),
            environment_selected: self.environment_selected,
            variables: crate::api::pairs_view(self.variables@),
            variable_selected: self.variable_selected,
            variable_edit_index: self.variable_edit_index,
            variable_edit_value: self.variable_edit_value@,
            variable_edit_reveal: self.variable_edit_reveal,
            zoom: self.zoom,
            tab_idx: self.tab_idx,
            tab_titles: strings_view(self.tab_titles@),
            tab_selected: self.tab_selected,
        }
    }
}

/// The next position in a list of `len` entries, wrapping to the start.
pub open spec fn wrap_next(i: usize, len: nat) -> usize {
    ((i + 1) % (len as int)) as usize
}

/// The previous position in a list of `len` entries, wrapping to the end.
pub open spec fn wrap_prev(i: usize, len: nat) -> usize {
    if i == 0 {
        (len - 1) as usize
    } else {
        (i - 1) as usize
    }
}

/// The indices `i < n` whose title, lower-cased, contains `q`, in order.
pub open spec fn filter_indices(titles: Seq<Seq<char>>, q: Seq<char>, n: int) -> Seq<usize>
    decreases n,
{
    if n <= 0 {
        Seq::empty()
    } else {
        filter_indices(titles, q, n - 1) + if has_substring(lower_text(titles[n - 1]), q) {
            seq![(n - 1) as usize]
        } else {
            Seq::empty()
        }
    }
}

/// A selection kept inside a list of `len` entries: past the end it moves to
/// the last entry (or 0 for an empty list).
pub open spec fn clamp_selection(sel: usize, len: nat) -> usize {
    if sel >= len {
        if len == 0 {
            0
        } else {
            (len - 1) as usize
        }
    } else {
        sel
    }
}

/// The titles of the commands.
pub open spec fn command_titles(c: Seq<CommandView>) -> Seq<Seq<char>> {
    c.map_values(|x: CommandView| x.title)
}

/// The names of the API entries.
pub open spec fn api_names(a: Seq<ApiItemView>) -> Seq<Seq<char>> {
    a.map_values(|x: ApiItemView| x.name)
}

impl AppView {
    /// The state invariant: filtered lists index existing entries, and the
    /// command and API selections stay inside their filtered lists.
    pub open spec fn wf(self) -> bool {
        &&& forall|i: int| 0 <= i < self.filtered.len() ==> #[trigger] self.filtered[i] < self.commands.len()
        &&& forall|i: int| 0 <= i < self.filtered_apis.len() ==> #[trigger] self.filtered_apis[i] < self.apis.len()
        &&& self.selected_command < self.filtered.len() || self.selected_command == 0
        &&& self.selected_api < self.filtered_apis.len() || self.selected_api == 0
    }

    /// Recomputes the filtered lists from the search text (see
    /// `filter_indices`) and keeps the selection inside the result.
    pub open spec fn update_filtered(self) -> AppView {
        let q = lower_text(self.search);
        match self.app_mode {
            AppMode::Api => {
                let f = filter_indices(api_names(self.apis), q, self.apis.len() as int);
                AppView { filtered_apis: f, selected_api: clamp_selection(self.selected_api, f.len()), ..self }
            },
            _ => {
                let f = filter_indices(command_titles(self.commands), q, self.commands.len() as int);
                AppView {
                    filtered: f,
                    selected_command: clamp_selection(self.selected_command, f.len()),
                    ..self
                }
            },
        }
    }

    /// Selects the next filtered command, wrapping around.
    pub open spec fn next_command(self) -> AppView {
        if self.filtered.len() > 0 {
            AppView { selected_command: wrap_next(self.selected_command, self.filtered.len()), ..self }
        } else {
            self
        }
    }

    /// Selects the previous filtered command, wrapping around.
    pub open spec fn prev_command(self) -> AppView {
        if self.filtered.len() > 0 {
            AppView { selected_command: wrap_prev(self.selected_command, self.filtered.len()), ..self }
        } else {
            self
        }
    }

    /// Selects the next filtered API entry, wrapping around.
    pub open spec fn next_api(self) -> AppView {
        if self.filtered_apis.len() > 0 {
            AppView { selected_api: wrap_next(self.selected_api, self.filtered_apis.len()), ..self }
        } else {
            self
        }
    }

    /// Selects the previous filtered API entry, wrapping around.
    pub open spec fn prev_api(self) -> AppView {
        if self.filtered_apis.len() > 0 {
            AppView { selected_api: wrap_prev(self.selected_api, self.filtered_apis.len()), ..self }
        } else {
            self
        }
    }

    /// Selects the next variable, wrapping around.
    pub open spec fn next_variable(self) -> AppView {
        if self.variables.len() > 0 {
            AppView {
                variable_selected: Some(wrap_next(self.variable_selected.unwrap_or(0), self.variables.len())),
                ..self
            }
        } else {
            self
        }
    }

    /// Selects the previous variable, wrapping around.
    pub open spec fn prev_variable(self) -> AppView {
        if self.variables.len() > 0 {
            AppView {
                variable_selected: Some(wrap_prev(self.variable_selected.unwrap_or(0), self.variables.len())),
                ..self
            }
        } else {
            self
        }
    }

    /// Selects the next process, wrapping around, and follows its output.
    pub open spec fn next_process(self) -> AppView {
        if self.processes.len() > 0 {
            AppView {
                process_selected: Some(wrap_next(self.process_selected.unwrap_or(0), self.processes.len())),
                log_follow: true,
                ..self
            }
        } else {
            self
        }
    }

    /// Selects the previous process, wrapping around, and follows its output.
    pub open spec fn prev_process(self) -> AppView {
        if self.processes.len() > 0 {
            AppView {
                process_selected: Some(wrap_prev(self.process_selected.unwrap_or(0), self.processes.len())),
                log_follow: true,
                ..self
            }
        } else {
            self
        }
    }

    /// Selects the next request, wrapping around, and follows its response.
    pub open spec fn next_request(self) -> AppView {
        if self.api_requests.len() > 0 {
            AppView {
                request_selected: Some(wrap_next(self.request_selected.unwrap_or(0), self.api_requests.len())),
                log_follow: true,
                ..self
            }
        } else {
            self
        }
    }

    /// Selects the previous request, wrapping around, and follows its response.
    pub open spec fn prev_request(self) -> AppView {
        if self.api_requests.len() > 0 {
            AppView {
                request_selected: Some(wrap_prev(self.request_selected.unwrap_or(0), self.api_requests.len())),
                log_follow: true,
                ..self
            }
        } else {
            self
        }
    }

    /// Selects the next import entry, wrapping around.
    pub open spec fn next_import_entry(self) -> AppView {
        if self.import_entries.len() > 0 {
            AppView {
                import_selected: Some(wrap_next(self.import_selected.unwrap_or(0), self.import_entries.len())),
                ..self
            }
        } else {
            self
        }
    }

    /// Selects the previous import entry, wrapping around.
    pub open spec fn prev_import_entry(self) -> AppView {
        if self.import_entries.len() > 0 {
            AppView {
                import_selected: Some(wrap_prev(self.import_selected.unwrap_or(0), self.import_entries.len())),
                ..self
            }
        } else {
            self
        }
    }

    /// Selects the next tab in the tab menu, wrapping around.
    pub open spec fn next_tab(self) -> AppView {
        if self.tab_titles.len() > 0 {
            AppView {
                tab_selected: Some(wrap_next(self.tab_selected.unwrap_or(0), self.tab_titles.len())),
                ..self
            }
        } else {
            self
        }
    }

    /// Selects the previous tab in the tab menu, wrapping around.
    pub open spec fn prev_tab(self) -> AppView {
        if self.tab_titles.len() > 0 {
            AppView {
                tab_selected: Some(wrap_prev(self.tab_selected.unwrap_or(0), self.tab_titles.len())),
                ..self
            }
        } else {
            self
        }
    }

    /// Shows the focused pane alone, or, when it already is, all panes.
    pub open spec fn toggle_zoom(self) -> AppView {
        AppView {
            zoom: if self.zoom == Some(self.focus) {
                None
            } else {
                Some(self.focus)
            },
            ..self
        }
    }

    /// Scrolls the output up by `amount` lines and stops following it.
    pub open spec fn scroll_log_up(self, amount: usize) -> AppView {
        match self.log_selected {
            Some(s) => AppView {
                log_follow: false,
                log_selected: Some(if s >= amount { (s - amount) as usize } else { 0 }),
                ..self
            },
            None => self,
        }
    }

    /// Scrolls the output down by `amount` lines.
    pub open spec fn scroll_log_down(self, amount: usize) -> AppView {
        match self.log_selected {
            Some(s) => AppView {
                log_selected: Some(if s + amount > usize::MAX { usize::MAX } else { (s + amount) as usize }),
                ..self
            },
            None => self,
        }
    }

    /// Jumps to the first output line and stops following the output.
    pub open spec fn scroll_log_top(self) -> AppView {
        AppView { log_follow: false, log_selected: Some(0), ..self }
    }

    /// Follows the output again.
    pub open spec fn scroll_log_bottom(self) -> AppView {
        AppView { log_follow: true, ..self }
    }

    /// Scrolls the request body up by `amount` lines.
    pub open spec fn scroll_request_body_up(self, amount: usize) -> AppView {
        match self.request_body_selected {
            Some(s) => AppView {
                request_body_selected: Some(if s >= amount { (s - amount) as usize } else { 0 }),
                ..self
            },
            None => self,
        }
    }

    /// Scrolls the request body down by `amount` lines.
    pub open spec fn scroll_request_body_down(self, amount: usize) -> AppView {
        match self.request_body_selected {
            Some(s) => AppView {
                request_body_selected: Some(if s + amount > usize::MAX { usize::MAX } else { (s + amount) as usize }),
                ..self
            },
            None => self,
        }
    }

    /// Jumps to the first request-body line.
    pub open spec fn scroll_request_body_top(self) -> AppView {
        AppView { request_body_selected: Some(0), ..self }
    }

    /// Jumps to the last of the `count` displayed lines of the selected
    /// request's body, if a request is selected and its body has lines.
    pub open spec fn scroll_request_body_bottom(self, count: usize) -> AppView {
        match self.request_selected {
            Some(i) => if i < self.api_requests.len() && count > 0 {
                AppView { request_body_selected: Some((count - 1) as usize), ..self }
            } else {
                self
            },
            None => self,
        }
    }

    /// The focus that follows `focus` (forward) or precedes it (backward) in
    /// the pane cycle of the mode: commands, processes, output for runbooks
    /// and CWL documents; APIs, variables, requests, request body, response
    /// body for API collections.
    pub open spec fn focus_step(mode: AppMode, focus: Focus, forward: bool) -> Focus {
        match mode {
            AppMode::Api => match (focus, forward) {
                (Focus::Commands, true) => Focus::Variables,
                (Focus::Variables, true) => Focus::Processes,
                (Focus::Processes, true) => Focus::RequestBody,
                (Focus::RequestBody, true) => Focus::ResponseBody,
                (Focus::ResponseBody, true) => Focus::Commands,
                (Focus::Commands, false) => Focus::ResponseBody,
                (Focus::ResponseBody, false) => Focus::RequestBody,
                (Focus::RequestBody, false) => Focus::Processes,
                (Focus::Processes, false) => Focus::Variables,
                (Focus::Variables, false) => Focus::Commands,
                _ => Focus::Commands,
            },
            _ => match (focus, forward) {
                (Focus::Commands, true) => Focus::Processes,
                (Focus::Processes, true) => Focus::Output,
                (Focus::Output, true) => Focus::Commands,
                (Focus::Commands, false) => Focus::Output,
                (Focus::Output, false) => Focus::Processes,
                (Focus::Processes, false) => Focus::Commands,
                _ => Focus::Commands,
            },
        }
    }

    /// Moves the focus along the pane cycle, leaving search and zoom; on
    /// reaching the process (or request) list with nothing selected, selects
    /// the newest entry and follows it.
    pub open spec fn cycle_focus(self, forward: bool) -> AppView {
        let f = AppView::focus_step(self.app_mode, self.focus, forward);
        let s = AppView { input_mode: InputMode::Normal, zoom: None, focus: f, ..self };
        if f == Focus::Processes {
            match self.app_mode {
                AppMode::Api => if s.api_requests.len() > 0 && s.request_selected is None {
                    AppView {
                        request_selected: Some((s.api_requests.len() - 1) as usize),
                        log_follow: true,
                        ..s
                    }
                } else {
                    s
                },
                _ => if s.processes.len() > 0 && s.process_selected is None {
                    AppView {
                        process_selected: Some((s.processes.len() - 1) as usize),
                        log_follow: true,
                        ..s
                    }
                } else {
                    s
                },
            }
        } else {
            s
        }
    }
}

/// The next position in a list of `len` entries, wrapping to the start.
pub fn step_next(i: usize, len: usize) -> (r: usize)
    requires
        len > 0,
    ensures
        r == wrap_next(i, len as nat),
        r < len,
{
    let j = i % len;
    proof {
        vstd::arithmetic::div_mod::lemma_add_mod_noop(i as int, 1, len as int);
        vstd::arithmetic::div_mod::lemma_mod_self_0(len as int);
        if len == 1 {
            assert((i as int + 1) % 1 == 0) by (nonlinear_arith);
        } else {
            vstd::arithmetic::div_mod::lemma_small_mod(1, len as nat);
            if j + 1 < len {
                vstd::arithmetic::div_mod::lemma_small_mod((j + 1) as nat, len as nat);
            }
        }
    }
    if j + 1 == len {
        0
    } else {
        j + 1
    }
}

/// The previous position in a list of `len` entries, wrapping to the end.
pub fn step_prev(i: usize, len: usize) -> (r: usize)
    requires
        len > 0,
    ensures
        r == wrap_prev(i, len as nat),
{
    if i == 0 {
        len - 1
    } else {
        i - 1
    }
}

/// The focus that follows (or precedes) `focus` in the pane cycle.
pub fn focus_step(mode: AppMode, focus: Focus, forward: bool) -> (f: Focus)
    ensures
        f == AppView::focus_step(mode, focus, forward),
{
    match mode {
        AppMode::Api => match (focus, forward) {
            (Focus::Commands, true) => Focus::Variables,
            (Focus::Variables, true) => Focus::Processes,
            (Focus::Processes, true) => Focus::RequestBody,
            (Focus::RequestBody, true) => Focus::ResponseBody,
            (Focus::ResponseBody, true) => Focus::Commands,
            (Focus::Commands, false) => Focus::ResponseBody,
            (Focus::ResponseBody, false) => Focus::RequestBody,
            (Focus::RequestBody, false) => Focus::Processes,
            (Focus::Processes, false) => Focus::Variables,
            (Focus::Variables, false) => Focus::Commands,
            _ => Focus::Commands,
        },
        _ => match (focus, forward) {
            (Focus::Commands, true) => Focus::Processes,
            (Focus::Processes, true) => Focus::Output,
            (Focus::Output, true) => Focus::Commands,
            (Focus::Commands, false) => Focus::Output,
            (Focus::Output, false) => Focus::Processes,
            (Focus::Processes, false) => Focus::Commands,
            _ => Focus::Commands,
        },
    }
}

/// Whether the lower-cased `title` contains the lower-cased query `q`.
fn title_matches(title: &String, q: &String) -> (b: bool)
    ensures
        b == has_substring(lower_text(title@), q@),
{
    let t = crate::text::to_lowercase(title.as_str());
    crate::text::str_contains(t.as_str(), q.as_str())
}

impl App {
    /// Recomputes the filtered lists from the search text and keeps the
    /// selection inside the result.
    pub fn update_filtered(&mut self)
        requires
            old(self)@.wf(),
        ensures
            final(self)@ == old(self)@.update_filtered(),
            final(self)@.wf(),
    {
        let q = crate::text::to_lowercase(self.search.as_str());
        match self.app_mode {
            AppMode::Api => {
                let mut f: Vec<usize> = Vec::new();
                let mut i: usize = 0;
                while i < self.apis.len()
                    invariant
                        i <= self.apis@.len(),
                        self@ == old(self)@,
                        q@ == lower_text(self.search@),
                        f@ == filter_indices(api_names(self@.apis), q@, i as int),
                        forall|j: int| 0 <= j < f@.len() ==> #[trigger] f@[j] < i,
                    decreases self.apis@.len() - i,
                {
                    let m = title_matches(&self.apis[i].name, &q);
                    proof {
                        assert(api_names(self@.apis)[i as int] == self.apis@[i as int].name@);
                    }
                    if m {
                        f.push(i);
                    }
                    i = i + 1;
                }
                let len = f.len();
                self.filtered_apis = f;
                if self.selected_api >= len {
                    self.selected_api = if len == 0 { 0 } else { len - 1 };
                }
            },
            _ => {
                let mut f: Vec<usize> = Vec::new();
                let mut i: usize = 0;
                while i < self.commands.len()
                    invariant
                        i <= self.commands@.len(),
                        self@ == old(self)@,
                        q@ == lower_text(self.search@),
                        f@ == filter_indices(command_titles(self@.commands), q@, i as int),
                        forall|j: int| 0 <= j < f@.len() ==> #[trigger] f@[j] < i,
                    decreases self.commands@.len() - i,
                {
                    let m = title_matches(&self.commands[i].title, &q);
                    proof {
                        assert(command_titles(self@.commands)[i as int] == self.commands@[i as int].title@);
                    }
                    if m {
                        f.push(i);
                    }
                    i = i + 1;
                }
                let len = f.len();
                self.filtered = f;
                if self.selected_command >= len {
                    self.selected_command = if len == 0 { 0 } else { len - 1 };
                }
            },
        }
    }

    /// Selects the next filtered command, wrapping around.
    pub fn select_next_command(&mut self)
        ensures
            final(self)@ == old(self)@.next_command(),
    {
        if self.filtered.len() > 0 {
            self.selected_command = step_next(self.selected_command, self.filtered.len());
        }
    }

    /// Selects the previous filtered command, wrapping around.
    pub fn select_prev_command(&mut self)
        ensures
            final(self)@ == old(self)@.prev_command(),
    {
        if self.filtered.len() > 0 {
            self.selected_command = step_prev(self.selected_command, self.filtered.len());
        }
    }

    /// Selects the next filtered API entry, wrapping around.
    pub fn select_next_api(&mut self)
        ensures
            final(self)@ == old(self)@.next_api(),
    {
        if self.filtered_apis.len() > 0 {
            self.selected_api = step_next(self.selected_api, self.filtered_apis.len());
        }
    }

    /// Selects the previous filtered API entry, wrapping around.
    pub fn select_prev_api(&mut self)
        ensures
            final(self)@ == old(self)@.prev_api(),
    {
        if self.filtered_apis.len() > 0 {
            self.selected_api = step_prev(self.selected_api, self.filtered_apis.len());
        }
    }

    /// Selects the next variable, wrapping around.
    pub fn select_next_variable(&mut self)
        ensures
            final(self)@ == old(self)@.next_variable(),
    {
        if self.variables.len() > 0 {
            let i = match self.variable_selected {
                Some(i) => i,
                None => 0,
            };
            self.variable_selected = Some(step_next(i, self.variables.len()));
        }
    }

    /// Selects the previous variable, wrapping around.
    pub fn select_prev_variable(&mut self)
        ensures
            final(self)@ == old(self)@.prev_variable(),
    {
        if self.variables.len() > 0 {
            let i = match self.variable_selected {
                Some(i) => i,
                None => 0,
            };
            self.variable_selected = Some(
                step_prev(i, self.variables.len()),
            );
        }
    }

    /// Selects the next process, wrapping around, and follows its output.
    pub fn select_next_process(&mut self)
        ensures
            final(self)@ == old(self)@.next_process(),
    {
        if self.processes.len() > 0 {
            let i = match self.process_selected {
                Some(i) => i,
                None => 0,
            };
            self.process_selected = Some(step_next(i, self.processes.len()));
            self.log_follow = true;
        }
    }

    /// Selects the previous process, wrapping around, and follows its output.
    pub fn select_prev_process(&mut self)
        ensures
            final(self)@ == old(self)@.prev_process(),
    {
        if self.processes.len() > 0 {
            let i = match self.process_selected {
                Some(i) => i,
                None => 0,
            };
            self.process_selected = Some(
                step_prev(i, self.processes.len()),
            );
            self.log_follow = true;
        }
    }

    /// Selects the next request, wrapping around, and follows its response.
    pub fn select_next_request(&mut self)
        ensures
            final(self)@ == old(self)@.next_request(),
    {
        if self.api_requests.len() > 0 {
            let i = match self.request_selected {
                Some(i) => i,
                None => 0,
            };
            self.request_selected = Some(step_next(i, self.api_requests.len()));
            self.log_follow = true;
        }
    }

    /// Selects the previous request, wrapping around, and follows its response.
    pub fn select_prev_request(&mut self)
        ensures
            final(self)@ == old(self)@.prev_request(),
    {
        if self.api_requests.len() > 0 {
            let i = match self.request_selected {
                Some(i) => i,
                None => 0,
            };
            self.request_selected = Some(
                step_prev(i, self.api_requests.len()),
            );
            self.log_follow = true;
        }
    }

    /// Selects the next import entry, wrapping around.
    pub fn select_next_import_entry(&mut self)
        ensures
            final(self)@ == old(self)@.next_import_entry(),
    {
        if self.import_entries.len() > 0 {
            let i = match self.import_selected {
                Some(i) => i,
                None => 0,
            };
            self.import_selected = Some(step_next(i, self.import_entries.len()));
        }
    }

    /// Selects the previous import entry, wrapping around.
    pub fn select_prev_import_entry(&mut self)
        ensures
            final(self)@ == old(self)@.prev_import_entry(),
    {
        if self.import_entries.len() > 0 {
            let i = match self.import_selected {
                Some(i) => i,
                None => 0,
            };
            self.import_selected = Some(
                step_prev(i, self.import_entries.len()),
            );
        }
    }

    /// Selects the next tab in the tab menu, wrapping around.
    pub fn select_next_tab(&mut self)
        ensures
            final(self)@ == old(self)@.next_tab(),
    {
        if self.tab_titles.len() > 0 {
            let i = match self.tab_selected {
                Some(i) => i,
                None => 0,
            };
            self.tab_selected = Some(step_next(i, self.tab_titles.len()));
        }
    }

    /// Selects the previous tab in the tab menu, wrapping around.
    pub fn select_prev_tab(&mut self)
        ensures
            final(self)@ == old(self)@.prev_tab(),
    {
        if self.tab_titles.len() > 0 {
            let i = match self.tab_selected {
                Some(i) => i,
                None => 0,
            };
            self.tab_selected = Some(
                step_prev(i, self.tab_titles.len()),
            );
        }
    }

    /// Shows the focused pane alone, or, when it already is, all panes.
    pub fn toggle_zoom(&mut self)
        ensures
            final(self)@ == old(self)@.toggle_zoom(),
    {
        self.zoom = if self.zoom == Some(self.focus) {
            None
        } else {
            Some(self.focus)
        };
    }

    /// Scrolls the output up by `amount` lines and stops following it.
    pub fn scroll_log_up(&mut self, amount: usize)
        ensures
            final(self)@ == old(self)@.scroll_log_up(amount),
    {
        if let Some(s) = self.log_selected {
            self.log_follow = false;
            self.log_selected = Some(s.saturating_sub(amount));
        }
    }

    /// Scrolls the output down by `amount` lines.
    pub fn scroll_log_down(&mut self, amount: usize)
        ensures
            final(self)@ == old(self)@.scroll_log_down(amount),
    {
        if let Some(s) = self.log_selected {
            self.log_selected = Some(s.saturating_add(amount));
        }
    }

    /// Jumps to the first output line and stops following the output.
    pub fn scroll_log_top(&mut self)
        ensures
            final(self)@ == old(self)@.scroll_log_top(),
    {
        self.log_follow = false;
        self.log_selected = Some(0);
    }

    /// Follows the output again.
    pub fn scroll_log_bottom(&mut self)
        ensures
            final(self)@ == old(self)@.scroll_log_bottom(),
    {
        self.log_follow = true;
    }

    /// Scrolls the request body up by `amount` lines.
    pub fn scroll_request_body_up(&mut self, amount: usize)
        ensures
            final(self)@ == old(self)@.scroll_request_body_up(amount),
    {
        if let Some(s) = self.request_body_selected {
            self.request_body_selected = Some(s.saturating_sub(amount));
        }
    }

    /// Scrolls the request body down by `amount` lines.
    pub fn scroll_request_body_down(&mut self, amount: usize)
        ensures
            final(self)@ == old(self)@.scroll_request_body_down(amount),
    {
        if let Some(s) = self.request_body_selected {
            self.request_body_selected = Some(s.saturating_add(amount));
        }
    }

    /// Jumps to the first request-body line.
    pub fn scroll_request_body_top(&mut self)
        ensures
            final(self)@ == old(self)@.scroll_request_body_top(),
    {
        self.request_body_selected = Some(0);
    }

    /// Jumps to the last of the `count` displayed lines of the selected
    /// request's body (the caller lays the body out to count its lines).
    pub fn scroll_request_body_bottom(&mut self, count: usize)
        ensures
            final(self)@ == old(self)@.scroll_request_body_bottom(count),
    {
        if let Some(i) = self.request_selected {
            if i < self.api_requests.len() && count > 0 {
                self.request_body_selected = Some(count - 1);
            }
        }
    }

    /// Moves the focus along the pane cycle (see `AppView::cycle_focus`).
    pub fn cycle_focus(&mut self, forward: bool)
        ensures
            final(self)@ == old(self)@.cycle_focus(forward),
    {
        self.input_mode = InputMode::Normal;
        self.zoom = None;
        self.focus = focus_step(self.app_mode, self.focus, forward);
        if self.focus == Focus::Processes {
            match self.app_mode {
                AppMode::Api => {
                    if self.api_requests.len() > 0 && self.request_selected.is_none() {
                        self.request_selected = Some(self.api_requests.len() - 1);
                        self.log_follow = true;
                    }
                },
                _ => {
                    if self.processes.len() > 0 && self.process_selected.is_none() {
                        self.process_selected = Some(self.processes.len() - 1);
                        self.log_follow = true;
                    }
                },
            }
        }
    }
}


// ----------------------------------------------------------------------------
// Variables and environments
// ----------------------------------------------------------------------------

/// Index of the first pair whose key is `k`, or the length when none is.
pub open spec fn key_index(m: Seq<(Seq<char>, Seq<char>)>, k: Seq<char>) -> int
    decreases m.len(),
{
    if m.len() == 0 {
        0
    } else if m[0].0 == k {
        0
    } else {
        1 + key_index(m.drop_first(), k)
    }
}

/// `m` with the value of the first pair keyed `kv.0` replaced by `kv.1`, or
/// with `kv` appended when no pair has that key.
pub open spec fn upsert(m: Seq<(Seq<char>, Seq<char>)>, kv: (Seq<char>, Seq<char>)) -> Seq<(Seq<char>, Seq<char>)> {
    let i = key_index(m, kv.0);
    if 0 <= i < m.len() {
        m.update(i, kv)
    } else {
        m.push(kv)
    }
}

/// `base` overridden by every pair of `over`, in order.
pub open spec fn merge_vars(base: Seq<(Seq<char>, Seq<char>)>, over: Seq<(Seq<char>, Seq<char>)>) -> Seq<(Seq<char>, Seq<char>)>
    decreases over.len(),
{
    if over.len() == 0 {
        base
    } else {
        upsert(merge_vars(base, over.drop_last()), over.last())
    }
}

/// `********`.
pub open spec fn mask_word() -> Seq<char> {
    seq!['*', '*', '*', '*', '*', '*', '*', '*']
}

/// `text` with the value of every secret variable replaced by `********`,
/// the variables taken in order.
pub open spec fn mask_spec(text: Seq<char>, vars: Seq<(Seq<char>, Seq<char>)>, secrets: Seq<Seq<char>>) -> Seq<char>
    decreases vars.len(),
{
    if vars.len() == 0 {
        text
    } else {
        let t = mask_spec(text, vars.drop_last(), secrets);
        if secrets.contains(vars.last().0) {
            replace_spec(t, vars.last().1, mask_word())
        } else {
            t
        }
    }
}

/// How the import dialog is opened: to load a file into this tab, to add
/// environment groups, or to open a file in a new tab.
#[derive(Debug, Clone, Copy, PartialEq, Eq, Structural)]
pub enum ImportKind {
    File,
    EnvGroup,
    NewTab,
}

/// What selecting an import entry asks the caller to do: enter the
/// directory, or load the file at the given entry.
#[derive(Debug, Clone, Copy, PartialEq, Eq, Structural)]
pub enum ImportStep {
    Nothing,
    EnterDir(usize),
    LoadFile(usize),
}

impl AppView {
    /// The variables in effect: the collection's, overridden by the selected
    /// environment's, then (when the overlay is on) by the process
    /// environment's overrides.
    #[verifier::opaque]
    pub open spec fn recompute_variables(self) -> AppView {
        let with_env = match self.selected_environment {
            Some(i) => if i < self.environments.len() {
                merge_vars(self.collection_variables, self.environments[i as int].1)
            } else {
                self.collection_variables
            },
            None => self.collection_variables,
        };
        let merged = if self.env_overlay {
            merge_vars(with_env, self.env_overrides)
        } else {
            with_env
        };
        AppView { variables: merged, ..self }
    }

    /// Selects an environment (or, with `None`, the collection alone): an
    /// index past the environments changes nothing; otherwise the variables
    /// are recomputed, any edit is dropped and the first variable selected.
    #[verifier::opaque]
    pub open spec fn set_environment(self, index: Option<usize>) -> AppView {
        if index matches Some(idx) && idx >= self.environments.len() {
            self
        } else {
            AppView {
                variable_edit_index: None,
                variable_edit_value: Seq::empty(),
                variable_selected: Some(0),
                ..AppView { selected_environment: index, ..self }.recompute_variables()
            }
        }
    }

    /// The entries of the environment menu: the collection, each
    /// environment, the import of environment groups, and, when the process
    /// environment overrides a variable, the overlay toggle.
    #[verifier::opaque]
    pub open spec fn environment_choices(self) -> Seq<EnvironmentChoice> {
        seq![EnvironmentChoice::Collection] + Seq::new(
            self.environments.len(),
            |i: int| EnvironmentChoice::Environment(i as usize),
        ) + seq![EnvironmentChoice::ImportEnvGroup] + if self.env_overrides.len() > 0 {
            seq![EnvironmentChoice::ToggleEnvOverlay]
        } else {
            Seq::empty()
        }
    }

    /// Moves down the environment menu, stopping at its last entry.
    pub open spec fn next_environment(self) -> AppView {
        let max = (self.environment_choices().len() - 1) as int;
        let i = self.environment_selected.unwrap_or(0);
        AppView { environment_selected: Some(if i + 1 > max { max as usize } else { (i + 1) as usize }), ..self }
    }

    /// Moves up the environment menu, stopping at its first entry.
    pub open spec fn prev_environment(self) -> AppView {
        let i = self.environment_selected.unwrap_or(0);
        AppView { environment_selected: Some(if i == 0 { 0 } else { (i - 1) as usize }), ..self }
    }

    /// Opens the environment menu on the selected environment's entry (or
    /// on the collection).
    pub open spec fn open_environment_select(self) -> AppView {
        AppView {
            input_mode: InputMode::EnvironmentSelect,
            environment_selected: Some(
                match self.selected_environment {
                    Some(i) => if i < self.environments.len() {
                        (i + 1) as usize
                    } else {
                        0
                    },
                    None => 0,
                },
            ),
            ..self
        }
    }

    /// Opens the import dialog (the caller lists the directory).
    pub open spec fn start_import(self, kind: ImportKind) -> AppView {
        let s = AppView {
            input_mode: InputMode::Import,
            import_filter: Seq::empty(),
            import_error: false,
            import_selected: Some(0),
            ..self
        };
        match kind {
            ImportKind::File => AppView { importing_env_group: false, ..s },
            ImportKind::EnvGroup => AppView { importing_env_group: true, ..s },
            ImportKind::NewTab => AppView { importing_env_group: false, importing_new_tab: true, ..s },
        }
    }

    /// The environment-menu entry under the selection, if any.
    pub open spec fn choice_at(self) -> Option<EnvironmentChoice> {
        let choices = self.environment_choices();
        let index = self.environment_selected.unwrap_or(0);
        if index < choices.len() {
            Some(choices[index as int])
        } else {
            None
        }
    }

    /// Acts on an environment-menu entry: the collection or an environment
    /// is selected and the menu closed; importing opens the import dialog
    /// (the second component); the overlay toggle recomputes the variables
    /// and keeps the menu open; no entry closes the menu.
    pub open spec fn apply_environment_choice(self, choice: Option<EnvironmentChoice>) -> (AppView, bool) {
        match choice {
            Some(EnvironmentChoice::Collection) => (
                AppView { input_mode: InputMode::Normal, ..self.set_environment(None) },
                false,
            ),
            Some(EnvironmentChoice::Environment(i)) => (
                AppView { input_mode: InputMode::Normal, ..self.set_environment(Some(i)) },
                false,
            ),
            Some(EnvironmentChoice::ImportEnvGroup) => (self.start_import(ImportKind::EnvGroup), true),
            Some(EnvironmentChoice::ToggleEnvOverlay) => (
                AppView {
                    environment_selected: Some(self.environment_selected.unwrap_or(0)),
                    ..AppView { env_overlay: !self.env_overlay, ..self }.recompute_variables()
                },
                false,
            ),
            None => (AppView { input_mode: InputMode::Normal, ..self }, false),
        }
    }

    /// Acts on the selected environment-menu entry; the second component is
    /// whether the import dialog for environment groups was opened.
    pub open spec fn confirm_environment_select(self) -> (AppView, bool) {
        self.apply_environment_choice(self.choice_at())
    }

    /// Starts editing the selected variable's value (revealed unless the
    /// variable is secret).
    pub open spec fn start_variable_edit(self) -> AppView {
        match self.variable_selected {
            Some(i) => if i < self.variables.len() {
                AppView {
                    variable_edit_index: Some(i),
                    variable_edit_value: self.variables[i as int].1,
                    variable_edit_reveal: !self.secret_keys.contains(self.variables[i as int].0),
                    input_mode: InputMode::VariableEdit,
                    ..self
                }
            } else {
                self
            },
            None => self,
        }
    }

    /// Leaves variable editing without changing any variable.
    pub open spec fn cancel_variable_edit(self) -> AppView {
        AppView {
            variable_edit_index: None,
            variable_edit_value: Seq::empty(),
            input_mode: InputMode::Normal,
            ..self
        }
    }

    /// Stores the edited value into the edited variable and leaves editing.
    pub open spec fn confirm_variable_edit(self) -> AppView {
        let s = match self.variable_edit_index {
            Some(i) => if i < self.variables.len() {
                AppView {
                    variables: self.variables.update(
                        i as int,
                        (self.variables[i as int].0, self.variable_edit_value),
                    ),
                    ..self
                }
            } else {
                self
            },
            None => self,
        };
        s.cancel_variable_edit()
    }

    /// Types a character into the edited value.
    pub open spec fn variable_edit_push(self, c: char) -> AppView {
        AppView { variable_edit_value: self.variable_edit_value.push(c), ..self }
    }

    /// Deletes the last character of the edited value.
    pub open spec fn variable_edit_pop(self) -> AppView {
        if self.variable_edit_value.len() > 0 {
            AppView { variable_edit_value: self.variable_edit_value.drop_last(), ..self }
        } else {
            self
        }
    }

    /// Shows or hides the edited value.
    pub open spec fn toggle_variable_edit_reveal(self) -> AppView {
        AppView { variable_edit_reveal: !self.variable_edit_reveal, ..self }
    }

    /// Types a character into the search: the selection restarts at the top
    /// (of the commands in runbook mode, of the APIs otherwise) and the
    /// lists are filtered again.
    pub open spec fn search_push(self, c: char) -> AppView {
        let s = AppView { search: self.search.push(c), ..self };
        let s = if self.app_mode == AppMode::Runbook {
            AppView { selected_command: 0, ..s }
        } else {
            AppView { selected_api: 0, ..s }
        };
        s.update_filtered()
    }

    /// Leaves the search with its text cleared, so that the list is no
    /// longer narrowed.
    pub open spec fn clear_search(self) -> AppView {
        AppView { input_mode: InputMode::Normal, search: Seq::empty(), ..self }.update_filtered()
    }

    /// Deletes the last character of the search (see `search_push`).
    pub open spec fn search_pop(self) -> AppView {
        let s = AppView {
            search: if self.search.len() > 0 {
                self.search.drop_last()
            } else {
                self.search
            },
            ..self
        };
        let s = if self.app_mode == AppMode::Runbook {
            AppView { selected_command: 0, ..s }
        } else {
            AppView { selected_api: 0, ..s }
        };
        s.update_filtered()
    }

    /// Opens the tab menu on the current tab.
    pub open spec fn open_tab_select(self, titles: Seq<Seq<char>>) -> AppView {
        AppView {
            input_mode: InputMode::TabSelect,
            tab_titles: titles,
            tab_selected: Some(self.tab_idx),
            ..self
        }
    }

    /// Types a character into the import filter (the caller lists the
    /// directory again).
    pub open spec fn import_filter_push(self, c: char) -> AppView {
        AppView {
            import_filter: self.import_filter.push(c),
            import_error: false,
            import_selected: Some(0),
            ..self
        }
    }

    /// Deletes the last character of the import filter; the second
    /// component is whether there was one (and the directory must be listed
    /// again).
    pub open spec fn import_filter_pop(self) -> (AppView, bool) {
        if self.import_filter.len() > 0 {
            (
                AppView {
                    import_filter: self.import_filter.drop_last(),
                    import_error: false,
                    import_selected: Some(0),
                    ..self
                },
                true,
            )
        } else {
            (self, false)
        }
    }

    /// Acts on the selected import entry: a directory is entered (with the
    /// filter cleared and the first entry selected), a file is to be loaded.
    pub open spec fn import_enter_selected(self) -> (AppView, ImportStep) {
        match self.import_selected {
            Some(i) => if i < self.import_entries.len() {
                if self.import_entries[i as int].is_dir {
                    (
                        AppView { import_filter: Seq::empty(), import_selected: Some(0), ..self },
                        ImportStep::EnterDir(i),
                    )
                } else {
                    (self, ImportStep::LoadFile(i))
                }
            } else {
                (self, ImportStep::Nothing)
            },
            None => (self, ImportStep::Nothing),
        }
    }

    /// Adds imported environment groups and returns to the environment menu.
    pub open spec fn add_environment_groups(self, groups: Seq<(Seq<char>, Seq<(Seq<char>, Seq<char>)>)>) -> AppView {
        AppView {
            importing_env_group: false,
            input_mode: InputMode::EnvironmentSelect,
            ..AppView { environments: self.environments + groups, ..self }.recompute_variables()
        }
    }

    /// Marks the import dialog as failed.
    pub open spec fn import_failed(self) -> AppView {
        AppView { import_error: true, ..self }
    }

    /// Closes the import dialog after a new tab was requested.
    pub open spec fn finish_new_tab_import(self) -> AppView {
        AppView { importing_new_tab: false, input_mode: InputMode::Normal, ..self }
    }

    /// Closes the import dialog.
    pub open spec fn close_import(self) -> AppView {
        AppView {
            importing_env_group: false,
            importing_new_tab: false,
            input_mode: InputMode::Normal,
            ..self
        }
    }
}

/// The environment menu has an entry for the collection, one per
/// environment, one for importing, and one for the overlay when available.
pub proof fn lemma_choices_len(v: AppView)
    ensures
        v.environment_choices().len() == v.environments.len() + 2 + if v.env_overrides.len() > 0 {
            1int
        } else {
            0
        },
{
    reveal(AppView::environment_choices);
}

proof fn lemma_key_index(m: Seq<(Seq<char>, Seq<char>)>, k: Seq<char>, i: int)
    requires
        0 <= i <= m.len(),
        forall|j: int| 0 <= j < i ==> m[j].0 != k,
        i < m.len() ==> m[i].0 == k,
    ensures
        key_index(m, k) == i,
    decreases i,
{
    if i > 0 {
        let t = m.drop_first();
        assert forall|j: int| 0 <= j < i - 1 implies t[j].0 != k by {
            assert(t[j] == m[j + 1]);
        }
        if i < m.len() {
            assert(t[i - 1] == m[i]);
        }
        lemma_key_index(t, k, i - 1);
    }
}

/// Index of the first pair keyed `k`, or the length when none is.
fn find_key(m: &Vec<(String, String)>, k: &String) -> (r: usize)
    ensures
        r as int == key_index(pairs_view(m@), k@),
        r <= m@.len(),
{
    let mut i: usize = 0;
    while i < m.len()
        invariant
            i <= m@.len(),
            forall|j: int| 0 <= j < i ==> m@[j].0@ != k@,
        decreases m@.len() - i,
    {
        if m[i].0 == *k {
            proof {
                lemma_key_index(pairs_view(m@), k@, i as int);
            }
            return i;
        }
        i = i + 1;
    }
    proof {
        lemma_key_index(pairs_view(m@), k@, i as int);
    }
    i
}

/// Overrides `m` by every pair of `over`, in order (see `merge_vars`).
fn merge_into(m: &mut Vec<(String, String)>, over: &Vec<(String, String)>)
    ensures
        pairs_view(final(m)@) == merge_vars(pairs_view(old(m)@), pairs_view(over@)),
{
    let mut i: usize = 0;
    assert(pairs_view(over@).take(0) =~= Seq::<(Seq<char>, Seq<char>)>::empty());
    while i < over.len()
        invariant
            i <= over@.len(),
            pairs_view(m@) == merge_vars(pairs_view(old(m)@), pairs_view(over@).take(i as int)),
        decreases over@.len() - i,
    {
        let k = over[i].0.clone();
        let v = over[i].1.clone();
        let j = find_key(m, &k);
        let ghost before = pairs_view(m@);
        if j < m.len() {
            m.set(j, (k, v));
        } else {
            m.push((k, v));
        }
        proof {
            let o = pairs_view(over@);
            assert(o.take(i + 1).drop_last() =~= o.take(i as int));
            assert(pairs_view(m@) =~= upsert(before, o[i as int]));
        }
        i = i + 1;
    }
    assert(pairs_view(over@).take(over@.len() as int) =~= pairs_view(over@));
}

/// Whether the key list contains `k`.
pub fn contains_key(keys: &Vec<String>, k: &String) -> (b: bool)
    ensures
        b == strings_view(keys@).contains(k@),
{
    let mut i: usize = 0;
    while i < keys.len()
        invariant
            i <= keys@.len(),
            forall|j: int| 0 <= j < i ==> keys@[j]@ != k@,
        decreases keys@.len() - i,
    {
        if keys[i] == *k {
            assert(strings_view(keys@)[i as int] == k@);
            return true;
        }
        i = i + 1;
    }
    assert forall|j: int| 0 <= j < strings_view(keys@).len() implies strings_view(keys@)[j] != k@ by {
        assert(strings_view(keys@)[j] == keys@[j]@);
    }
    false
}

impl App {
    /// Recomputes the variables in effect (see `AppView::recompute_variables`).
    pub fn recompute_variables(&mut self)
        ensures
            final(self)@ == old(self)@.recompute_variables(),
    {
        reveal(AppView::recompute_variables);
        let mut merged = clone_pairs(&self.collection_variables);
        if let Some(idx) = self.selected_environment {
            if idx < self.environments.len() {
                merge_into(&mut merged, &self.environments[idx].1);
            }
        }
        if self.env_overlay {
            merge_into(&mut merged, &self.env_overrides);
        }
        self.variables = merged;
    }

    /// Selects an environment (see `AppView::set_environment`).
    pub fn set_environment(&mut self, index: Option<usize>)
        ensures
            final(self)@ == old(self)@.set_environment(index),
    {
        reveal(AppView::set_environment);
        if let Some(idx) = index {
            if idx >= self.environments.len() {
                return;
            }
        }
        self.selected_environment = index;
        self.recompute_variables();
        self.variable_edit_index = None;
        self.variable_edit_value = String::new();
        self.variable_selected = Some(0);
    }

    /// The name of the selected environment, if one is selected.
    pub fn environment_name(&self) -> (r: Option<String>)
        ensures
            opt_view(r) == match self@.selected_environment {
                Some(i) => if i < self@.environments.len() {
                    Some(self@.environments[i as int].0)
                } else {
                    None
                },
                None => None,
            },
    {
        match self.selected_environment {
            Some(i) => if i < self.environments.len() {
                Some(self.environments[i].0.clone())
            } else {
                None
            },
            None => None,
        }
    }

    /// The entries of the environment menu (see `AppView::environment_choices`).
    pub fn environment_choices(&self) -> (r: Vec<EnvironmentChoice>)
        ensures
            r@ == self@.environment_choices(),
    {
        reveal(AppView::environment_choices);
        let mut r: Vec<EnvironmentChoice> = Vec::new();
        r.push(EnvironmentChoice::Collection);
        let mut i: usize = 0;
        while i < self.environments.len()
            invariant
                i <= self@.environments.len(),
                r@ == seq![EnvironmentChoice::Collection] + Seq::new(
                    i as nat,
                    |j: int| EnvironmentChoice::Environment(j as usize),
                ),
            decreases self@.environments.len() - i,
        {
            r.push(EnvironmentChoice::Environment(i));
            i = i + 1;
            assert(r@ =~= seq![EnvironmentChoice::Collection] + Seq::new(
                i as nat,
                |j: int| EnvironmentChoice::Environment(j as usize),
            ));
        }
        r.push(EnvironmentChoice::ImportEnvGroup);
        if self.env_overrides.len() > 0 {
            r.push(EnvironmentChoice::ToggleEnvOverlay);
        }
        assert(r@ =~= self@.environment_choices());
        r
    }

    /// Moves down the environment menu, stopping at its last entry.
    pub fn select_next_environment(&mut self)
        ensures
            final(self)@ == old(self)@.next_environment(),
    {
        let choices = self.environment_choices();
        proof {
            lemma_choices_len(self@);
        }
        let max = choices.len() - 1;
        let i = match self.environment_selected {
            Some(i) => i,
            None => 0,
        };
        self.environment_selected = Some(if i >= max { max } else { i + 1 });
    }

    /// Moves up the environment menu, stopping at its first entry.
    pub fn select_prev_environment(&mut self)
        ensures
            final(self)@ == old(self)@.prev_environment(),
    {
        let i = match self.environment_selected {
            Some(i) => i,
            None => 0,
        };
        self.environment_selected = Some(if i == 0 { 0 } else { i - 1 });
    }

    /// Opens the environment menu on the selected environment's entry.
    pub fn open_environment_select(&mut self)
        ensures
            final(self)@ == old(self)@.open_environment_select(),
    {
        self.input_mode = InputMode::EnvironmentSelect;
        let sel = match self.selected_environment {
            Some(i) => if i < self.environments.len() {
                i + 1
            } else {
                0
            },
            None => 0,
        };
        self.environment_selected = Some(sel);
    }

    /// Opens the import dialog (the caller lists the directory).
    pub fn start_import(&mut self, kind: ImportKind)
        ensures
            final(self)@ == old(self)@.start_import(kind),
    {
        self.input_mode = InputMode::Import;
        self.import_filter = String::new();
        self.import_error = false;
        self.import_selected = Some(0);
        match kind {
            ImportKind::File => {
                self.importing_env_group = false;
            },
            ImportKind::EnvGroup => {
                self.importing_env_group = true;
            },
            ImportKind::NewTab => {
                self.importing_env_group = false;
                self.importing_new_tab = true;
            },
        }
    }

    /// Acts on the selected environment-menu entry; returns whether the
    /// import dialog for environment groups was opened.
    pub fn confirm_environment_select(&mut self) -> (opened: bool)
        ensures
            (final(self)@, opened) == old(self)@.confirm_environment_select(),
    {
        let choices = self.environment_choices();
        let index = match self.environment_selected {
            Some(i) => i,
            None => 0,
        };
        let choice = if index < choices.len() {
            Some(choices[index])
        } else {
            None
        };
        assert(choice == old(self)@.choice_at());
        self.apply_environment_choice(choice)
    }

    /// Acts on an environment-menu entry (see
    /// `AppView::apply_environment_choice`).
    pub fn apply_environment_choice(&mut self, choice: Option<EnvironmentChoice>) -> (opened: bool)
        ensures
            (final(self)@, opened) == old(self)@.apply_environment_choice(choice),
    {
        match choice {
            Some(EnvironmentChoice::Collection) => {
                self.select_environment_and_close(None);
                false
            },
            Some(EnvironmentChoice::Environment(i)) => {
                self.select_environment_and_close(Some(i));
                false
            },
            Some(EnvironmentChoice::ImportEnvGroup) => {
                self.start_import(ImportKind::EnvGroup);
                true
            },
            Some(EnvironmentChoice::ToggleEnvOverlay) => {
                self.toggle_env_overlay();
                false
            },
            None => {
                self.input_mode = InputMode::Normal;
                false
            },
        }
    }

    /// Selects an environment and leaves the environment menu.
    fn select_environment_and_close(&mut self, index: Option<usize>)
        ensures
            final(self)@ == (AppView { input_mode: InputMode::Normal, ..old(self)@.set_environment(index) }),
    {
        self.set_environment(index);
        self.input_mode = InputMode::Normal;
    }

    /// Turns the process-environment overlay on or off, keeping the menu
    /// selection.
    fn toggle_env_overlay(&mut self)
        ensures
            final(self)@ == (AppView {
                environment_selected: Some(old(self)@.environment_selected.unwrap_or(0)),
                ..AppView { env_overlay: !old(self)@.env_overlay, ..old(self)@ }.recompute_variables()
            }),
    {
        let index = match self.environment_selected {
            Some(i) => i,
            None => 0,
        };
        self.env_overlay = !self.env_overlay;
        self.recompute_variables();
        self.environment_selected = Some(index);
    }

    /// Leaves the environment menu.
    pub fn cancel_environment_select(&mut self)
        ensures
            final(self)@ == (AppView { input_mode: InputMode::Normal, ..old(self)@ }),
    {
        self.input_mode = InputMode::Normal;
    }

    /// `text` with the value of every secret variable masked (see `mask_spec`).
    pub fn mask_secret_values(&self, text: &str) -> (r: String)
        ensures
            r@ == mask_spec(text@, self@.variables, self@.secret_keys),
    {
        let mut result = crate::text::to_string(text);
        let mut i: usize = 0;
        let mask = crate::text::to_string("********");
        proof {
            reveal_strlit("********");
            assert(mask@ =~= mask_word());
        }
        while i < self.variables.len()
            invariant
                i <= self@.variables.len(),
                mask@ == mask_word(),
                result@ == mask_spec(text@, self@.variables.take(i as int), self@.secret_keys),
            decreases self@.variables.len() - i,
        {
            proof {
                assert(self@.variables.take(i + 1).drop_last() =~= self@.variables.take(i as int));
                assert(self@.variables.take(i + 1).last() == self@.variables[i as int]);
            }
            if contains_key(&self.secret_keys, &self.variables[i].0) {
                result = crate::text::replace_str(
                    result.as_str(),
                    self.variables[i].1.as_str(),
                    mask.as_str(),
                );
            }
            i = i + 1;
        }
        assert(self@.variables.take(self@.variables.len() as int) =~= self@.variables);
        result
    }

    /// Starts editing the selected variable's value.
    pub fn start_variable_edit(&mut self)
        ensures
            final(self)@ == old(self)@.start_variable_edit(),
    {
        if let Some(i) = self.variable_selected {
            if i < self.variables.len() {
                let secret = contains_key(&self.secret_keys, &self.variables[i].0);
                self.variable_edit_index = Some(i);
                self.variable_edit_value = self.variables[i].1.clone();
                self.variable_edit_reveal = !secret;
                self.input_mode = InputMode::VariableEdit;
            }
        }
    }

    /// Leaves variable editing without changing any variable.
    pub fn cancel_variable_edit(&mut self)
        ensures
            final(self)@ == old(self)@.cancel_variable_edit(),
    {
        self.variable_edit_index = None;
        self.variable_edit_value = String::new();
        self.input_mode = InputMode::Normal;
    }

    /// Stores the edited value into the edited variable and leaves editing.
    pub fn confirm_variable_edit(&mut self)
        ensures
            final(self)@ == old(self)@.confirm_variable_edit(),
    {
        if let Some(i) = self.variable_edit_index {
            if i < self.variables.len() {
                let k = self.variables[i].0.clone();
                let v = self.variable_edit_value.clone();
                self.variables.set(i, (k, v));
                assert(pairs_view(self.variables@) =~= old(self)@.variables.update(
                    i as int,
                    (old(self)@.variables[i as int].0, old(self)@.variable_edit_value),
                ));
            }
        }
        self.cancel_variable_edit();
    }

    /// Types a character into the edited value.
    pub fn variable_edit_push(&mut self, c: char)
        ensures
            final(self)@ == old(self)@.variable_edit_push(c),
    {
        crate::text::push_char(&mut self.variable_edit_value, c);
    }

    /// Deletes the last character of the edited value.
    pub fn variable_edit_pop(&mut self)
        ensures
            final(self)@ == old(self)@.variable_edit_pop(),
    {
        self.variable_edit_value = pop_char(&self.variable_edit_value);
    }

    /// Shows or hides the edited value.
    pub fn toggle_variable_edit_reveal(&mut self)
        ensures
            final(self)@ == old(self)@.toggle_variable_edit_reveal(),
    {
        self.variable_edit_reveal = !self.variable_edit_reveal;
    }

    /// Types a character into the search and filters again.
    pub fn search_push(&mut self, c: char)
        requires
            old(self)@.wf(),
        ensures
            final(self)@ == old(self)@.search_push(c),
            final(self)@.wf(),
    {
        crate::text::push_char(&mut self.search, c);
        if self.app_mode == AppMode::Runbook {
            self.selected_command = 0;
        } else {
            self.selected_api = 0;
        }
        self.update_filtered();
    }

    /// Leaves the search with its text cleared and filters again.
    pub fn clear_search(&mut self)
        requires
            old(self)@.wf(),
        ensures
            final(self)@ == old(self)@.clear_search(),
            final(self)@.wf(),
    {
        self.input_mode = InputMode::Normal;
        self.search = String::new();
        self.update_filtered();
    }

    /// Deletes the last character of the search and filters again.
    pub fn search_pop(&mut self)
        requires
            old(self)@.wf(),
        ensures
            final(self)@ == old(self)@.search_pop(),
            final(self)@.wf(),
    {
        self.search = pop_char(&self.search);
        if self.app_mode == AppMode::Runbook {
            self.selected_command = 0;
        } else {
            self.selected_api = 0;
        }
        self.update_filtered();
    }

    /// Opens the tab menu on the current tab.
    pub fn open_tab_select(&mut self, titles: Vec<String>)
        ensures
            final(self)@ == old(self)@.open_tab_select(strings_view(titles@)),
    {
        self.input_mode = InputMode::TabSelect;
        self.tab_titles = titles;
        self.tab_selected = Some(self.tab_idx);
    }

    /// Types a character into the import filter.
    pub fn import_filter_push(&mut self, c: char)
        ensures
            final(self)@ == old(self)@.import_filter_push(c),
    {
        crate::text::push_char(&mut self.import_filter, c);
        self.import_error = false;
        self.import_selected = Some(0);
    }

    /// Deletes the last character of the import filter; returns whether
    /// there was one.
    pub fn import_filter_pop(&mut self) -> (popped: bool)
        ensures
            (final(self)@, popped) == old(self)@.import_filter_pop(),
    {
        if self.import_filter.as_str().is_empty() {
            return false;
        }
        self.import_filter = pop_char(&self.import_filter);
        self.import_error = false;
        self.import_selected = Some(0);
        true
    }

    /// Acts on the selected import entry (see `AppView::import_enter_selected`).
    pub fn import_enter_selected(&mut self) -> (step: ImportStep)
        ensures
            (final(self)@, step) == old(self)@.import_enter_selected(),
    {
        if let Some(i) = self.import_selected {
            if i < self.import_entries.len() {
                if self.import_entries[i].is_dir {
                    self.import_filter = String::new();
                    self.import_selected = Some(0);
                    return ImportStep::EnterDir(i);
                } else {
                    return ImportStep::LoadFile(i);
                }
            }
        }
        ImportStep::Nothing
    }

    /// Adds imported environment groups and returns to the environment menu.
    pub fn add_environment_groups(&mut self, groups: Vec<(String, Vec<(String, String)>)>)
        ensures
            final(self)@ == old(self)@.add_environment_groups(envs_view(groups@)),
    {
        let mut i: usize = 0;
        while i < groups.len()
            invariant
                i <= groups@.len(),
                self@ == (AppView {
                    environments: old(self)@.environments + envs_view(groups@).take(i as int),
                    ..old(self)@
                }),
            decreases groups@.len() - i,
        {
            let name = groups[i].0.clone();
            let vars = clone_pairs(&groups[i].1);
            let ghost before = self.environments@;
            self.environments.push((name, vars));
            proof {
                assert(envs_view(groups@)[i as int] == (groups@[i as int].0@, pairs_view(groups@[i as int].1@)));
                assert(envs_view(groups@).take(i + 1) =~= envs_view(groups@).take(i as int).push(envs_view(groups@)[i as int]));
                assert(envs_view(self.environments@) =~= envs_view(before).push(envs_view(groups@)[i as int]));
            }
            i = i + 1;
        }
        assert(envs_view(groups@).take(groups@.len() as int) =~= envs_view(groups@));
        self.recompute_variables();
        self.importing_env_group = false;
        self.input_mode = InputMode::EnvironmentSelect;
    }

    /// Marks the import dialog as failed.
    pub fn import_failed(&mut self)
        ensures
            final(self)@ == old(self)@.import_failed(),
    {
        self.import_error = true;
    }

    /// Closes the import dialog after a new tab was requested.
    pub fn finish_new_tab_import(&mut self)
        ensures
            final(self)@ == old(self)@.finish_new_tab_import(),
    {
        self.importing_new_tab = false;
        self.input_mode = InputMode::Normal;
    }

    /// Closes the import dialog.
    pub fn close_import(&mut self)
        ensures
            final(self)@ == old(self)@.close_import(),
    {
        self.importing_env_group = false;
        self.importing_new_tab = false;
        self.input_mode = InputMode::Normal;
    }
}

/// A string without its last character (unchanged when empty).
pub fn pop_char(s: &String) -> (r: String)
    ensures
        r@ == if s@.len() > 0 {
            s@.drop_last()
        } else {
            s@
        },
{
    let v = crate::text::chars_of(s.as_str());
    let mut out: Vec<char> = Vec::new();
    if v.len() == 0 {
        return crate::text::string_of(&out);
    }
    let mut i: usize = 0;
    while i < v.len() - 1
        invariant
            v@ == s@,
            v@.len() > 0,
            i <= v@.len() - 1,
            out@ == v@.take(i as int),
        decreases v@.len() - 1 - i,
    {
        out.push(v[i]);
        i = i + 1;
        assert(out@ =~= v@.take(i as int));
    }
    assert(out@ =~= s@.drop_last());
    crate::text::string_of(&out)
}


// ----------------------------------------------------------------------------
// Processes and requests
// ----------------------------------------------------------------------------

/// `: `.
pub open spec fn colon_space() -> Seq<char> {
    seq![':', ' ']
}

/// The header block of a request: one `name: value` line per header,
/// separated by newlines.
pub open spec fn headers_text(h: Seq<(Seq<char>, Seq<char>)>) -> Seq<char>
    decreases h.len(),
{
    if h.len() == 0 {
        Seq::empty()
    } else if h.len() == 1 {
        h[0].0 + colon_space() + h[0].1
    } else {
        headers_text(h.drop_last()) + seq!['\n'] + h.last().0 + colon_space() + h.last().1
    }
}

/// The content type of a request: the value, lower-cased, of its first
/// header named `content-type` in any ASCII case.
pub open spec fn request_content_type_spec(h: Seq<(Seq<char>, Seq<char>)>) -> Option<Seq<char>>
    decreases h.len(),
{
    if h.len() == 0 {
        None
    } else if eq_ignore_ascii_case_spec(h[0].0, crate::api::content_type_name()) {
        Some(lower_text(h[0].1))
    } else {
        request_content_type_spec(h.drop_first())
    }
}

/// The lines of a request body as shown: formatted for its content type,
/// split into lines, each with secret values masked.
pub open spec fn request_body_lines(
    item: ApiItemView,
    vars: Seq<(Seq<char>, Seq<char>)>,
    secrets: Seq<Seq<char>>,
) -> Seq<Seq<char>> {
    match item.body {
        Some(b) => lines_spec(format_body_spec(b, request_content_type_spec(item.headers))).map_values(
            |l: Seq<char>| mask_spec(l, vars, secrets),
        ),
        None => Seq::empty(),
    }
}

/// The history entry of a request just sent: running, with its method, URL,
/// masked header block, masked body lines and content type, and no
/// response yet.
pub open spec fn request_spec(
    id: usize,
    item: ApiItemView,
    vars: Seq<(Seq<char>, Seq<char>)>,
    secrets: Seq<Seq<char>>,
) -> ApiRequestView {
    ApiRequestView {
        id,
        method: item.method,
        url: item.url,
        status: ApiStatusView::Running,
        request_headers: mask_spec(headers_text(item.headers), vars, secrets),
        request_body: request_body_lines(item, vars, secrets),
        request_content_type: request_content_type_spec(item.headers),
        headers: Seq::empty(),
        body: Seq::empty(),
        response_content_type: None,
    }
}

/// Index of the first process with the given id, or the length when none has.
pub open spec fn process_index(ps: Seq<ProcessView>, id: usize) -> int
    decreases ps.len(),
{
    if ps.len() == 0 {
        0
    } else if ps[0].id == id {
        0
    } else {
        1 + process_index(ps.drop_first(), id)
    }
}

/// Index of the first request with the given id, or the length when none has.
pub open spec fn request_index(rs: Seq<ApiRequestView>, id: usize) -> int
    decreases rs.len(),
{
    if rs.len() == 0 {
        0
    } else if rs[0].id == id {
        0
    } else {
        1 + request_index(rs.drop_first(), id)
    }
}

/// Index of the first name equal to `n`, or the length when none is.
pub open spec fn name_index(names: Seq<Seq<char>>, n: Seq<char>) -> int
    decreases names.len(),
{
    if names.len() == 0 {
        0
    } else if names[0] == n {
        0
    } else {
        1 + name_index(names.drop_first(), n)
    }
}

impl AppView {
    /// Starts the filtered command at `idx`: a running process with a fresh
    /// id is appended and selected, and its output followed from the start.
    pub open spec fn spawn(self, idx: usize) -> AppView {
        let c = self.commands[idx as int];
        AppView {
            id_counter: (self.id_counter + 1) as usize,
            processes: self.processes.push(
                ProcessView {
                    id: self.id_counter,
                    title: c.title,
                    command: c.command,
                    status: ProcessStatusView::Running,
                    output: Seq::empty(),
                },
            ),
            process_selected: Some(self.processes.len() as usize),
            log_selected: None,
            log_follow: true,
            ..self
        }
    }

    /// The API entry at `idx` with the current variables substituted.
    pub open spec fn prepared_item(self, idx: usize) -> ApiItemView {
        apply_variables_spec(ApiItemView { variables: self.variables, ..self.apis[idx as int] })
    }

    /// Sends the API entry at `idx`: its request, with a fresh id, is
    /// appended to the history and selected; the second component is the
    /// entry to send.
    pub open spec fn spawn_api(self, idx: usize) -> (AppView, ApiItemView) {
        let item = self.prepared_item(idx);
        (
            AppView {
                id_counter: (self.id_counter + 1) as usize,
                api_requests: self.api_requests.push(
                    request_spec(self.id_counter, item, self.variables, self.secret_keys),
                ),
                request_selected: Some(self.api_requests.len() as usize),
                log_selected: None,
                log_follow: true,
                ..self
            },
            item,
        )
    }

    /// Appends a line to the output of the process with the given id.
    pub open spec fn push_process_line(self, id: usize, line: Seq<char>) -> AppView {
        let i = process_index(self.processes, id);
        if 0 <= i < self.processes.len() {
            let p = self.processes[i];
            AppView {
                processes: self.processes.update(i, ProcessView { output: log_push(p.output, line), ..p }),
                ..self
            }
        } else {
            self
        }
    }

    /// Sets the state of the process with the given id.
    pub open spec fn set_process_status(self, id: usize, status: ProcessStatusView) -> AppView {
        let i = process_index(self.processes, id);
        if 0 <= i < self.processes.len() {
            AppView {
                processes: self.processes.update(i, ProcessView { status, ..self.processes[i] }),
                ..self
            }
        } else {
            self
        }
    }

    /// Records the response of the request with the given id.
    pub open spec fn push_api_response(self, id: usize, status: u16, headers: Seq<char>, body: Seq<char>) -> AppView {
        let i = request_index(self.api_requests, id);
        if 0 <= i < self.api_requests.len() {
            let r = self.api_requests[i];
            let ct = parse_content_type_spec(headers);
            AppView {
                api_requests: self.api_requests.update(
                    i,
                    ApiRequestView {
                        status: ApiStatusView::Done(status),
                        headers,
                        response_content_type: ct,
                        body: last_n(lines_spec(format_body_spec(body, ct)), MAX_LOG_LINES as nat),
                        ..r
                    },
                ),
                ..self
            }
        } else {
            self
        }
    }

    /// Marks the request with the given id as failed.
    pub open spec fn set_api_error(self, id: usize, error: Seq<char>) -> AppView {
        let i = request_index(self.api_requests, id);
        if 0 <= i < self.api_requests.len() {
            AppView {
                api_requests: self.api_requests.update(
                    i,
                    ApiRequestView { status: ApiStatusView::Failed(error), ..self.api_requests[i] },
                ),
                ..self
            }
        } else {
            self
        }
    }

    /// The output selection after the output was laid out in `count` lines:
    /// none for no lines; the last line when following; otherwise the
    /// current line, kept inside the output (the last line when none).
    pub open spec fn settle_log_selection(self, count: usize) -> AppView {
        AppView {
            log_selected: if count == 0 {
                None
            } else if self.log_follow {
                Some((count - 1) as usize)
            } else {
                match self.log_selected {
                    Some(s) => Some(if s > count - 1 { (count - 1) as usize } else { s }),
                    None => Some((count - 1) as usize),
                }
            },
            ..self
        }
    }

    /// The request-body selection after the body was laid out in `count`
    /// lines: none for no lines; otherwise the current line kept inside the
    /// body, or the first line when none.
    pub open spec fn settle_request_body_selection(self, count: usize) -> AppView {
        AppView {
            request_body_selected: if count == 0 {
                None
            } else {
                match self.request_body_selected {
                    Some(s) => Some(if s > count - 1 { (count - 1) as usize } else { s }),
                    None => Some(0),
                }
            },
            ..self
        }
    }

    /// Switches to the theme after the current one in `theme_names` (the
    /// first one when the current name is unknown).
    pub open spec fn cycle_theme(self) -> AppView {
        let names = theme_names_spec();
        let k = name_index(names, self.theme_name);
        let current = if k < names.len() { k } else { 0 };
        let next = (current + 1) % (names.len() as int);
        AppView { theme_name: names[next], theme: theme_by_name_spec(names[next]), ..self }
    }
}

proof fn lemma_process_index(ps: Seq<ProcessView>, id: usize, i: int)
    requires
        0 <= i <= ps.len(),
        forall|j: int| 0 <= j < i ==> ps[j].id != id,
        i < ps.len() ==> ps[i].id == id,
    ensures
        process_index(ps, id) == i,
    decreases i,
{
    if i > 0 {
        let t = ps.drop_first();
        assert forall|j: int| 0 <= j < i - 1 implies t[j].id != id by {
            assert(t[j] == ps[j + 1]);
        }
        if i < ps.len() {
            assert(t[i - 1] == ps[i]);
        }
        lemma_process_index(t, id, i - 1);
    }
}

proof fn lemma_request_index(rs: Seq<ApiRequestView>, id: usize, i: int)
    requires
        0 <= i <= rs.len(),
        forall|j: int| 0 <= j < i ==> rs[j].id != id,
        i < rs.len() ==> rs[i].id == id,
    ensures
        request_index(rs, id) == i,
    decreases i,
{
    if i > 0 {
        let t = rs.drop_first();
        assert forall|j: int| 0 <= j < i - 1 implies t[j].id != id by {
            assert(t[j] == rs[j + 1]);
        }
        if i < rs.len() {
            assert(t[i - 1] == rs[i]);
        }
        lemma_request_index(t, id, i - 1);
    }
}

/// The header block of a request (see `headers_text`).
fn headers_block(h: &Vec<(String, String)>) -> (r: String)
    ensures
        r@ == headers_text(pairs_view(h@)),
{
    let mut out = String::new();
    let mut i: usize = 0;
    proof {
        reveal_strlit(": ");
        assert(": "@ =~= colon_space());
    }
    while i < h.len()
        invariant
            i <= h@.len(),
            ": "@ == colon_space(),
            out@ == headers_text(pairs_view(h@).take(i as int)),
        decreases h@.len() - i,
    {
        let ghost t = pairs_view(h@).take(i + 1);
        assert(t.drop_last() =~= pairs_view(h@).take(i as int));
        if i > 0 {
            crate::text::push_char(&mut out, '\n');
        }
        crate::text::push_str(&mut out, h[i].0.as_str());
        crate::text::push_str(&mut out, ": ");
        crate::text::push_str(&mut out, h[i].1.as_str());
        proof {
            if i == 0 {
                assert(out@ =~= t[0].0 + colon_space() + t[0].1);
            } else {
                assert(out@ =~= headers_text(t.drop_last()) + seq!['\n'] + t.last().0 + colon_space() + t.last().1);
            }
        }
        i = i + 1;
    }
    assert(pairs_view(h@).take(h@.len() as int) =~= pairs_view(h@));
    out
}

/// The content type of a request (see `request_content_type_spec`).
fn request_content_type(h: &Vec<(String, String)>) -> (r: Option<String>)
    ensures
        opt_view(r) == request_content_type_spec(pairs_view(h@)),
{
    let mut i: usize = 0;
    assert(pairs_view(h@).skip(0) =~= pairs_view(h@));
    proof {
        reveal_strlit("content-type");
        assert("content-type"@ =~= crate::api::content_type_name());
    }
    while i < h.len()
        invariant
            i <= h@.len(),
            "content-type"@ == crate::api::content_type_name(),
            request_content_type_spec(pairs_view(h@).skip(i as int)) == request_content_type_spec(pairs_view(h@)),
        decreases h@.len() - i,
    {
        let ghost rest = pairs_view(h@).skip(i as int);
        assert(rest[0] == pairs_view(h@)[i as int]);
        assert(rest.drop_first() =~= pairs_view(h@).skip(i + 1));
        if crate::text::eq_ignore_ascii_case(h[i].0.as_str(), "content-type") {
            return Some(crate::text::to_lowercase(h[i].1.as_str()));
        }
        i = i + 1;
    }
    None
}

impl App {
    /// Builds the history entry of a request about to be sent.
    fn build_request(&self, id: usize, item: &ApiItem) -> (r: ApiRequest)
        ensures
            r@ == request_spec(id, item@, self@.variables, self@.secret_keys),
    {
        let headers = headers_block(&item.headers);
        let ct = request_content_type(&item.headers);
        let mut body: VecDeque<String> = VecDeque::new();
        let ghost expected = request_body_lines(item@, self@.variables, self@.secret_keys);
        if let Some(b) = &item.body {
            let formatted = match &ct {
                Some(c) => crate::api::format_body(b.as_str(), Some(c.as_str())),
                None => crate::api::format_body(b.as_str(), None),
            };
            let lines = crate::text::split_lines(formatted.as_str());
            let ghost ls = lines_spec(formatted@);
            let mut i: usize = 0;
            while i < lines.len()
                invariant
                    i <= lines@.len(),
                    lines@.len() == ls.len(),
                    forall|j: int| 0 <= j < lines@.len() ==> #[trigger] lines@[j]@ == ls[j],
                    expected == ls.map_values(|l: Seq<char>| mask_spec(l, self@.variables, self@.secret_keys)),
                    strings_view(body@) == expected.take(i as int),
                decreases lines@.len() - i,
            {
                let masked = self.mask_secret_values(lines[i].as_str());
                let ghost before = body@;
                let ghost mv = masked@;
                body.push_back(masked);
                proof {
                    assert(expected[i as int] == mask_spec(ls[i as int], self@.variables, self@.secret_keys));
                    assert(mv == expected[i as int]);
                    assert(strings_view(body@) =~= strings_view(before).push(mv));
                    assert(expected.take(i + 1) =~= expected.take(i as int).push(expected[i as int]));
                }
                i = i + 1;
            }
            assert(expected.take(lines@.len() as int) =~= expected);
        } else {
            assert(strings_view(body@) =~= expected);
        }
        let masked_headers = self.mask_secret_values(headers.as_str());
        let response_body: VecDeque<String> = VecDeque::new();
        assert(strings_view(response_body@) =~= Seq::<Seq<char>>::empty());
        ApiRequest {
            id,
            method: item.method.clone(),
            url: item.url.clone(),
            status: crate::api::ApiStatus::Running,
            request_headers: masked_headers,
            request_body: body,
            request_content_type: ct,
            headers: String::new(),
            body: response_body,
            response_content_type: None,
        }
    }

    /// Starts the command at `command_idx`; returns the new process's id.
    /// The caller runs the command (or the tab's CWL document).
    pub fn spawn(&mut self, command_idx: usize) -> (id: usize)
        requires
            command_idx < old(self)@.commands.len(),
            old(self)@.id_counter < usize::MAX,
        ensures
            id == old(self)@.id_counter,
            final(self)@ == old(self)@.spawn(command_idx),
    {
        let id = self.id_counter;
        self.id_counter = self.id_counter + 1;
        let title = self.commands[command_idx].title.clone();
        let command = self.commands[command_idx].command.clone();
        let process = Process {
            id,
            title,
            command,
            status: ProcessStatus::Running,
            output: VecDeque::new(),
        };
        let ghost pv = process@;
        assert(pv.output =~= Seq::<Seq<char>>::empty());
        let ghost before = self.processes@;
        self.processes.push(process);
        self.process_selected = Some(self.processes.len() - 1);
        self.log_selected = None;
        self.log_follow = true;
        assert(self.processes@.map_values(|p: Process| p@) =~= before.map_values(|p: Process| p@).push(pv));
        id
    }

    /// Sends the API entry at `api_idx`: records its request and returns its
    /// id and the entry to send, with the current variables substituted.
    pub fn spawn_api(&mut self, api_idx: usize) -> (r: (usize, ApiItem))
        requires
            api_idx < old(self)@.apis.len(),
            old(self)@.id_counter < usize::MAX,
        ensures
            r.0 == old(self)@.id_counter,
            (final(self)@, r.1@) == old(self)@.spawn_api(api_idx),
    {
        let mut item = self.apis[api_idx].copy();
        item.variables = clone_pairs(&self.variables);
        assert(item@ == (ApiItemView { variables: self@.variables, ..self@.apis[api_idx as int] }));
        item.apply_variables();
        let id = self.id_counter;
        let request = self.build_request(id, &item);
        self.id_counter = self.id_counter + 1;
        let ghost before = self.api_requests@;
        self.api_requests.push(request);
        self.request_selected = Some(self.api_requests.len() - 1);
        self.log_selected = None;
        self.log_follow = true;
        assert(self.api_requests@.map_values(|r: ApiRequest| r@) =~= before.map_values(|r: ApiRequest| r@).push(request@));
        (id, item)
    }

    /// The selected process, if any.
    pub fn selected_process(&self) -> (r: Option<&Process>)
        ensures
            match self.process_selected {
                Some(i) => if i < self.processes@.len() {
                    r == Some(&self.processes@[i as int])
                } else {
                    r is None
                },
                None => r is None,
            },
    {
        match self.process_selected {
            Some(i) => if i < self.processes.len() {
                Some(&self.processes[i])
            } else {
                None
            },
            None => None,
        }
    }

    /// The selected request, if any.
    pub fn selected_request(&self) -> (r: Option<&ApiRequest>)
        ensures
            match self.request_selected {
                Some(i) => if i < self.api_requests@.len() {
                    r == Some(&self.api_requests@[i as int])
                } else {
                    r is None
                },
                None => r is None,
            },
    {
        match self.request_selected {
            Some(i) => if i < self.api_requests.len() {
                Some(&self.api_requests[i])
            } else {
                None
            },
            None => None,
        }
    }

    /// Index of the first process with the given id.
    fn find_process(&self, id: usize) -> (r: usize)
        ensures
            r as int == process_index(self@.processes, id),
            r <= self.processes@.len(),
    {
        let mut i: usize = 0;
        while i < self.processes.len()
            invariant
                i <= self.processes@.len(),
                forall|j: int| 0 <= j < i ==> self.processes@[j].id != id,
            decreases self.processes@.len() - i,
        {
            if self.processes[i].id == id {
                proof {
                    lemma_process_index(self@.processes, id, i as int);
                }
                return i;
            }
            i = i + 1;
        }
        proof {
            lemma_process_index(self@.processes, id, i as int);
        }
        i
    }

    /// Index of the first request with the given id.
    fn find_request(&self, id: usize) -> (r: usize)
        ensures
            r as int == request_index(self@.api_requests, id),
            r <= self.api_requests@.len(),
    {
        let mut i: usize = 0;
        while i < self.api_requests.len()
            invariant
                i <= self.api_requests@.len(),
                forall|j: int| 0 <= j < i ==> self.api_requests@[j].id != id,
            decreases self.api_requests@.len() - i,
        {
            if self.api_requests[i].id == id {
                proof {
                    lemma_request_index(self@.api_requests, id, i as int);
                }
                return i;
            }
            i = i + 1;
        }
        proof {
            lemma_request_index(self@.api_requests, id, i as int);
        }
        i
    }

    /// Appends a line to the output of the process with the given id.
    pub fn push_process_line(&mut self, id: usize, line: String)
        ensures
            final(self)@ == old(self)@.push_process_line(id, line@),
    {
        let i = self.find_process(id);
        if i < self.processes.len() {
            let ghost before = self.processes@;
            self.processes[i].push_line(line);
            assert(self.processes@.map_values(|p: Process| p@) =~= before.map_values(|p: Process| p@).update(
                i as int,
                ProcessView { output: log_push(before[i as int]@.output, line@), ..before[i as int]@ },
            ));
        }
    }

    /// Marks the process with the given id as exited with `code` (-1 when
    /// it has none, as after a signal).
    pub fn set_process_exit(&mut self, id: usize, code: Option<i32>)
        ensures
            final(self)@ == old(self)@.set_process_status(
                id,
                ProcessStatusView::Exited(code.unwrap_or(-1i32)),
            ),
    {
        let c = match code {
            Some(c) => c,
            None => -1,
        };
        self.set_process_status(id, ProcessStatus::Exited(c));
    }

    /// Marks the process with the given id as failed with `error`.
    pub fn set_process_error(&mut self, id: usize, error: String)
        ensures
            final(self)@ == old(self)@.set_process_status(id, ProcessStatusView::Failed(error@)),
    {
        self.set_process_status(id, ProcessStatus::Failed(error));
    }

    /// Sets the state of the process with the given id.
    fn set_process_status(&mut self, id: usize, status: ProcessStatus)
        ensures
            final(self)@ == old(self)@.set_process_status(id, status@),
    {
        let i = self.find_process(id);
        if i < self.processes.len() {
            let ghost before = self.processes@;
            self.processes[i].status = status;
            assert(self.processes@.map_values(|p: Process| p@) =~= before.map_values(|p: Process| p@).update(
                i as int,
                ProcessView { status: status@, ..before[i as int]@ },
            ));
        }
    }

    /// Records the response of the request with the given id.
    pub fn push_api_response(&mut self, id: usize, status: u16, headers: String, body: String)
        ensures
            final(self)@ == old(self)@.push_api_response(id, status, headers@, body@),
    {
        let i = self.find_request(id);
        if i < self.api_requests.len() {
            let ghost before = self.api_requests@;
            let ghost h = headers@;
            let ghost b = body@;
            self.api_requests[i].set_response(status, headers, body);
            let ghost ct = parse_content_type_spec(h);
            assert(self.api_requests@.map_values(|r: ApiRequest| r@) =~= before.map_values(|r: ApiRequest| r@).update(
                i as int,
                ApiRequestView {
                    status: ApiStatusView::Done(status),
                    headers: h,
                    response_content_type: ct,
                    body: last_n(lines_spec(format_body_spec(b, ct)), MAX_LOG_LINES as nat),
                    ..before[i as int]@
                },
            ));
        }
    }

    /// Marks the request with the given id as failed with `error`.
    pub fn set_api_error(&mut self, id: usize, error: String)
        ensures
            final(self)@ == old(self)@.set_api_error(id, error@),
    {
        let i = self.find_request(id);
        if i < self.api_requests.len() {
            let ghost before = self.api_requests@;
            let ghost e = error@;
            self.api_requests[i].set_error(error);
            assert(self.api_requests@.map_values(|r: ApiRequest| r@) =~= before.map_values(|r: ApiRequest| r@).update(
                i as int,
                ApiRequestView { status: ApiStatusView::Failed(e), ..before[i as int]@ },
            ));
        }
    }

    /// Settles the output selection after the output was laid out in
    /// `count` lines (see `AppView::settle_log_selection`).
    pub fn settle_log_selection(&mut self, count: usize)
        ensures
            final(self)@ == old(self)@.settle_log_selection(count),
    {
        if count == 0 {
            self.log_selected = None;
        } else if self.log_follow {
            self.log_selected = Some(count - 1);
        } else {
            self.log_selected = match self.log_selected {
                Some(s) => Some(if s > count - 1 { count - 1 } else { s }),
                None => Some(count - 1),
            };
        }
    }

    /// Settles the request-body selection after the body was laid out in
    /// `count` lines (see `AppView::settle_request_body_selection`).
    pub fn settle_request_body_selection(&mut self, count: usize)
        ensures
            final(self)@ == old(self)@.settle_request_body_selection(count),
    {
        if count == 0 {
            self.request_body_selected = None;
        } else {
            self.request_body_selected = match self.request_body_selected {
                Some(s) => Some(if s > count - 1 { count - 1 } else { s }),
                None => Some(0),
            };
        }
    }

    /// Switches to the next built-in theme (the caller saves its name).
    pub fn cycle_theme(&mut self)
        ensures
            final(self)@ == old(self)@.cycle_theme(),
    {
        let names = crate::theme::theme_names();
        let next = next_theme_index(&names, &self.theme_name);
        self.use_theme(names[next]);
    }

    /// Switches to the named theme.
    fn use_theme(&mut self, name: &str)
        ensures
            final(self)@ == (AppView { theme_name: name@, theme: theme_by_name_spec(name@), ..old(self)@ }),
    {
        self.theme_name = crate::text::to_string(name);
        self.theme = crate::theme::theme_by_name(name);
    }
}

/// The position in `names` of the theme after `current`.
fn next_theme_index(names: &Vec<&'static str>, current: &String) -> (next: usize)
    requires
        names@.map_values(|x: &str| x@) == theme_names_spec(),
    ensures
        next < names@.len(),
        ({
            let nv = theme_names_spec();
            let k = name_index(nv, current@);
            let c = if k < nv.len() { k } else { 0 };
            next == (c + 1) % (nv.len() as int) && names@[next as int]@ == nv[next as int]
        }),
{
    let ghost nv = names@.map_values(|x: &str| x@);
    assert(nv.len() == 10);
    let mut k: usize = 0;
    while k < names.len()
        invariant
            k <= names@.len(),
            nv == names@.map_values(|x: &str| x@),
            forall|j: int| 0 <= j < k ==> nv[j] != current@,
        ensures
            k <= names@.len(),
            k < names@.len() ==> nv[k as int] == current@,
            forall|j: int| 0 <= j < k ==> nv[j] != current@,
        decreases names@.len() - k,
    {
        if crate::theme::str_eq(names[k], current.as_str()) {
            break;
        }
        k = k + 1;
    }
    proof {
        lemma_name_index(nv, current@, k as int);
    }
    let c = if k < names.len() {
        k
    } else {
        0
    };
    let next = (c + 1) % names.len();
    assert(names@[next as int]@ == nv[next as int]);
    next
}

proof fn lemma_name_index(names: Seq<Seq<char>>, n: Seq<char>, i: int)
    requires
        0 <= i <= names.len(),
        forall|j: int| 0 <= j < i ==> names[j] != n,
        i < names.len() ==> names[i] == n,
    ensures
        name_index(names, n) == i,
    decreases i,
{
    if i > 0 {
        let t = names.drop_first();
        assert forall|j: int| 0 <= j < i - 1 implies t[j] != n by {
            assert(t[j] == names[j + 1]);
        }
        if i < names.len() {
            assert(t[i - 1] == names[i]);
        }
        lemma_name_index(t, n, i - 1);
    }
}


} // verus!
