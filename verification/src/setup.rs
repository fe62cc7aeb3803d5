//! New tabs: a runbook tab over a list of commands, and an API tab over the
//! entries, variables and environments of a collection.

use vstd::prelude::*;
use crate::api::{pairs_view, strings_view, ApiItem, ApiItemView};
use crate::app::{envs_view, App, AppMode, AppView, Focus, InputMode};
use crate::config::{Command, CommandView};
use crate::theme::{default_theme, theme_by_name_spec, Theme};

verus! {

/// `Default`, the name of the built-in theme.
pub open spec fn default_theme_name() -> Seq<char> {
    seq!['D', 'e', 'f', 'a', 'u', 'l', 't']
}

/// A tab as it opens, before its lists are filtered: nothing searched,
/// selected, spawned or sent; the commands pane focused; the saved theme
/// when there is one, the default theme otherwise.
pub open spec fn fresh_view(
    mode: AppMode,
    commands: Seq<CommandView>,
    apis: Seq<ApiItemView>,
    collection_variables: Seq<(Seq<char>, Seq<char>)>,
    secret_keys: Seq<Seq<char>>,
    environments: Seq<(Seq<char>, Seq<(Seq<char>, Seq<char>)>)>,
    env_overrides: Seq<(Seq<char>, Seq<char>)>,
    saved_theme: Option<Seq<char>>,
) -> AppView {
    AppView {
        app_mode: mode,
        commands,
        search: Seq::empty(),
        filtered: Seq::empty(),
        selected_command: 0,
        apis,
        filtered_apis: Seq::empty(),
        selected_api: 0,
        input_mode: InputMode::Normal,
        import_filter: Seq::empty(),
        import_entries: Seq::empty(),
        import_selected: None,
        import_error: false,
        importing_env_group: false,
        importing_new_tab: false,
        focus: Focus::Commands,
        processes: Seq::empty(),
        process_selected: None,
        api_requests: Seq::empty(),
        request_selected: None,
        log_selected: None,
        log_follow: true,
        log_area_height: 0,
        request_body_selected: None,
        request_body_area_height: 0,
        id_counter: 0,
        show_help: false,
        quit: false,
        theme: initial_theme_spec(saved_theme).0,
        theme_name: initial_theme_spec(saved_theme).1,
        collection_variables,
        secret_keys,
        environments,
        selected_environment: None,
        env_overlay: false,
        env_overrides,
        environment_selected: None,
        variables: Seq::empty(),
        variable_selected: None,
        variable_edit_index: None,
        variable_edit_value: Seq::empty(),
        variable_edit_reveal: false,
        zoom: None,
        tab_idx: 0,
        tab_titles: Seq::empty(),
        tab_selected: None,
    }
}

/// The theme a tab opens with, and its name: the saved theme when there is
/// one, the default theme otherwise.
#[verifier::opaque]
pub open spec fn initial_theme_spec(saved_theme: Option<Seq<char>>) -> (Theme, Seq<char>) {
    match saved_theme {
        Some(n) => (theme_by_name_spec(n), n),
        None => (default_theme(), default_theme_name()),
    }
}

/// The views of a list of commands.
pub open spec fn commands_view(c: Seq<Command>) -> Seq<CommandView> {
    c.map_values(|x: Command| x@)
}

/// The theme and its name: the saved one when there is one.
fn initial_theme(saved_theme: Option<String>) -> (r: (Theme, String))
    ensures
        (r.0, r.1@) == initial_theme_spec(crate::api::opt_view(saved_theme)),
{
    reveal(initial_theme_spec);
    match saved_theme {
        Some(name) => (crate::theme::theme_by_name(name.as_str()), name),
        None => {
            proof {
                reveal_strlit("Default");
                assert("Default"@ =~= default_theme_name());
            }
            (Theme::default_theme(), crate::text::to_string("Default"))
        },
    }
}

impl App {
    /// A runbook tab over the commands, with every command listed.
        pub fn new(commands: Vec<Command>, saved_theme: Option<String>) -> (app: App)
        ensures
            app@ == fresh_view(
                AppMode::Runbook,
                commands_view(commands@),
                Seq::empty(),
                Seq::empty(),
                Seq::empty(),
                Seq::empty(),
                Seq::empty(),
                crate::api::opt_view(saved_theme),
            ).update_filtered(),
            app@.wf(),
    {
        let ghost saved = crate::api::opt_view(saved_theme);
        let (theme, theme_name) = initial_theme(saved_theme);
        let mut app = App {
            app_mode: AppMode::Runbook,
            commands,
            search: String::new(),
            filtered: Vec::new(),
            selected_command: 0,
            apis: Vec::new(),
            filtered_apis: Vec::new(),
            selected_api: 0,
            input_mode: InputMode::Normal,
            import_filter: String::new(),
            import_entries: Vec::new(),
            import_selected: None,
            import_error: false,
            importing_env_group: false,
            importing_new_tab: false,
            focus: Focus::Commands,
            processes: Vec::new(),
            process_selected: None,
            api_requests: Vec::new(),
            request_selected: None,
            log_selected: None,
            log_follow: true,
            log_area_height: 0,
            request_body_selected: None,
            request_body_area_height: 0,
            id_counter: 0,
            show_help: false,
            quit: false,
            theme,
            theme_name,
            collection_variables: Vec::new(),
            secret_keys: Vec::new(),
            environments: Vec::new(),
            selected_environment: None,
            env_overlay: false,
            env_overrides: Vec::new(),
            environment_selected: None,
            variables: Vec::new(),
            variable_selected: None,
            variable_edit_index: None,
            variable_edit_value: String::new(),
            variable_edit_reveal: false,
            zoom: None,
            tab_idx: 0,
            tab_titles: Vec::new(),
            tab_selected: None,
        };
        proof {
            assert(app@.search =~= Seq::<char>::empty());
            assert(app@.filtered =~= Seq::<usize>::empty());
            assert(app@.filtered_apis =~= Seq::<usize>::empty());
            assert(app@.import_filter =~= Seq::<char>::empty());
            assert(app@.import_entries =~= Seq::<crate::app::ImportEntryView>::empty());
            assert(app@.processes =~= Seq::<crate::app::ProcessView>::empty());
            assert(app@.api_requests =~= Seq::<crate::api::ApiRequestView>::empty());
            assert(app@.variables =~= Seq::<(Seq<char>, Seq<char>)>::empty());
            assert(app@.variable_edit_value =~= Seq::<char>::empty());
            assert(app@.tab_titles =~= Seq::<Seq<char>>::empty());
            assert(app@.apis =~= Seq::<ApiItemView>::empty());
            assert(app@.collection_variables =~= Seq::<(Seq<char>, Seq<char>)>::empty());
            assert(app@.secret_keys =~= Seq::<Seq<char>>::empty());
            assert(app@.environments =~= Seq::<(Seq<char>, Seq<(Seq<char>, Seq<char>)>)>::empty());
            assert(app@.env_overrides =~= Seq::<(Seq<char>, Seq<char>)>::empty());
            assert(app@ =~= fresh_view(
                AppMode::Runbook,
                commands_view(app.commands@),
                Seq::empty(),
                Seq::empty(),
                Seq::empty(),
                Seq::empty(),
                Seq::empty(),
                saved,
            ));
        }
        app.update_filtered();
        app
    }

    /// An API tab over a collection: the given environment (if any) is
    /// selected, every entry is listed and the first variable is selected.
        pub fn new_api(
        apis: Vec<ApiItem>,
        variables: Vec<(String, String)>,
        secret_keys: Vec<String>,
        environments: Vec<(String, Vec<(String, String)>)>,
        selected_environment: Option<usize>,
        env_overrides: Vec<(String, String)>,
        saved_theme: Option<String>,
    ) -> (app: App)
        ensures
            app@ == (AppView {
                variable_selected: Some(0),
                ..fresh_view(
                    AppMode::Api,
                    Seq::empty(),
                    crate::collection::api_views(apis@),
                    pairs_view(variables@),
                    strings_view(secret_keys@),
                    envs_view(environments@),
                    pairs_view(env_overrides@),
                    crate::api::opt_view(saved_theme),
                ).set_environment(selected_environment).update_filtered()
            }),
            app@.wf(),
    {
        let ghost saved = crate::api::opt_view(saved_theme);
        let (theme, theme_name) = initial_theme(saved_theme);
        let mut app = App {
            app_mode: AppMode::Api,
            commands: Vec::new(),
            search: String::new(),
            filtered: Vec::new(),
            selected_command: 0,
            apis,
            filtered_apis: Vec::new(),
            selected_api: 0,
            input_mode: InputMode::Normal,
            import_filter: String::new(),
            import_entries: Vec::new(),
            import_selected: None,
            import_error: false,
            importing_env_group: false,
            importing_new_tab: false,
            focus: Focus::Commands,
            processes: Vec::new(),
            process_selected: None,
            api_requests: Vec::new(),
            request_selected: None,
            log_selected: None,
            log_follow: true,
            log_area_height: 0,
            request_body_selected: None,
            request_body_area_height: 0,
            id_counter: 0,
            show_help: false,
            quit: false,
            theme,
            theme_name,
            collection_variables: variables,
            secret_keys,
            environments,
            selected_environment: None,
            env_overlay: false,
            env_overrides,
            environment_selected: None,
            variables: Vec::new(),
            variable_selected: None,
            variable_edit_index: None,
            variable_edit_value: String::new(),
            variable_edit_reveal: false,
            zoom: None,
            tab_idx: 0,
            tab_titles: Vec::new(),
            tab_selected: None,
        };
        proof {
            assert(app@.search =~= Seq::<char>::empty());
            assert(app@.filtered =~= Seq::<usize>::empty());
            assert(app@.filtered_apis =~= Seq::<usize>::empty());
            assert(app@.import_filter =~= Seq::<char>::empty());
            assert(app@.import_entries =~= Seq::<crate::app::ImportEntryView>::empty());
            assert(app@.processes =~= Seq::<crate::app::ProcessView>::empty());
            assert(app@.api_requests =~= Seq::<crate::api::ApiRequestView>::empty());
            assert(app@.variables =~= Seq::<(Seq<char>, Seq<char>)>::empty());
            assert(app@.variable_edit_value =~= Seq::<char>::empty());
            assert(app@.tab_titles =~= Seq::<Seq<char>>::empty());
            assert(app@.commands =~= Seq::<CommandView>::empty());
            assert(app@ =~= fresh_view(
                AppMode::Api,
                Seq::empty(),
                crate::collection::api_views(app.apis@),
                pairs_view(app.collection_variables@),
                strings_view(app.secret_keys@),
                envs_view(app.environments@),
                pairs_view(app.env_overrides@),
                saved,
            ));
        }
        app.set_environment(selected_environment);
        proof {
            reveal(AppView::set_environment);
            reveal(AppView::recompute_variables);
        }
        app.update_filtered();
        app.variable_selected = Some(0);
        app
    }
}

} // verus!
