//! Runbook configuration: the commands of a runbook file with their key
//! bindings, and the choice of the editor.

use vstd::prelude::*;
use crate::keybinding::{parse_spec, KeyBinding};

verus! {

/// A runbook command: its title, key binding and shell command line.
#[derive(Debug, Clone)]
pub struct Command {
    pub title: String,
    pub key: KeyBinding,
    pub command: String,
}

/// The view of a command.
pub struct CommandView {
    pub title: Seq<char>,
    pub key: KeyBinding,
    pub command: Seq<char>,
}

impl View for Command {
    type V = CommandView;

    open spec fn view(&self) -> CommandView {
        CommandView { title: self.title@, key: self.key, command: self.command@ }
    }
}

/// A command as written in a runbook file, before its key binding is parsed.
#[derive(Debug, Clone)]
pub struct RawCommand {
    pub title: String,
    pub keybinding: String,
    pub command: String,
}

/// The contents of a runbook file.
#[derive(Debug, Clone)]
pub struct ConfigFile {
    pub commands: Vec<RawCommand>,
    pub editor: Option<String>,
}

/// A loaded runbook: its commands and the editor it names, if any.
#[derive(Debug, Clone)]
pub struct RunbookConfig {
    pub commands: Vec<Command>,
    pub editor: Option<String>,
}

/// Why a runbook file is refused: a command whose key binding does not
/// parse, given with that binding's text and the command's title.
#[derive(Debug, Clone)]
pub enum ConfigError {
    InvalidKeybinding { raw: String, title: String },
}

/// The key binding of every raw command before index `n` parses.
pub open spec fn all_parse_before(raws: Seq<RawCommand>, n: int) -> bool {
    forall|i: int| 0 <= i < n ==> parse_spec((#[trigger] raws[i]).keybinding@) is Some
}

/// A command built from its raw form: same title and command, parsed key.
pub open spec fn built_from(c: Command, raw: RawCommand) -> bool {
    &&& c.title@ == raw.title@
    &&& c.command@ == raw.command@
    &&& Some(c.key) == parse_spec(raw.keybinding@)
}

/// The editor a runbook names: only a non-empty one counts.
pub open spec fn non_empty(o: Option<String>) -> Option<Seq<char>> {
    match o {
        Some(s) => if s@.len() > 0 {
            Some(s@)
        } else {
            None
        },
        None => None,
    }
}

/// The view of an optional string.
pub open spec fn opt_string_view(o: Option<String>) -> Option<Seq<char>> {
    match o {
        Some(s) => Some(s@),
        None => None,
    }
}

/// Builds a runbook from the contents of its file: every command's key
/// binding is parsed; the first command whose binding does not parse makes
/// the whole file fail with that binding and title; an empty editor counts
/// as none.
pub fn build_config(file: ConfigFile) -> (r: Result<RunbookConfig, ConfigError>)
    ensures
        r is Ok <==> all_parse_before(file.commands@, file.commands@.len() as int),
        r matches Ok(cfg) ==> {
            &&& cfg.commands@.len() == file.commands@.len()
            &&& forall|i: int|
                0 <= i < cfg.commands@.len() ==> built_from(
                    #[trigger] cfg.commands@[i],
                    file.commands@[i],
                )
            &&& opt_string_view(cfg.editor) == non_empty(file.editor)
        },
        r matches Err(ConfigError::InvalidKeybinding { raw, title }) ==> exists|i: int|
            0 <= i < file.commands@.len() && all_parse_before(file.commands@, i) && parse_spec(
                (#[trigger] file.commands@[i]).keybinding@,
            ) is None && raw@ == file.commands@[i].keybinding@ && title@
                == file.commands@[i].title@,
{
    let mut commands: Vec<Command> = Vec::new();
    let mut i: usize = 0;
    while i < file.commands.len()
        invariant
            i <= file.commands@.len(),
            commands@.len() == i,
            all_parse_before(file.commands@, i as int),
            forall|j: int| 0 <= j < i ==> built_from(#[trigger] commands@[j], file.commands@[j]),
        decreases file.commands@.len() - i,
    {
        let raw = &file.commands[i];
        match KeyBinding::parse(raw.keybinding.as_str()) {
            Some(key) => {
                commands.push(
                    Command { title: raw.title.clone(), key, command: raw.command.clone() },
                );
                i = i + 1;
            },
            None => {
                return Err(
                    ConfigError::InvalidKeybinding {
                        raw: raw.keybinding.clone(),
                        title: raw.title.clone(),
                    },
                );
            },
        }
    }
    let editor = match file.editor {
        Some(e) => if !e.as_str().is_empty() {
            Some(e)
        } else {
            None
        },
        None => None,
    };
    Ok(RunbookConfig { commands, editor })
}

/// The first of the candidates that is present and non-empty.
pub open spec fn first_non_empty(c: Seq<Option<String>>) -> Option<Seq<char>>
    decreases c.len(),
{
    if c.len() == 0 {
        None
    } else if non_empty(c[0]) is Some {
        non_empty(c[0])
    } else {
        first_non_empty(c.drop_first())
    }
}

/// `vi`.
pub open spec fn default_editor() -> Seq<char> {
    seq!['v', 'i']
}

/// The editor to run: the first non-empty of the runbook's editor, the
/// global configuration's editor, `$VISUAL` and `$EDITOR`; else an editor
/// found on the search path; else `vi`.
pub open spec fn resolve_editor_spec(
    file_editor: Option<String>,
    global_editor: Option<String>,
    visual: Option<String>,
    editor_var: Option<String>,
    found: Option<String>,
) -> Seq<char> {
    match first_non_empty(seq![file_editor, global_editor, visual, editor_var]) {
        Some(e) => e,
        None => match found {
            Some(f) => f@,
            None => default_editor(),
        },
    }
}

/// Chooses the editor to run (see `resolve_editor_spec`).  The caller reads
/// `$VISUAL` and `$EDITOR` and looks for an installed editor.
pub fn resolve_editor(
    file_editor: Option<String>,
    global_editor: Option<String>,
    visual: Option<String>,
    editor_var: Option<String>,
    found: Option<String>,
) -> (r: String)
    ensures
        r@ == resolve_editor_spec(file_editor, global_editor, visual, editor_var, found),
{
    let ghost cands = seq![file_editor, global_editor, visual, editor_var];
    proof {
        reveal_with_fuel(first_non_empty, 5);
    }
    assert(cands.drop_first() =~= seq![global_editor, visual, editor_var]);
    assert(cands.drop_first().drop_first() =~= seq![visual, editor_var]);
    assert(cands.drop_first().drop_first().drop_first() =~= seq![editor_var]);
    assert(cands.drop_first().drop_first().drop_first().drop_first() =~= Seq::<Option<String>>::empty());
    if let Some(e) = file_editor {
        if !e.as_str().is_empty() {
            return e;
        }
    }
    if let Some(e) = global_editor {
        if !e.as_str().is_empty() {
            return e;
        }
    }
    if let Some(e) = visual {
        if !e.as_str().is_empty() {
            return e;
        }
    }
    if let Some(e) = editor_var {
        if !e.as_str().is_empty() {
            return e;
        }
    }
    match found {
        Some(f) => f,
        None => {
            let mut s = String::new();
            crate::text::push_char(&mut s, 'v');
            crate::text::push_char(&mut s, 'i');
            assert(s@ =~= default_editor());
            s
        },
    }
}

/// Name for what `shlex::try_quote` gives a path: the path quoted for the
/// shell, or `None` when it refuses (the path holds a nul character).
pub uninterp spec fn shell_quoted(s: Seq<char>) -> Option<Seq<char>>;

/// Calls `shlex::try_quote`; the result is named `shell_quoted`.  Its
/// documentation gives a nul character as the only cause of an error.
#[verifier::external_body]
fn try_quote(s: &str) -> (r: Option<String>)
    ensures
        crate::api::opt_view(r) == shell_quoted(s@),
        !s@.contains('\0') ==> r is Some,
{
    match shlex::try_quote(s) {
        Ok(q) => Some(q.into_owned()),
        Err(_) => None,
    }
}

/// The command that runs an editor found at `path`: the path quoted for
/// the shell, or the path itself when it cannot be quoted.
pub fn editor_command(path: &str) -> (r: String)
    ensures
        r@ == match shell_quoted(path@) {
            Some(q) => q,
            None => path@,
        },
{
    match try_quote(path) {
        Some(q) => q,
        None => crate::text::to_string(path),
    }
}

} // verus!
