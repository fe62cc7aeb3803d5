//! Text layout for the terminal: the status line shortened from the left,
//! output lines wrapped to a width in display columns, help lines, the
//! ASCII stand-ins for status symbols in CJK locales, and the cells a
//! terminal backend draws after a wide character.

use std::collections::VecDeque;
use vstd::prelude::*;
use crate::api::strings_view;
use crate::app::{App, AppMode, AppView, Focus};
use crate::highlight::{tokens_view, TextRole};
use crate::theme::{Style, Theme};
use crate::text::{chars_of, push_char, push_str, spaces, string_of};

verus! {

// ----------------------------------------------------------------------------
// Status line
// ----------------------------------------------------------------------------

/// `...`.
pub open spec fn ellipsis() -> Seq<char> {
    seq!['.', '.', '.']
}

/// The text shortened to `width` characters: unchanged when it fits, cut
/// to its first `width` characters when the width leaves no room for
/// `...`, and otherwise `...` followed by its last `width - 3` characters.
pub open spec fn truncate_status_spec(s: Seq<char>, width: nat) -> Seq<char> {
    if s.len() <= width {
        s
    } else if width <= 3 {
        s.take(width as int)
    } else {
        ellipsis() + s.skip(s.len() - (width - 3))
    }
}

/// Shortens the text to `width` characters (see `truncate_status_spec`);
/// the result has `min(len, width)` characters.
pub fn truncate_status(s: &str, width: usize) -> (r: String)
    ensures
        r@ == truncate_status_spec(s@, width as nat),
        r@.len() == if s@.len() <= width {
            s@.len()
        } else {
            width as nat
        },
{
    let v = chars_of(s);
    let len = v.len();
    if len <= width {
        return string_of(&v);
    }
    let mut out: Vec<char> = Vec::new();
    if width <= 3 {
        let mut i: usize = 0;
        while i < width
            invariant
                i <= width,
                width < len,
                len == v@.len(),
                out@ == v@.take(i as int),
            decreases width - i,
        {
            out.push(v[i]);
            i = i + 1;
            proof {
                assert(out@ =~= v@.take(i as int));
            }
        }
        return string_of(&out);
    }
    out.push('.');
    out.push('.');
    out.push('.');
    let skip = len - (width - 3);
    let mut i: usize = skip;
    while i < len
        invariant
            skip <= i <= len,
            len == v@.len(),
            out@ == ellipsis() + v@.subrange(skip as int, i as int),
        decreases len - i,
    {
        out.push(v[i]);
        i = i + 1;
        proof {
            assert(out@ =~= ellipsis() + v@.subrange(skip as int, i as int));
        }
    }
    proof {
        assert(v@.subrange(skip as int, len as int) =~= v@.skip(skip as int));
    }
    string_of(&out)
}

// ----------------------------------------------------------------------------
// Wrapping
// ----------------------------------------------------------------------------

/// Name for the display width that `unicode_width` gives a character:
/// `None` for a control character.
pub uninterp spec fn unicode_width(c: char) -> Option<usize>;

/// Calls `UnicodeWidthChar::width`; the result is named `unicode_width`.
/// Its source gives printable ASCII a width of one and control characters
/// (below U+0020 and from U+007F to U+009F) none, and reads every other
/// width from a table of bytes.
#[verifier::external_body]
fn char_width(c: char) -> (r: Option<usize>)
    ensures
        r == unicode_width(c),
        ' ' <= c <= '~' ==> r == Some(1usize),
        c < ' ' || ('\u{7f}' <= c && c < '\u{a0}') ==> r is None,
        r matches Some(w) ==> w < 256,
{
    unicode_width::UnicodeWidthChar::width(c)
}

/// The columns a character takes: its width, or none for a control
/// character.
pub open spec fn columns(c: char) -> nat {
    match unicode_width(c) {
        Some(w) => w as nat,
        None => 0,
    }
}

/// The state of wrapping a line: the finished pieces, the piece being
/// filled and its width.
pub struct WrapState {
    pub done: Seq<Seq<char>>,
    pub current: Seq<char>,
    pub used: nat,
}

/// One character placed: when it does not fit beside a non-empty piece,
/// that piece is finished first.
pub open spec fn wrap_step(st: WrapState, c: char, width: nat) -> WrapState {
    let w = columns(c);
    let st1 = if st.used + w > width && st.current.len() > 0 {
        WrapState { done: st.done.push(st.current), current: Seq::empty(), used: 0 }
    } else {
        st
    };
    WrapState { current: st1.current.push(c), used: st1.used + w, ..st1 }
}

/// The characters placed in order.
pub open spec fn wrap_chars(cs: Seq<char>, width: nat) -> WrapState
    decreases cs.len(),
{
    if cs.len() == 0 {
        WrapState { done: Seq::empty(), current: Seq::empty(), used: 0 }
    } else {
        wrap_step(wrap_chars(cs.drop_last(), width), cs.last(), width)
    }
}

/// The pieces of a line wrapped to `width` columns: an empty line stays one
/// empty piece; otherwise a piece ends before a character that would take
/// it past the width.
pub open spec fn wrap_line_spec(line: Seq<char>, width: nat) -> Seq<Seq<char>> {
    if line.len() == 0 {
        seq![Seq::empty()]
    } else {
        let st = wrap_chars(line, width);
        if st.current.len() > 0 {
            st.done.push(st.current)
        } else {
            st.done
        }
    }
}

/// The pieces of all the lines, in order.
pub open spec fn wrap_lines_spec(lines: Seq<Seq<char>>, width: nat) -> Seq<Seq<char>>
    decreases lines.len(),
{
    if lines.len() == 0 {
        Seq::empty()
    } else {
        wrap_lines_spec(lines.drop_last(), width) + wrap_line_spec(lines.last(), width)
    }
}

/// Wraps one line (see `wrap_line_spec`).
fn wrap_line(line: &str, width: usize, out: &mut Vec<String>)
    requires
        width > 0,
        width <= u16::MAX,
    ensures
        crate::api::strings_view(final(out)@) == crate::api::strings_view(old(out)@) + wrap_line_spec(line@, width as nat),
{
    let cs = chars_of(line);
    let ghost before = crate::api::strings_view(out@);
    if cs.len() == 0 {
        out.push(String::new());
        proof {
            assert(crate::api::strings_view(out@) =~= before + wrap_line_spec(line@, width as nat));
        }
        return;
    }
    let mut done: Vec<String> = Vec::new();
    let mut current: Vec<char> = Vec::new();
    let mut used: usize = 0;
    let mut i: usize = 0;
    while i < cs.len()
        invariant
            i <= cs@.len(),
            cs@ == line@,
            width <= u16::MAX,
            used <= width + 256,
            ({
                let st = wrap_chars(cs@.take(i as int), width as nat);
                &&& crate::api::strings_view(done@) == st.done
                &&& current@ == st.current
                &&& used == st.used
            }),
        decreases cs@.len() - i,
    {
        let c = cs[i];
        let w: usize = match char_width(c) {
            Some(w) => w,
            None => 0,
        };
        proof {
            assert(cs@.take(i + 1).drop_last() =~= cs@.take(i as int));
            assert(cs@.take(i + 1).last() == c);
        }
        if used + w > width && current.len() > 0 {
            let piece = string_of(&current);
            let ghost old_done = done@;
            done.push(piece);
            proof {
                assert(crate::api::strings_view(done@) =~= crate::api::strings_view(old_done).push(current@));
            }
            current = Vec::new();
            used = 0;
        }
        current.push(c);
        used = used + w;
        i = i + 1;
    }
    proof {
        assert(cs@.take(i as int) =~= cs@);
    }
    let mut k: usize = 0;
    while k < done.len()
        invariant
            k <= done@.len(),
            crate::api::strings_view(out@) == before + crate::api::strings_view(done@.take(k as int)),
        decreases done@.len() - k,
    {
        let ghost old_out = out@;
        let piece = done[k].clone();
        out.push(piece);
        proof {
            assert(crate::api::strings_view(out@) =~= crate::api::strings_view(old_out).push(done@[k as int]@));
            assert(crate::api::strings_view(done@.take(k + 1)) =~= crate::api::strings_view(done@.take(k as int)).push(
                done@[k as int]@,
            ));
        }
        k = k + 1;
    }
    proof {
        assert(done@.take(k as int) =~= done@);
    }
    let ghost st = wrap_chars(line@, width as nat);
    let ghost mid = out@;
    proof {
        assert(crate::api::strings_view(mid) == before + st.done);
    }
    if current.len() > 0 {
        let piece = string_of(&current);
        out.push(piece);
        proof {
            assert(crate::api::strings_view(out@) =~= crate::api::strings_view(mid).push(st.current));
        }
    }
    proof {
        assert(crate::api::strings_view(out@) =~= before + wrap_line_spec(line@, width as nat));
    }
}

/// The lines wrapped to `width` columns (see `wrap_line_spec`); nothing
/// for a zero width.
pub fn wrap_lines(output: &VecDeque<String>, width: u16) -> (r: Vec<String>)
    ensures
        crate::api::strings_view(r@) == if width == 0 {
            Seq::empty()
        } else {
            wrap_lines_spec(crate::api::strings_view(output@), width as nat)
        },
{
    let mut r: Vec<String> = Vec::new();
    if width == 0 {
        proof {
            assert(crate::api::strings_view(r@) =~= Seq::<Seq<char>>::empty());
        }
        return r;
    }
    let ghost ls = crate::api::strings_view(output@);
    let mut i: usize = 0;
    proof {
        assert(crate::api::strings_view(r@) =~= wrap_lines_spec(ls.take(0), width as nat));
    }
    while i < output.len()
        invariant
            i <= output@.len(),
            width > 0,
            ls == crate::api::strings_view(output@),
            crate::api::strings_view(r@) == wrap_lines_spec(ls.take(i as int), width as nat),
        decreases output@.len() - i,
    {
        proof {
            assert(ls.take(i + 1).drop_last() =~= ls.take(i as int));
            assert(ls.take(i + 1).last() == output@[i as int]@);
        }
        wrap_line(output[i].as_str(), width as usize, &mut r);
        i = i + 1;
    }
    proof {
        assert(ls.take(i as int) =~= ls);
    }
    r
}

// ----------------------------------------------------------------------------
// Help lines
// ----------------------------------------------------------------------------

/// A help line: two spaces, the key padded with spaces to 22 characters,
/// then the description.
pub open spec fn help_line_spec(key: Seq<char>, desc: Seq<char>) -> Seq<char> {
    seq![' ', ' '] + key + spaces(if key.len() < 22 {
        (22 - key.len()) as nat
    } else {
        0
    }) + desc
}

/// Formats a help line (see `help_line_spec`).
pub fn help_line(key: &str, desc: &str) -> (r: String)
    ensures
        r@ == help_line_spec(key@, desc@),
{
    let mut r = String::new();
    push_char(&mut r, ' ');
    push_char(&mut r, ' ');
    crate::text::push_str(&mut r, key);
    let n = crate::text::char_count(key);
    let mut k: usize = n;
    let ghost pre = r@;
    while k < 22
        invariant
            n <= k,
            n == key@.len(),
            k <= 22 || k == n,
            r@ == pre + spaces((k - n) as nat),
        decreases 22 - k,
    {
        push_char(&mut r, ' ');
        k = k + 1;
        proof {
            assert(r@ =~= pre + spaces((k - n) as nat));
        }
    }
    crate::text::push_str(&mut r, desc);
    proof {
        assert(r@ =~= help_line_spec(key@, desc@));
    }
    r
}

// ----------------------------------------------------------------------------
// CJK locales
// ----------------------------------------------------------------------------

/// Whether a locale is Chinese, Japanese or Korean (by its prefix).
pub open spec fn is_cjk_locale_spec(locale: Seq<char>) -> bool {
    crate::text::is_prefix_of(seq!['z', 'h'], locale) || crate::text::is_prefix_of(seq!['j', 'a'], locale)
        || crate::text::is_prefix_of(seq!['k', 'o'], locale)
}

/// Whether a locale name is Chinese, Japanese or Korean.
pub fn is_cjk_locale_name(locale: &str) -> (b: bool)
    ensures
        b == is_cjk_locale_spec(locale@),
{
    proof {
        reveal_strlit("zh");
        reveal_strlit("ja");
        reveal_strlit("ko");
        assert("zh"@ =~= seq!['z', 'h']);
        assert("ja"@ =~= seq!['j', 'a']);
        assert("ko"@ =~= seq!['k', 'o']);
    }
    crate::text::starts_with(locale, "zh") || crate::text::starts_with(locale, "ja") || crate::text::starts_with(
        locale,
        "ko",
    )
}

/// Calls `rust_i18n::locale`, the locale of the messages.  It depends on
/// what the program set, so nothing is stated of it.
#[verifier::external_body]
fn current_locale() -> (r: String) {
    rust_i18n::locale().to_string()
}

/// Whether the messages are in a Chinese, Japanese or Korean locale.
pub fn is_cjk_locale() -> bool {
    let l = current_locale();
    is_cjk_locale_name(l.as_str())
}

/// The status symbols that CJK terminals may draw two cells wide, and
/// their ASCII stand-ins: `●` is `*`, `✓` is `+`, `✗` is `!`.
pub open spec fn cjk_symbol_spec(sym: Seq<char>, cjk: bool) -> Seq<char> {
    if !cjk {
        sym
    } else if sym == seq!['\u{25cf}'] {
        seq!['*']
    } else if sym == seq!['\u{2713}'] {
        seq!['+']
    } else if sym == seq!['\u{2717}'] {
        seq!['!']
    } else {
        sym
    }
}

/// The status symbol to draw: its ASCII stand-in in a CJK locale (see
/// `cjk_symbol_spec`), itself otherwise.
pub fn cjk_safe_symbol(sym: &'static str, cjk: bool) -> (r: &'static str)
    ensures
        r@ == cjk_symbol_spec(sym@, cjk),
{
    if !cjk {
        return sym;
    }
    proof {
        reveal_strlit("\u{25cf}");
        reveal_strlit("\u{2713}");
        reveal_strlit("\u{2717}");
        reveal_strlit("*");
        reveal_strlit("+");
        reveal_strlit("!");
        assert("\u{25cf}"@ =~= seq!['\u{25cf}']);
        assert("\u{2713}"@ =~= seq!['\u{2713}']);
        assert("\u{2717}"@ =~= seq!['\u{2717}']);
        assert("*"@ =~= seq!['*']);
        assert("+"@ =~= seq!['+']);
        assert("!"@ =~= seq!['!']);
    }
    if crate::theme::str_eq(sym, "\u{25cf}") {
        "*"
    } else if crate::theme::str_eq(sym, "\u{2713}") {
        "+"
    } else if crate::theme::str_eq(sym, "\u{2717}") {
        "!"
    } else {
        sym
    }
}

/// The status symbol to draw in the current locale.
pub fn cjk_safe_status_symbol(sym: &'static str) -> (r: &'static str)
    ensures
        r@ == cjk_symbol_spec(sym@, false) || r@ == cjk_symbol_spec(sym@, true),
{
    let cjk = is_cjk_locale();
    cjk_safe_symbol(sym, cjk)
}

// ----------------------------------------------------------------------------
// Drawing cells
// ----------------------------------------------------------------------------

/// A cell handed to the terminal: its position, its width in columns and
/// whether its symbol holds the emoji presentation selector U+FE0F.
#[derive(Clone, Copy)]
pub struct CellInfo {
    pub x: u16,
    pub y: u16,
    pub width: u16,
    pub emoji: bool,
}

/// What the filter remembers: where the last drawn cell ends and whether
/// the cells it covers are skipped.
pub struct CellFilterState {
    pub next: Option<(u16, u16)>,
    pub skip: bool,
}

/// One cell through the filter: a cell covered by the wide cell before it
/// on the same row is dropped; any other cell is drawn, and a wide cell
/// without the emoji selector covers the cells after it.
pub open spec fn cell_step(st: CellFilterState, c: CellInfo) -> (CellFilterState, bool) {
    if st.skip && (st.next matches Some((nx, ny)) && c.y == ny && c.x < nx) {
        (st, false)
    } else {
        (
            CellFilterState {
                next: Some((if c.x + c.width > u16::MAX { u16::MAX } else { (c.x + c.width) as u16 }, c.y)),
                skip: c.width > 1 && !c.emoji,
            },
            true,
        )
    }
}

/// Which of the cells are drawn, in order.
pub open spec fn cells_drawn(cs: Seq<CellInfo>) -> (CellFilterState, Seq<bool>)
    decreases cs.len(),
{
    if cs.len() == 0 {
        (CellFilterState { next: None, skip: false }, Seq::empty())
    } else {
        let (st, d) = cells_drawn(cs.drop_last());
        let (st2, keep) = cell_step(st, cs.last());
        (st2, d.push(keep))
    }
}

/// Which cells to draw: those a wide character before them does not cover
/// (see `cell_step`).
pub fn visible_cells(cells: &Vec<CellInfo>) -> (r: Vec<bool>)
    ensures
        r@ == cells_drawn(cells@).1,
{
    let mut r: Vec<bool> = Vec::new();
    let mut next: Option<(u16, u16)> = None;
    let mut skip = false;
    let mut i: usize = 0;
    while i < cells.len()
        invariant
            i <= cells@.len(),
            ({
                let (st, d) = cells_drawn(cells@.take(i as int));
                &&& st.next == next
                &&& st.skip == skip
                &&& d == r@
            }),
        decreases cells@.len() - i,
    {
        let c = cells[i];
        proof {
            assert(cells@.take(i + 1).drop_last() =~= cells@.take(i as int));
            assert(cells@.take(i + 1).last() == c);
        }
        let covered = match next {
            Some((nx, ny)) => skip && c.y == ny && c.x < nx,
            None => false,
        };
        if covered {
            r.push(false);
        } else {
            next = Some((c.x.saturating_add(c.width), c.y));
            skip = c.width > 1 && !c.emoji;
            r.push(true);
        }
        i = i + 1;
    }
    proof {
        assert(cells@.take(i as int) =~= cells@);
    }
    r
}

// ----------------------------------------------------------------------------
// Help
// ----------------------------------------------------------------------------

/// An entry of the help overlay: a heading, a key with the message id of
/// its description, or a blank line.  Headings and descriptions are message
/// ids, translated when shown.
#[derive(Clone, Copy)]
pub enum HelpEntry {
    Heading(&'static str),
    Line(&'static str, &'static str),
    Blank,
}

/// The view of a help entry.
pub enum HelpEntryView {
    Heading(Seq<char>),
    Line(Seq<char>, Seq<char>),
    Blank,
}

impl View for HelpEntry {
    type V = HelpEntryView;

    open spec fn view(&self) -> HelpEntryView {
        match self {
            HelpEntry::Heading(h) => HelpEntryView::Heading(h@),
            HelpEntry::Line(k, d) => HelpEntryView::Line(k@, d@),
            HelpEntry::Blank => HelpEntryView::Blank,
        }
    }
}

/// The global keys, listed first in every help overlay, then a blank line.
pub open spec fn global_help() -> Seq<HelpEntryView> {
    seq![
        HelpEntryView::Heading("help.global"@),
        HelpEntryView::Line("?"@, "help.desc.toggle_help"@),
        HelpEntryView::Line("Tab"@, "help.desc.cycle_focus_forward"@),
        HelpEntryView::Line("Shift+Tab"@, "help.desc.cycle_focus_backward"@),
        HelpEntryView::Line("m"@, "help.desc.maximize"@),
        HelpEntryView::Line("Ctrl+E"@, "help.desc.export"@),
        HelpEntryView::Line("Ctrl+G"@, "help.desc.switch_env"@),
        HelpEntryView::Line("Ctrl+O"@, "help.desc.open_file"@),
        HelpEntryView::Line("F2"@, "help.desc.switch_tab"@),
        HelpEntryView::Line("Ctrl+Left"@, "help.desc.prev_tab"@),
        HelpEntryView::Line("Ctrl+Right"@, "help.desc.next_tab"@),
        HelpEntryView::Line("F3"@, "help.desc.new_tab"@),
        HelpEntryView::Line("F4"@, "help.desc.edit_source"@),
        HelpEntryView::Line("Ctrl+T"@, "help.desc.cycle_theme"@),
        HelpEntryView::Line("Ctrl+C"@, "help.desc.quit"@),
        HelpEntryView::Line("Ctrl+N"@, "help.desc.move_down"@),
        HelpEntryView::Line("Ctrl+P"@, "help.desc.move_up"@),
        HelpEntryView::Blank,
    ]
}

/// The keys of the focused pane in the given mode (none for a pane without
/// a section of its own).
pub open spec fn pane_help(mode: AppMode, focus: Focus) -> Seq<HelpEntryView> {
    if mode == AppMode::Api {
        match focus {
            Focus::Commands => seq![
                    HelpEntryView::Heading("help.section.api_apis"@),
                    HelpEntryView::Line("↑/↓ or Ctrl+P/Ctrl+N"@, "help.desc.select_api"@),
                    HelpEntryView::Line("Enter"@, "help.desc.send_request"@),
                    HelpEntryView::Line("/"@, "help.desc.search_apis"@),
                    HelpEntryView::Line("Esc"@, "help.desc.clear_search"@),
                    HelpEntryView::Line("letter key"@, "help.desc.send_by_key"@),
                ],
            Focus::Variables => seq![
                    HelpEntryView::Heading("help.section.api_variables"@),
                    HelpEntryView::Line("↑/↓ or Ctrl+P/Ctrl+N"@, "help.desc.select_variable"@),
                    HelpEntryView::Line("Enter"@, "help.desc.edit_value"@),
                    HelpEntryView::Line("Esc"@, "help.desc.cancel_edit"@),
                ],
            Focus::Processes => seq![
                    HelpEntryView::Heading("help.section.api_requests"@),
                    HelpEntryView::Line("↑/↓ or Ctrl+P/Ctrl+N"@, "help.desc.select_request"@),
                    HelpEntryView::Line("PgUp/PgDn/Home/End"@, "help.desc.scroll_response_body"@),
                    HelpEntryView::Line("Esc/q"@, "help.desc.back_to_apis"@),
                ],
            Focus::RequestBody => seq![
                    HelpEntryView::Heading("help.section.api_request_body"@),
                    HelpEntryView::Line("↑/↓ or Ctrl+P/Ctrl+N"@, "help.desc.scroll_request_body"@),
                    HelpEntryView::Line("PgUp/PgDn/Home/End"@, "help.desc.scroll_request_body"@),
                    HelpEntryView::Line("Esc/q"@, "help.desc.back_to_requests"@),
                ],
            Focus::ResponseBody => seq![
                    HelpEntryView::Heading("help.section.api_response_body"@),
                    HelpEntryView::Line("↑/↓ or Ctrl+P/Ctrl+N"@, "help.desc.scroll_response_body"@),
                    HelpEntryView::Line("PgUp/PgDn/Home/End"@, "help.desc.scroll_response_body"@),
                    HelpEntryView::Line("Esc/q"@, "help.desc.back_to_requests"@),
                ],
            _ => Seq::empty(),
        }
    } else {
        match focus {
            Focus::Commands => seq![
                    HelpEntryView::Heading("help.section.runbook_commands"@),
                    HelpEntryView::Line("↑/↓ or Ctrl+P/Ctrl+N"@, "help.desc.select_command"@),
                    HelpEntryView::Line("Enter"@, "help.desc.run_command"@),
                    HelpEntryView::Line("/"@, "help.desc.search_commands"@),
                    HelpEntryView::Line("Esc"@, "help.desc.clear_search"@),
                    HelpEntryView::Line("letter key"@, "help.desc.run_by_key"@),
                ],
            Focus::Processes => seq![
                    HelpEntryView::Heading("help.section.runbook_processes"@),
                    HelpEntryView::Line("↑/↓ or Ctrl+P/Ctrl+N"@, "help.desc.select_process"@),
                    HelpEntryView::Line("PgUp/PgDn/Home/End"@, "help.desc.scroll_output"@),
                    HelpEntryView::Line("Esc/q"@, "help.desc.back_to_commands"@),
                ],
            Focus::Output => seq![
                    HelpEntryView::Heading("help.section.runbook_output"@),
                    HelpEntryView::Line("↑/↓ or Ctrl+P/Ctrl+N"@, "help.desc.scroll_output"@),
                    HelpEntryView::Line("PgUp/PgDn/Home/End"@, "help.desc.scroll_output"@),
                    HelpEntryView::Line("Esc/q"@, "help.desc.back_to_processes"@),
                ],
            _ => Seq::empty(),
        }
    }
}

/// The entries of the help overlay: the global keys, then the keys of the
/// focused pane.
pub open spec fn help_entries_spec(mode: AppMode, focus: Focus) -> Seq<HelpEntryView> {
    global_help() + pane_help(mode, focus)
}

/// The views of help entries.
pub open spec fn help_view(v: Seq<HelpEntry>) -> Seq<HelpEntryView> {
    v.map_values(|e: HelpEntry| e@)
}

/// The entries of the help overlay (see `help_entries_spec`).
pub fn help_entries(mode: AppMode, focus: Focus) -> (r: Vec<HelpEntry>)
    ensures
        help_view(r@) == help_entries_spec(mode, focus),
{
    let mut v: Vec<HelpEntry> = Vec::new();
    v.push(HelpEntry::Heading("help.global"));
    v.push(HelpEntry::Line("?", "help.desc.toggle_help"));
    v.push(HelpEntry::Line("Tab", "help.desc.cycle_focus_forward"));
    v.push(HelpEntry::Line("Shift+Tab", "help.desc.cycle_focus_backward"));
    v.push(HelpEntry::Line("m", "help.desc.maximize"));
    v.push(HelpEntry::Line("Ctrl+E", "help.desc.export"));
    v.push(HelpEntry::Line("Ctrl+G", "help.desc.switch_env"));
    v.push(HelpEntry::Line("Ctrl+O", "help.desc.open_file"));
    v.push(HelpEntry::Line("F2", "help.desc.switch_tab"));
    v.push(HelpEntry::Line("Ctrl+Left", "help.desc.prev_tab"));
    v.push(HelpEntry::Line("Ctrl+Right", "help.desc.next_tab"));
    v.push(HelpEntry::Line("F3", "help.desc.new_tab"));
    v.push(HelpEntry::Line("F4", "help.desc.edit_source"));
    v.push(HelpEntry::Line("Ctrl+T", "help.desc.cycle_theme"));
    v.push(HelpEntry::Line("Ctrl+C", "help.desc.quit"));
    v.push(HelpEntry::Line("Ctrl+N", "help.desc.move_down"));
    v.push(HelpEntry::Line("Ctrl+P", "help.desc.move_up"));
    v.push(HelpEntry::Blank);
    proof {
        assert(help_view(v@) =~= global_help());
    }
    let ghost g = help_view(v@);
    if mode == AppMode::Api {
        match focus {
            Focus::Commands => {
                v.push(HelpEntry::Heading("help.section.api_apis"));
                v.push(HelpEntry::Line("↑/↓ or Ctrl+P/Ctrl+N", "help.desc.select_api"));
                v.push(HelpEntry::Line("Enter", "help.desc.send_request"));
                v.push(HelpEntry::Line("/", "help.desc.search_apis"));
                v.push(HelpEntry::Line("Esc", "help.desc.clear_search"));
                v.push(HelpEntry::Line("letter key", "help.desc.send_by_key"));
            },
            Focus::Variables => {
                v.push(HelpEntry::Heading("help.section.api_variables"));
                v.push(HelpEntry::Line("↑/↓ or Ctrl+P/Ctrl+N", "help.desc.select_variable"));
                v.push(HelpEntry::Line("Enter", "help.desc.edit_value"));
                v.push(HelpEntry::Line("Esc", "help.desc.cancel_edit"));
            },
            Focus::Processes => {
                v.push(HelpEntry::Heading("help.section.api_requests"));
                v.push(HelpEntry::Line("↑/↓ or Ctrl+P/Ctrl+N", "help.desc.select_request"));
                v.push(HelpEntry::Line("PgUp/PgDn/Home/End", "help.desc.scroll_response_body"));
                v.push(HelpEntry::Line("Esc/q", "help.desc.back_to_apis"));
            },
            Focus::RequestBody => {
                v.push(HelpEntry::Heading("help.section.api_request_body"));
                v.push(HelpEntry::Line("↑/↓ or Ctrl+P/Ctrl+N", "help.desc.scroll_request_body"));
                v.push(HelpEntry::Line("PgUp/PgDn/Home/End", "help.desc.scroll_request_body"));
                v.push(HelpEntry::Line("Esc/q", "help.desc.back_to_requests"));
            },
            Focus::ResponseBody => {
                v.push(HelpEntry::Heading("help.section.api_response_body"));
                v.push(HelpEntry::Line("↑/↓ or Ctrl+P/Ctrl+N", "help.desc.scroll_response_body"));
                v.push(HelpEntry::Line("PgUp/PgDn/Home/End", "help.desc.scroll_response_body"));
                v.push(HelpEntry::Line("Esc/q", "help.desc.back_to_requests"));
            },
            _ => {},
        }
    } else {
        match focus {
            Focus::Commands => {
                v.push(HelpEntry::Heading("help.section.runbook_commands"));
                v.push(HelpEntry::Line("↑/↓ or Ctrl+P/Ctrl+N", "help.desc.select_command"));
                v.push(HelpEntry::Line("Enter", "help.desc.run_command"));
                v.push(HelpEntry::Line("/", "help.desc.search_commands"));
                v.push(HelpEntry::Line("Esc", "help.desc.clear_search"));
                v.push(HelpEntry::Line("letter key", "help.desc.run_by_key"));
            },
            Focus::Processes => {
                v.push(HelpEntry::Heading("help.section.runbook_processes"));
                v.push(HelpEntry::Line("↑/↓ or Ctrl+P/Ctrl+N", "help.desc.select_process"));
                v.push(HelpEntry::Line("PgUp/PgDn/Home/End", "help.desc.scroll_output"));
                v.push(HelpEntry::Line("Esc/q", "help.desc.back_to_commands"));
            },
            Focus::Output => {
                v.push(HelpEntry::Heading("help.section.runbook_output"));
                v.push(HelpEntry::Line("↑/↓ or Ctrl+P/Ctrl+N", "help.desc.scroll_output"));
                v.push(HelpEntry::Line("PgUp/PgDn/Home/End", "help.desc.scroll_output"));
                v.push(HelpEntry::Line("Esc/q", "help.desc.back_to_processes"));
            },
            _ => {},
        }
    }
    proof {
        assert(help_view(v@) =~= g + pane_help(mode, focus));
    }
    v
}

// ----------------------------------------------------------------------------
// Status indicators
// ----------------------------------------------------------------------------

impl crate::api::ApiStatus {
    /// The symbol and style of a request's status: `●` while it runs, `✓`
    /// for a 2xx status, `✗` for any other status or a failure.
    pub fn indicator(&self, theme: &Theme) -> (r: (&'static str, Style))
        ensures
            r == (match self {
                crate::api::ApiStatus::Running => ("\u{25cf}", theme.running),
                crate::api::ApiStatus::Done(s) => if 200 <= *s < 300 {
                    ("\u{2713}", theme.success)
                } else {
                    ("\u{2717}", theme.error)
                },
                crate::api::ApiStatus::Failed(_) => ("\u{2717}", theme.error),
            }),
    {
        match self {
            crate::api::ApiStatus::Running => ("\u{25cf}", theme.running),
            crate::api::ApiStatus::Done(s) => if 200 <= *s && *s < 300 {
                ("\u{2713}", theme.success)
            } else {
                ("\u{2717}", theme.error)
            },
            crate::api::ApiStatus::Failed(_) => ("\u{2717}", theme.error),
        }
    }
}

impl crate::app::ProcessStatus {
    /// The symbol and style of a process's status: `●` while it runs, `✓`
    /// for exit code 0, `✗` for any other exit code or a failure.
    pub fn indicator(&self, theme: &Theme) -> (r: (&'static str, Style))
        ensures
            r == (match self {
                crate::app::ProcessStatus::Running => ("\u{25cf}", theme.running),
                crate::app::ProcessStatus::Exited(c) => if *c == 0 {
                    ("\u{2713}", theme.success)
                } else {
                    ("\u{2717}", theme.error)
                },
                crate::app::ProcessStatus::Failed(_) => ("\u{2717}", theme.error),
            }),
    {
        match self {
            crate::app::ProcessStatus::Running => ("\u{25cf}", theme.running),
            crate::app::ProcessStatus::Exited(c) => if *c == 0 {
                ("\u{2713}", theme.success)
            } else {
                ("\u{2717}", theme.error)
            },
            crate::app::ProcessStatus::Failed(_) => ("\u{2717}", theme.error),
        }
    }
}

// ----------------------------------------------------------------------------
// Variables pane
// ----------------------------------------------------------------------------

/// A secret value as the variables pane shows it: eight asterisks, or
/// nothing when the value is empty.
pub open spec fn hidden_value(v: Seq<char>) -> Seq<char> {
    if v.len() == 0 {
        Seq::empty()
    } else {
        crate::app::mask_word()
    }
}

/// The row of variable `i` in the variables pane: `<name> = <value>`.  The
/// value of a secret variable is hidden; the variable being edited shows
/// the edited text followed by `_` (hidden too when it is secret and not
/// revealed).
pub open spec fn variable_row_spec(s: AppView, i: int) -> Seq<char> {
    let name = s.variables[i].0;
    let value = s.variables[i].1;
    let secret = s.secret_keys.contains(name);
    let shown = if s.variable_edit_index == Some(i as usize) {
        if secret && !s.variable_edit_reveal {
            hidden_value(s.variable_edit_value)
        } else {
            s.variable_edit_value + seq!['_']
        }
    } else if secret {
        hidden_value(value)
    } else {
        value
    };
    name + seq![' ', '=', ' '] + shown
}

/// The rows of the variables pane, one per variable.
pub open spec fn variable_rows_spec(s: AppView) -> Seq<Seq<char>> {
    Seq::new(s.variables.len(), |i: int| variable_row_spec(s, i))
}

impl App {
    /// The rows of the variables pane (see `variable_row_spec`).
    pub fn variable_rows(&self) -> (r: Vec<String>)
        ensures
            strings_view(r@) == variable_rows_spec(self@),
    {
        let mut r: Vec<String> = Vec::new();
        let mut i: usize = 0;
        while i < self.variables.len()
            invariant
                i <= self@.variables.len(),
                strings_view(r@) =~= variable_rows_spec(self@).take(i as int),
            decreases self@.variables.len() - i,
        {
            let name = &self.variables[i].0;
            let secret = crate::app::contains_key(&self.secret_keys, name);
            let editing = match self.variable_edit_index {
                Some(j) => j == i,
                None => false,
            };
            let mut row = crate::text::to_string(name.as_str());
            push_str(&mut row, " = ");
            proof {
                reveal_strlit(" = ");
                reveal_strlit("********");
                reveal_strlit("_");
            }
            let ghost head = row@;
            if editing {
                if secret && !self.variable_edit_reveal {
                    if crate::text::char_count(self.variable_edit_value.as_str()) > 0 {
                        push_str(&mut row, "********");
                    }
                } else {
                    push_str(&mut row, self.variable_edit_value.as_str());
                    push_str(&mut row, "_");
                }
            } else if secret {
                if crate::text::char_count(self.variables[i].1.as_str()) > 0 {
                    push_str(&mut row, "********");
                }
            } else {
                push_str(&mut row, self.variables[i].1.as_str());
            }
            proof {
                assert(self@.variables[i as int] == (self.variables@[i as int].0@, self.variables@[i as int].1@));
                assert("********"@ =~= crate::app::mask_word());
                assert(row@ =~= variable_row_spec(self@, i as int));
            }
            let ghost prev = r@;
            r.push(row);
            proof {
                assert(strings_view(r@) =~= strings_view(prev).push(row@));
            }
            i = i + 1;
        }
        r
    }
}

// ----------------------------------------------------------------------------
// Wrapping coloured lines
// ----------------------------------------------------------------------------

/// Name for the graphemes that ratatui draws of a text
/// (`Span::styled_graphemes`): the extended grapheme clusters of the text,
/// in order, leaving out those that hold a control character.
pub uninterp spec fn drawn_graphemes(text: Seq<char>) -> Seq<Seq<char>>;

/// Name for the number of terminal cells ratatui gives a grapheme
/// (`CellWidth::cell_width`).
pub uninterp spec fn cell_columns(g: Seq<char>) -> u16;

/// A control character (`char::is_control`).
pub open spec fn control_char(c: char) -> bool {
    c < ' ' || ('\u{7f}' <= c && c <= '\u{9f}')
}

/// Calls `Span::styled_graphemes` of ratatui on the text and keeps each
/// grapheme's text; the result is named `drawn_graphemes`.  Its source
/// splits the text into extended grapheme clusters and leaves out those
/// that contain a control character.
#[verifier::external_body]
fn graphemes_of(text: &str) -> (r: Vec<String>)
    ensures
        strings_view(r@) == drawn_graphemes(text@),
        forall|i: int, k: int|
            0 <= i < r@.len() && 0 <= k < r@[i]@.len() ==> !control_char(#[trigger] r@[i]@[k]),
{
    let span = ratatui::text::Span::raw(text);
    span.styled_graphemes(ratatui::style::Style::default()).map(|g| g.symbol.to_string()).collect()
}

/// Calls `CellWidth::cell_width` of ratatui on a grapheme; the result is
/// named `cell_columns`.  Its source asserts, in debug builds, that a
/// one-byte text is not an ASCII control character, so those are not
/// admitted.
#[verifier::external_body]
fn cell_width_of(g: &str) -> (r: u16)
    requires
        !(g@.len() == 1 && control_char(g@[0])),
    ensures
        r == cell_columns(g@),
{
    ratatui::buffer::CellWidth::cell_width(g)
}

/// The state of wrapping the coloured graphemes of a line: the finished
/// rows, the row being filled and its width.
pub struct CellWrap {
    pub done: Seq<Seq<(Seq<char>, TextRole)>>,
    pub current: Seq<(Seq<char>, TextRole)>,
    pub used: nat,
}

/// One coloured grapheme placed: when it takes cells and would take the
/// row past the width, the row is finished first (even an empty one).
pub open spec fn cell_wrap_step(st: CellWrap, cell: (Seq<char>, TextRole), width: nat) -> CellWrap {
    let w = cell_columns(cell.0) as nat;
    let st1 = if w > 0 && st.used + w > width {
        CellWrap { done: st.done.push(st.current), current: Seq::empty(), used: 0 }
    } else {
        st
    };
    CellWrap { current: st1.current.push(cell), used: st1.used + w, ..st1 }
}

/// The coloured graphemes placed in order.
pub open spec fn cell_wrap(cells: Seq<(Seq<char>, TextRole)>, width: nat) -> CellWrap
    decreases cells.len(),
{
    if cells.len() == 0 {
        CellWrap { done: Seq::empty(), current: Seq::empty(), used: 0 }
    } else {
        cell_wrap_step(cell_wrap(cells.drop_last(), width), cells.last(), width)
    }
}

/// The rows of a coloured line: a line with nothing to draw stays one
/// empty row; otherwise the finished rows and the last one if not empty.
pub open spec fn wrap_cells_spec(cells: Seq<(Seq<char>, TextRole)>, width: nat) -> Seq<Seq<(Seq<char>, TextRole)>> {
    if cells.len() == 0 {
        seq![Seq::empty()]
    } else {
        let st = cell_wrap(cells, width);
        if st.current.len() > 0 {
            st.done.push(st.current)
        } else {
            st.done
        }
    }
}

/// The drawn graphemes of a token, each with the token's role.
pub open spec fn token_cells(t: (Seq<char>, TextRole)) -> Seq<(Seq<char>, TextRole)> {
    drawn_graphemes(t.0).map_values(|g: Seq<char>| (g, t.1))
}

/// The drawn graphemes of a coloured line, each with its role.
pub open spec fn line_cells(tokens: Seq<(Seq<char>, TextRole)>) -> Seq<(Seq<char>, TextRole)>
    decreases tokens.len(),
{
    if tokens.len() == 0 {
        Seq::empty()
    } else {
        line_cells(tokens.drop_last()) + token_cells(tokens.last())
    }
}

/// Coloured graphemes gathered into runs of one role.
pub open spec fn runs_spec(cells: Seq<(Seq<char>, TextRole)>) -> Seq<(Seq<char>, TextRole)>
    decreases cells.len(),
{
    if cells.len() == 0 {
        Seq::empty()
    } else {
        let g = runs_spec(cells.drop_last());
        let c = cells.last();
        if g.len() > 0 && g.last().1 == c.1 {
            g.update(g.len() - 1, (g.last().0 + c.0, c.1))
        } else {
            g.push(c)
        }
    }
}

/// The rows of one coloured line wrapped to `width` cells, each row made
/// of runs of one role.
pub open spec fn wrap_colored_line_spec(tokens: Seq<(Seq<char>, TextRole)>, width: nat) -> Seq<Seq<(Seq<char>, TextRole)>> {
    wrap_cells_spec(line_cells(tokens), width).map_values(|p: Seq<(Seq<char>, TextRole)>| runs_spec(p))
}

/// The rows of all the coloured lines, line after line; nothing for a
/// width of zero.
pub open spec fn wrap_colored_spec(lines: Seq<Seq<(Seq<char>, TextRole)>>, width: nat) -> Seq<Seq<(Seq<char>, TextRole)>>
    decreases lines.len(),
{
    if width == 0 || lines.len() == 0 {
        Seq::empty()
    } else {
        wrap_colored_spec(lines.drop_last(), width) + wrap_colored_line_spec(lines.last(), width)
    }
}

/// The view of coloured lines.
pub open spec fn colored_lines_view(ls: Seq<Vec<(String, TextRole)>>) -> Seq<Seq<(Seq<char>, TextRole)>> {
    ls.map_values(|l: Vec<(String, TextRole)>| tokens_view(l@))
}

/// The drawn graphemes of a line, each with its role; none holds a
/// control character.
fn cells_of(tokens: &Vec<(String, TextRole)>) -> (r: Vec<(String, TextRole)>)
    ensures
        tokens_view(r@) == line_cells(tokens_view(tokens@)),
        forall|i: int, k: int|
            0 <= i < r@.len() && 0 <= k < r@[i].0@.len() ==> !control_char(#[trigger] r@[i].0@[k]),
{
    let mut r: Vec<(String, TextRole)> = Vec::new();
    let mut i: usize = 0;
    while i < tokens.len()
        invariant
            i <= tokens@.len(),
            tokens_view(r@) == line_cells(tokens_view(tokens@.take(i as int))),
            forall|a: int, k: int|
                0 <= a < r@.len() && 0 <= k < r@[a].0@.len() ==> !control_char(#[trigger] r@[a].0@[k]),
        decreases tokens@.len() - i,
    {
        let gs = graphemes_of(tokens[i].0.as_str());
        let role = tokens[i].1;
        let ghost start = tokens_view(r@);
        let ghost gv = strings_view(gs@);
        let mut k: usize = 0;
        while k < gs.len()
            invariant
                k <= gs@.len(),
                gv == strings_view(gs@),
                tokens_view(r@) == start + gv.take(k as int).map_values(|g: Seq<char>| (g, role)),
                forall|i: int, k: int|
                    0 <= i < gs@.len() && 0 <= k < gs@[i]@.len() ==> !control_char(#[trigger] gs@[i]@[k]),
                forall|a: int, b: int|
                    0 <= a < r@.len() && 0 <= b < r@[a].0@.len() ==> !control_char(#[trigger] r@[a].0@[b]),
            decreases gs@.len() - k,
        {
            let ghost prev = r@;
            let g = gs[k].clone();
            r.push((g, role));
            k = k + 1;
            proof {
                assert(tokens_view(r@) =~= tokens_view(prev).push((gv[k - 1], role)));
                assert(gv.take(k as int).map_values(|g: Seq<char>| (g, role)) =~= gv.take(k - 1).map_values(
                    |g: Seq<char>| (g, role),
                ).push((gv[k - 1], role)));
                assert forall|a: int, b: int|
                    0 <= a < r@.len() && 0 <= b < r@[a].0@.len() implies !control_char(#[trigger] r@[a].0@[b]) by {
                    if a < prev.len() {
                        assert(r@[a] == prev[a]);
                    } else {
                        assert(r@[a].0@ == gs@[k - 1]@);
                    }
                }
            }
        }
        proof {
            let tv = tokens_view(tokens@.take(i as int + 1));
            assert(tv.drop_last() =~= tokens_view(tokens@.take(i as int)));
            assert(tv.last() == (tokens@[i as int].0@, role));
            assert(gv.take(k as int) =~= gv);
            assert(tokens_view(r@) =~= line_cells(tv));
        }
        i = i + 1;
    }
    assert(tokens@.take(i as int) =~= tokens@);
    r
}

/// The rows of a coloured line (see `wrap_cells_spec`).
fn wrap_cells(cells: &Vec<(String, TextRole)>, width: usize) -> (r: Vec<Vec<(String, TextRole)>>)
    requires
        width > 0,
        width <= u16::MAX,
        forall|i: int, k: int|
            0 <= i < cells@.len() && 0 <= k < cells@[i].0@.len() ==> !control_char(#[trigger] cells@[i].0@[k]),
    ensures
        colored_lines_view(r@) == wrap_cells_spec(tokens_view(cells@), width as nat),
{
    let ghost cv = tokens_view(cells@);
    let mut done: Vec<Vec<(String, TextRole)>> = Vec::new();
    if cells.len() == 0 {
        let empty: Vec<(String, TextRole)> = Vec::new();
        assert(tokens_view(empty@) =~= Seq::<(Seq<char>, TextRole)>::empty());
        done.push(empty);
        assert(cv.len() == 0);
        assert(colored_lines_view(done@) =~= wrap_cells_spec(cv, width as nat));
        return done;
    }
    let mut current: Vec<(String, TextRole)> = Vec::new();
    let mut used: usize = 0;
    let mut i: usize = 0;
    while i < cells.len()
        invariant
            i <= cells@.len(),
            cv == tokens_view(cells@),
            width <= u16::MAX,
            used <= width + 65535,
            forall|a: int, k: int|
                0 <= a < cells@.len() && 0 <= k < cells@[a].0@.len() ==> !control_char(#[trigger] cells@[a].0@[k]),
            ({
                let st = cell_wrap(cv.take(i as int), width as nat);
                &&& colored_lines_view(done@) == st.done
                &&& tokens_view(current@) == st.current
                &&& used == st.used
            }),
        decreases cells@.len() - i,
    {
        let g = &cells[i].0;
        let role = cells[i].1;
        proof {
            if g@.len() == 1 {
                assert(!control_char(cells@[i as int].0@[0]));
            }
        }
        let w = cell_width_of(g.as_str()) as usize;
        proof {
            assert(cv.take(i + 1).drop_last() =~= cv.take(i as int));
            assert(cv.take(i + 1).last() == (g@, role));
        }
        if w > 0 && used + w > width {
            let ghost old_done = done@;
            let ghost row = tokens_view(current@);
            done.push(current);
            proof {
                assert(colored_lines_view(done@) =~= colored_lines_view(old_done).push(row));
            }
            current = Vec::new();
            used = 0;
            assert(tokens_view(current@) =~= Seq::<(Seq<char>, TextRole)>::empty());
        }
        let ghost before = tokens_view(current@);
        current.push((g.clone(), role));
        proof {
            assert(tokens_view(current@) =~= before.push((g@, role)));
        }
        used = used + w;
        i = i + 1;
    }
    proof {
        assert(cv.take(i as int) =~= cv);
    }
    if current.len() > 0 {
        let ghost old_done = done@;
        let ghost row = tokens_view(current@);
        done.push(current);
        proof {
            assert(colored_lines_view(done@) =~= colored_lines_view(old_done).push(row));
        }
    }
    done
}

/// Coloured graphemes gathered into runs of one role (see `runs_spec`).
fn runs(row: &Vec<(String, TextRole)>) -> (r: Vec<(String, TextRole)>)
    ensures
        tokens_view(r@) == runs_spec(tokens_view(row@)),
{
    let ghost rv = tokens_view(row@);
    let mut out: Vec<(String, TextRole)> = Vec::new();
    if row.len() == 0 {
        assert(tokens_view(out@) =~= runs_spec(rv));
        return out;
    }
    let mut cur = row[0].0.clone();
    let mut role = row[0].1;
    proof {
        let one = rv.take(1);
        assert(one.drop_last() =~= Seq::<(Seq<char>, TextRole)>::empty());
        assert(runs_spec(one.drop_last()) =~= Seq::<(Seq<char>, TextRole)>::empty());
        assert(one.last() == rv[0]);
        assert(runs_spec(one) =~= seq![(cur@, role)]);
    }
    let mut i: usize = 1;
    while i < row.len()
        invariant
            1 <= i <= row@.len(),
            rv == tokens_view(row@),
            runs_spec(rv.take(i as int)) == tokens_view(out@).push((cur@, role)),
        decreases row@.len() - i,
    {
        let g = &row[i].0;
        let r = row[i].1;
        proof {
            assert(rv.take(i + 1).drop_last() =~= rv.take(i as int));
            assert(rv.take(i + 1).last() == (g@, r));
        }
        if r == role {
            push_str(&mut cur, g.as_str());
            proof {
                assert(runs_spec(rv.take(i + 1)) =~= tokens_view(out@).push((cur@, role)));
            }
        } else {
            let ghost prev = out@;
            let ghost done_run = (cur@, role);
            out.push((cur, role));
            proof {
                assert(tokens_view(out@) =~= tokens_view(prev).push(done_run));
            }
            cur = g.clone();
            role = r;
            proof {
                assert(runs_spec(rv.take(i + 1)) =~= tokens_view(out@).push((cur@, role)));
            }
        }
        i = i + 1;
    }
    let ghost prev = out@;
    let ghost last_run = (cur@, role);
    out.push((cur, role));
    proof {
        assert(rv.take(i as int) =~= rv);
        assert(tokens_view(out@) =~= tokens_view(prev).push(last_run));
    }
    out
}

/// Coloured lines wrapped to `width` terminal cells, grapheme by grapheme
/// as ratatui draws them: each line is wrapped on its own (see
/// `wrap_colored_line_spec`) and its rows follow the rows of the lines
/// before it; a width of zero gives no rows.
pub fn wrap_colored_lines(lines: &Vec<Vec<(String, TextRole)>>, width: u16) -> (r: Vec<Vec<(String, TextRole)>>)
    ensures
        colored_lines_view(r@) == wrap_colored_spec(colored_lines_view(lines@), width as nat),
{
    let mut r: Vec<Vec<(String, TextRole)>> = Vec::new();
    if width == 0 {
        assert(colored_lines_view(r@) =~= wrap_colored_spec(colored_lines_view(lines@), width as nat));
        return r;
    }
    let w = width as usize;
    let mut i: usize = 0;
    while i < lines.len()
        invariant
            i <= lines@.len(),
            w == width as usize,
            width > 0,
            colored_lines_view(r@) == wrap_colored_spec(colored_lines_view(lines@.take(i as int)), width as nat),
        decreases lines@.len() - i,
    {
        let cells = cells_of(&lines[i]);
        let rows = wrap_cells(&cells, w);
        let ghost start = colored_lines_view(r@);
        let ghost ps = colored_lines_view(rows@);
        let mut k: usize = 0;
        while k < rows.len()
            invariant
                k <= rows@.len(),
                ps == colored_lines_view(rows@),
                colored_lines_view(r@) == start + ps.take(k as int).map_values(
                    |p: Seq<(Seq<char>, TextRole)>| runs_spec(p),
                ),
            decreases rows@.len() - k,
        {
            let row = runs(&rows[k]);
            let ghost prev = r@;
            r.push(row);
            k = k + 1;
            proof {
                assert(colored_lines_view(r@) =~= colored_lines_view(prev).push(tokens_view(row@)));
                assert(ps.take(k as int).map_values(|p: Seq<(Seq<char>, TextRole)>| runs_spec(p)) =~= ps.take(
                    k - 1,
                ).map_values(|p: Seq<(Seq<char>, TextRole)>| runs_spec(p)).push(runs_spec(ps[k - 1])));
            }
        }
        proof {
            let lv = colored_lines_view(lines@.take(i as int + 1));
            assert(lv.drop_last() =~= colored_lines_view(lines@.take(i as int)));
            assert(lv.last() == tokens_view(lines@[i as int]@));
            assert(ps.take(k as int) =~= ps);
            assert(colored_lines_view(r@) =~= wrap_colored_spec(lv, width as nat));
        }
        i = i + 1;
    }
    assert(lines@.take(i as int) =~= lines@);
    r
}

} // verus!
