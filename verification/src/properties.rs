//! Properties of the library as a whole: what the bounded logs, the list
//! navigation, the focus cycle, the search filter, variable editing,
//! substitution, key assignment and line wrapping promise across calls.

use vstd::prelude::*;
use crate::api::{log_push, placeholder, substitute_spec, MAX_LOG_LINES};
use crate::app::{filter_indices, key_index, mask_spec, mask_word, merge_vars, upsert, AppMode, AppView, Focus, InputMode};
use crate::collection::binding_char;
use crate::layout::{wrap_chars, wrap_line_spec, WrapState};
use crate::text::{has_substring, is_prefix_of, lower_text, occurs_at, replace_spec};

verus! {

/// A bounded log never grows past its limit, and the line just pushed is
/// its last line.
pub proof fn lemma_log_push_bounded<T>(log: Seq<T>, line: T)
    requires
        log.len() <= MAX_LOG_LINES,
    ensures
        log_push(log, line).len() <= MAX_LOG_LINES,
        log_push(log, line).last() == line,
        log.len() < MAX_LOG_LINES ==> log_push(log, line) == log.push(line),
{
}

/// Moving down and then up a non-empty list of commands (or API entries)
/// comes back to the entry one started from, and so does moving up and
/// then down.
pub proof fn lemma_next_prev_round_trip(s: AppView)
    requires
        s.filtered.len() <= usize::MAX,
        s.filtered_apis.len() <= usize::MAX,
    ensures
        s.selected_command < s.filtered.len() ==> s.next_command().prev_command() == s
            && s.prev_command().next_command() == s,
        s.selected_api < s.filtered_apis.len() ==> s.next_api().prev_api() == s && s.prev_api().next_api() == s,
{
    if s.selected_command < s.filtered.len() {
        lemma_wrap_round_trip(s.selected_command, s.filtered.len());
    }
    if s.selected_api < s.filtered_apis.len() {
        lemma_wrap_round_trip(s.selected_api, s.filtered_apis.len());
    }
}

/// Moving down and then up the variables (or the processes, or the
/// requests) comes back to the selected one.
pub proof fn lemma_next_prev_lists(s: AppView)
    requires
        s.variables.len() <= usize::MAX,
        s.processes.len() <= usize::MAX,
        s.api_requests.len() <= usize::MAX,
    ensures
        (s.variable_selected matches Some(i) && i < s.variables.len()) ==> s.next_variable().prev_variable() == s,
        (s.process_selected matches Some(i) && i < s.processes.len() && s.log_follow) ==> s.next_process().prev_process()
            == s,
        (s.request_selected matches Some(i) && i < s.api_requests.len() && s.log_follow) ==> s.next_request().prev_request()
            == s,
{
    if let Some(i) = s.variable_selected {
        if i < s.variables.len() {
            lemma_wrap_round_trip(i, s.variables.len());
        }
    }
    if let Some(i) = s.process_selected {
        if i < s.processes.len() {
            lemma_wrap_round_trip(i, s.processes.len());
        }
    }
    if let Some(i) = s.request_selected {
        if i < s.api_requests.len() {
            lemma_wrap_round_trip(i, s.api_requests.len());
        }
    }
}

proof fn lemma_wrap_round_trip(i: usize, len: nat)
    requires
        i < len,
        len <= usize::MAX,
    ensures
        crate::app::wrap_prev(crate::app::wrap_next(i, len), len) == i,
        crate::app::wrap_next(crate::app::wrap_prev(i, len), len) == i,
{
    if i + 1 < len {
        vstd::arithmetic::div_mod::lemma_small_mod((i + 1) as nat, len);
    } else {
        vstd::arithmetic::div_mod::lemma_mod_self_0(len as int);
    }
    if i == 0 {
        vstd::arithmetic::div_mod::lemma_mod_self_0(len as int);
    } else {
        vstd::arithmetic::div_mod::lemma_small_mod(i as nat, len);
    }
}

/// The panes of a mode, in the order Tab visits them.
pub open spec fn panes_of(mode: AppMode) -> Seq<Focus> {
    if mode == AppMode::Api {
        seq![Focus::Commands, Focus::Variables, Focus::Processes, Focus::RequestBody, Focus::ResponseBody]
    } else {
        seq![Focus::Commands, Focus::Processes, Focus::Output]
    }
}

/// Tab then Shift+Tab (and Shift+Tab then Tab) come back to the pane one
/// started from; Tab moves to the next pane of the mode, and from the last
/// pane back to the first.
pub proof fn lemma_focus_round_trip(mode: AppMode, f: Focus)
    requires
        panes_of(mode).contains(f),
    ensures
        AppView::focus_step(mode, AppView::focus_step(mode, f, true), false) == f,
        AppView::focus_step(mode, AppView::focus_step(mode, f, false), true) == f,
        forall|i: int|
            0 <= i < panes_of(mode).len() - 1 ==> AppView::focus_step(mode, #[trigger] panes_of(mode)[i], true)
                == panes_of(mode)[i + 1],
        AppView::focus_step(mode, panes_of(mode).last(), true) == panes_of(mode)[0],
{
}

/// Tab pressed `n` times.
pub open spec fn tab_times(s: AppView, n: nat) -> AppView
    decreases n,
{
    if n == 0 {
        s
    } else {
        tab_times(s, (n - 1) as nat).cycle_focus(true)
    }
}

/// The pane reached from `f` by `n` steps forward.
pub open spec fn steps_forward(mode: AppMode, f: Focus, n: nat) -> Focus
    decreases n,
{
    if n == 0 {
        f
    } else {
        AppView::focus_step(mode, steps_forward(mode, f, (n - 1) as nat), true)
    }
}

/// A focus move changes the focus by one step and keeps the mode.
proof fn lemma_cycle_focus_moves(s: AppView, forward: bool)
    ensures
        s.cycle_focus(forward).focus == AppView::focus_step(s.app_mode, s.focus, forward),
        s.cycle_focus(forward).app_mode == s.app_mode,
        s.cycle_focus(forward).input_mode == InputMode::Normal,
        s.cycle_focus(forward).zoom is None,
{
}

proof fn lemma_steps_forward_ring(mode: AppMode, f: Focus)
    requires
        panes_of(mode).contains(f),
    ensures
        steps_forward(mode, f, panes_of(mode).len()) == f,
{
    reveal_with_fuel(steps_forward, 6);
    let p = panes_of(mode);
    let i = choose|i: int| 0 <= i < p.len() && p[i] == f;
    assert(p[i] == f);
}

proof fn lemma_tab_times_focus(s: AppView, n: nat)
    ensures
        tab_times(s, n).app_mode == s.app_mode,
        tab_times(s, n).focus == steps_forward(s.app_mode, s.focus, n),
    decreases n,
{
    if n > 0 {
        lemma_tab_times_focus(s, (n - 1) as nat);
        lemma_cycle_focus_moves(tab_times(s, (n - 1) as nat), true);
    }
}

/// Moving the focus with Tab or Shift+Tab leaves any dialog and zoom;
/// Tab then Shift+Tab (and the reverse) comes back to the pane one started
/// from, and pressing Tab once per pane of the mode (three in a runbook or
/// CWL tab, five in an API tab) comes back to it too.
pub proof fn lemma_cycle_focus_ring(s: AppView)
    requires
        panes_of(s.app_mode).contains(s.focus),
    ensures
        s.cycle_focus(true).input_mode == InputMode::Normal,
        s.cycle_focus(true).zoom is None,
        s.cycle_focus(false).input_mode == InputMode::Normal,
        s.cycle_focus(false).zoom is None,
        s.cycle_focus(true).cycle_focus(false).focus == s.focus,
        s.cycle_focus(false).cycle_focus(true).focus == s.focus,
        tab_times(s, panes_of(s.app_mode).len()).focus == s.focus,
{
    lemma_focus_round_trip(s.app_mode, s.focus);
    lemma_cycle_focus_moves(s, true);
    lemma_cycle_focus_moves(s, false);
    lemma_cycle_focus_moves(s.cycle_focus(true), false);
    lemma_cycle_focus_moves(s.cycle_focus(false), true);
    lemma_tab_times_focus(s, panes_of(s.app_mode).len());
    lemma_steps_forward_ring(s.app_mode, s.focus);
}

/// Pressing `m` twice restores the layout.
pub proof fn lemma_zoom_twice(s: AppView)
    requires
        s.zoom is None || s.zoom == Some(s.focus),
    ensures
        s.toggle_zoom().toggle_zoom() == s,
{
}

/// The search keeps exactly the entries whose lower-cased title contains
/// the query, in their order: an index is kept if and only if its title
/// matches, and the kept indices increase.
pub proof fn lemma_filter_exact(titles: Seq<Seq<char>>, q: Seq<char>, n: int)
    requires
        0 <= n <= titles.len(),
        n <= usize::MAX + 1,
    ensures
        forall|i: int| #![trigger titles[i]] 0 <= i < n ==> (filter_indices(titles, q, n).contains(i as usize)
            <==> has_substring(lower_text(titles[i]), q)),
        forall|j: int| 0 <= j < filter_indices(titles, q, n).len() ==> #[trigger] filter_indices(titles, q, n)[j] < n,
        forall|a: int, b: int|
            0 <= a < b < filter_indices(titles, q, n).len() ==> #[trigger] filter_indices(titles, q, n)[a]
                < #[trigger] filter_indices(titles, q, n)[b],
    decreases n,
{
    if n > 0 {
        lemma_filter_exact(titles, q, n - 1);
        let a = filter_indices(titles, q, n - 1);
        let r = filter_indices(titles, q, n);
        let m = has_substring(lower_text(titles[n - 1]), q);
        if m {
            assert(r == a.push((n - 1) as usize));
        } else {
            assert(r =~= a);
        }
        assert forall|i: int| #![trigger titles[i]] 0 <= i < n implies (r.contains(i as usize) <==> has_substring(
            lower_text(titles[i]),
            q,
        )) by {
            if i < n - 1 {
                if r.contains(i as usize) {
                    let k = choose|k: int| 0 <= k < r.len() && r[k] == i as usize;
                    if k < a.len() {
                        assert(a[k] == r[k]);
                        assert(a.contains(i as usize));
                    }
                }
                if a.contains(i as usize) {
                    let k = choose|k: int| 0 <= k < a.len() && a[k] == i as usize;
                    assert(r[k] == a[k]);
                }
            } else {
                if m {
                    assert(r[r.len() - 1] == i as usize);
                } else if r.contains(i as usize) {
                    let k = choose|k: int| 0 <= k < r.len() && r[k] == i as usize;
                    assert(a[k] < n - 1);
                }
            }
        }
    }
}

/// Starting to edit the selected variable and confirming without typing
/// leaves the variables as they were; cancelling an edit never changes
/// them.
pub proof fn lemma_edit_round_trip(s: AppView)
    requires
        s.variable_selected matches Some(i) && i < s.variables.len(),
    ensures
        s.start_variable_edit().confirm_variable_edit().variables == s.variables,
        s.cancel_variable_edit().variables == s.variables,
{
    let t = s.start_variable_edit();
    if let Some(i) = s.variable_selected {
        if i < s.variables.len() {
            assert(t.variables.update(i as int, (t.variables[i as int].0, t.variable_edit_value)) =~= s.variables);
        }
    }
}

/// With no pattern in the text, replacing it changes nothing.
pub proof fn lemma_replace_absent(s: Seq<char>, pat: Seq<char>, to: Seq<char>)
    requires
        pat.len() > 0,
        !has_substring(s, pat),
    ensures
        replace_spec(s, pat, to) == s,
    decreases s.len(),
{
    if s.len() > 0 {
        assert(!occurs_at(s, pat, 0));
        assert(!is_prefix_of(pat, s));
        let t = s.drop_first();
        assert(!has_substring(t, pat)) by {
            if has_substring(t, pat) {
                let i = choose|i: int| occurs_at(t, pat, i);
                assert(s.subrange(i + 1, i + 1 + pat.len()) =~= t.subrange(i, i + pat.len()));
                assert(occurs_at(s, pat, i + 1));
            }
        }
        lemma_replace_absent(t, pat, to);
        assert(seq![s[0]] + t =~= s);
    }
}

/// A text without any variable's placeholder is left unchanged by
/// substitution.
pub proof fn lemma_substitute_absent(text: Seq<char>, vars: Seq<(Seq<char>, Seq<char>)>)
    requires
        forall|i: int| 0 <= i < vars.len() ==> !has_substring(text, placeholder(#[trigger] vars[i].0)),
    ensures
        substitute_spec(text, vars) == text,
    decreases vars.len(),
{
    if vars.len() > 0 {
        let d = vars.drop_last();
        assert forall|i: int| 0 <= i < d.len() implies !has_substring(text, placeholder(#[trigger] d[i].0)) by {
            assert(d[i] == vars[i]);
        }
        lemma_substitute_absent(text, d);
        assert(!has_substring(text, placeholder(vars[vars.len() - 1].0)));
        lemma_replace_absent(text, placeholder(vars.last().0), vars.last().1);
    }
}

/// The first 62 entries get 62 different keys.
pub proof fn lemma_bindings_distinct(i: int, j: int)
    requires
        0 <= i < 62,
        0 <= j < 62,
        i != j,
    ensures
        binding_char(i) != binding_char(j),
{
}

/// The pieces put together.
pub open spec fn joined(ps: Seq<Seq<char>>) -> Seq<char>
    decreases ps.len(),
{
    if ps.len() == 0 {
        Seq::empty()
    } else {
        joined(ps.drop_last()) + ps.last()
    }
}

proof fn lemma_wrap_chars_joined(cs: Seq<char>, width: nat)
    ensures
        joined(wrap_chars(cs, width).done) + wrap_chars(cs, width).current == cs,
    decreases cs.len(),
{
    if cs.len() > 0 {
        let d = cs.drop_last();
        lemma_wrap_chars_joined(d, width);
        let st = wrap_chars(d, width);
        let c = cs.last();
        let w = crate::layout::columns(c);
        if st.used + w > width && st.current.len() > 0 {
            let done2 = st.done.push(st.current);
            assert(done2.drop_last() =~= st.done);
            assert(joined(done2) == joined(st.done) + st.current);
            assert(cs =~= d.push(c));
            assert(joined(done2) + seq![c] =~= cs);
        } else {
            assert(cs =~= d.push(c));
            assert(joined(st.done) + st.current.push(c) =~= cs);
        }
    }
}

/// Wrapping loses nothing: the pieces of a line put together are the line.
pub proof fn lemma_wrap_line_joined(line: Seq<char>, width: nat)
    ensures
        joined(wrap_line_spec(line, width)) == line,
{
    if line.len() == 0 {
        reveal_with_fuel(joined, 2);
        assert(seq![Seq::<char>::empty()].drop_last() =~= Seq::<Seq<char>>::empty());
        assert(joined(seq![Seq::<char>::empty()]) =~= line);
    } else {
        lemma_wrap_chars_joined(line, width);
        let st = wrap_chars(line, width);
        if st.current.len() > 0 {
            assert(st.done.push(st.current).drop_last() =~= st.done);
        } else {
            assert(joined(st.done) + st.current =~= joined(st.done));
        }
    }
}

/// Keys that are not presses change nothing, and Control+C always quits.
pub proof fn lemma_key_presses(s: AppView, key: crate::keybinding::KeyInput)
    ensures
        key.kind != crate::keybinding::KeyEventKind::Press ==> s.handle_key(key).0 == s,
        (key.kind == crate::keybinding::KeyEventKind::Press && key.code == crate::keybinding::KeyCode::Char('c')
            && key.control) ==> s.handle_key(key).0.quit,
{
    reveal(AppView::handle_key);
}

/// Every entry of a Postman item carries the collection's variables.
pub proof fn lemma_extract_carries_variables(
    prefix: Seq<char>,
    item: crate::collection::PostmanItem,
    vars: Seq<(Seq<char>, Seq<char>)>,
)
    ensures
        forall|i: int|
            0 <= i < crate::collection::extract_spec(prefix, item, vars).len() ==> (#[trigger] crate::collection::extract_spec(
                prefix,
                item,
                vars,
            )[i]).variables == vars,
    decreases item,
{
    let name = crate::collection::item_name(prefix, item.name@);
    if item.item@.len() > 0 {
        lemma_extract_all_carries_variables(name, item.item@, vars);
    }
}

/// Every entry of a list of Postman items carries the collection's
/// variables.
pub proof fn lemma_extract_all_carries_variables(
    prefix: Seq<char>,
    items: Seq<crate::collection::PostmanItem>,
    vars: Seq<(Seq<char>, Seq<char>)>,
)
    ensures
        forall|i: int|
            0 <= i < crate::collection::extract_all(prefix, items, vars).len() ==> (
            #[trigger] crate::collection::extract_all(prefix, items, vars)[i]).variables == vars,
    decreases items,
{
    if items.len() > 0 {
        lemma_extract_all_carries_variables(prefix, items.drop_last(), vars);
        lemma_extract_carries_variables(prefix, items.last(), vars);
        let a = crate::collection::extract_all(prefix, items.drop_last(), vars);
        let b = crate::collection::extract_spec(prefix, items.last(), vars);
        assert forall|i: int| 0 <= i < (a + b).len() implies (#[trigger] (a + b)[i]).variables == vars by {
            if i < a.len() {
                assert((a + b)[i] == a[i]);
            } else {
                assert((a + b)[i] == b[i - a.len()]);
            }
        }
    }
}

/// The directories (and the files) of the import dialog are listed in
/// order of their lower-cased names, and none is lost or added.
pub proof fn lemma_sorted_entries(s: Seq<crate::app::ImportEntryView>)
    ensures
        crate::browse::keys_sorted(crate::browse::sort_entries(s)),
        crate::browse::sort_entries(s).len() == s.len(),
        crate::browse::sort_entries(s).to_multiset() == s.to_multiset(),
    decreases s.len(),
{
    if s.len() > 0 {
        let d = s.drop_last();
        lemma_sorted_entries(d);
        let t = crate::browse::sort_entries(d);
        let x = s.last();
        let k = crate::browse::sort_key(x);
        let p = crate::browse::count_not_after(t, k);
        crate::browse::lemma_count_prefix(t, k);
        let u = t.insert(p as int, x);
        assert forall|a: int, b: int| 0 <= a < b < u.len() implies crate::browse::key_le(
            crate::browse::sort_key(#[trigger] u[a]),
            crate::browse::sort_key(#[trigger] u[b]),
        ) by {
            if b == p {
                assert(u[a] == t[a]);
            } else if a == p {
                assert(u[b] == t[b - 1]);
                crate::ordered::lemma_seq_less_total(crate::browse::sort_key(t[b - 1]), k);
            } else if a < p && b > p {
                assert(u[a] == t[a]);
                assert(u[b] == t[b - 1]);
                crate::ordered::lemma_seq_less_total(crate::browse::sort_key(t[b - 1]), k);
                crate::browse::lemma_key_le_transitive(crate::browse::sort_key(t[a]), k, crate::browse::sort_key(t[b - 1]));
            } else if b < p {
                assert(u[a] == t[a]);
                assert(u[b] == t[b]);
            } else {
                assert(u[a] == t[a - 1]);
                assert(u[b] == t[b - 1]);
            }
        }
        vstd::seq_lib::to_multiset_insert(t, p as int, x);
        assert(s =~= d.push(x));
        vstd::seq_lib::to_multiset_build(d, x);
        assert(crate::browse::sort_entries(s) == u);
        assert(u.to_multiset() =~= s.to_multiset());
    } else {
        assert(s =~= Seq::<crate::app::ImportEntryView>::empty());
    }
}

/// Masking the request log leaves a text unchanged when no secret
/// variable's value occurs in it; in particular the values of variables
/// that are not secret are never masked.
pub proof fn lemma_mask_leaves_other_text(text: Seq<char>, vars: Seq<(Seq<char>, Seq<char>)>, secrets: Seq<Seq<char>>)
    requires
        forall|i: int| 0 <= i < vars.len() && secrets.contains(#[trigger] vars[i].0) ==> !has_substring(text, vars[i].1),
    ensures
        mask_spec(text, vars, secrets) == text,
    decreases vars.len(),
{
    if vars.len() > 0 {
        let rest = vars.drop_last();
        assert forall|i: int| 0 <= i < rest.len() && secrets.contains(#[trigger] rest[i].0) implies !has_substring(
            text,
            rest[i].1,
        ) by {
            assert(rest[i] == vars[i]);
        }
        lemma_mask_leaves_other_text(text, rest, secrets);
        let last = vars.last();
        if secrets.contains(last.0) {
            assert(vars[vars.len() - 1] == last);
            assert(!has_substring(text, last.1));
            if last.1.len() == 0 {
                assert(text.subrange(0, 0) =~= last.1);
                assert(occurs_at(text, last.1, 0));
            }
            lemma_replace_absent(text, last.1, mask_word());
        }
    }
}

/// `key_index` finds the first pair with the key, or the length when no
/// pair has it.
proof fn lemma_key_index(m: Seq<(Seq<char>, Seq<char>)>, k: Seq<char>)
    ensures
        0 <= key_index(m, k) <= m.len(),
        key_index(m, k) < m.len() ==> m[key_index(m, k)].0 == k,
        forall|j: int| 0 <= j < key_index(m, k) ==> (#[trigger] m[j]).0 != k,
    decreases m.len(),
{
    if m.len() > 0 && m[0].0 != k {
        lemma_key_index(m.drop_first(), k);
        assert forall|j: int| 0 <= j < key_index(m, k) implies (#[trigger] m[j]).0 != k by {
            if j > 0 {
                assert(m[j] == m.drop_first()[j - 1]);
            }
        }
    }
}

/// A position that holds the first pair with the key, or the length when no
/// pair has it, is `key_index`.
proof fn lemma_key_index_unique(m: Seq<(Seq<char>, Seq<char>)>, k: Seq<char>, i: int)
    requires
        0 <= i <= m.len(),
        i < m.len() ==> m[i].0 == k,
        forall|j: int| 0 <= j < i ==> (#[trigger] m[j]).0 != k,
    ensures
        key_index(m, k) == i,
{
    lemma_key_index(m, k);
    let ki = key_index(m, k);
    if ki < i {
        assert(m[ki].0 != k);
    } else if i < ki {
        assert(m[i].0 != k);
    }
}

/// Setting a pair makes its key find the new pair, and every other key
/// finds what it found before.
proof fn lemma_upsert_lookup(m: Seq<(Seq<char>, Seq<char>)>, kv: (Seq<char>, Seq<char>), k: Seq<char>)
    ensures
        key_index(upsert(m, kv), kv.0) < upsert(m, kv).len(),
        upsert(m, kv)[key_index(upsert(m, kv), kv.0)] == kv,
        k != kv.0 && key_index(m, k) < m.len() ==> key_index(upsert(m, kv), k) == key_index(m, k)
            && upsert(m, kv)[key_index(m, k)] == m[key_index(m, k)],
{
    lemma_key_index(m, kv.0);
    lemma_key_index(m, k);
    let i = key_index(m, kv.0);
    let u = upsert(m, kv);
    if i < m.len() {
        assert forall|j: int| 0 <= j < i implies (#[trigger] u[j]).0 != kv.0 by {
            assert(u[j] == m[j]);
        }
        lemma_key_index_unique(u, kv.0, i);
        if k != kv.0 && key_index(m, k) < m.len() {
            let ik = key_index(m, k);
            assert(ik != i);
            assert forall|j: int| 0 <= j < ik implies (#[trigger] u[j]).0 != k by {
                if j != i {
                    assert(u[j] == m[j]);
                }
            }
            lemma_key_index_unique(u, k, ik);
        }
    } else {
        assert forall|j: int| 0 <= j < m.len() implies (#[trigger] u[j]).0 != kv.0 by {
            assert(u[j] == m[j]);
        }
        lemma_key_index_unique(u, kv.0, m.len() as int);
        if k != kv.0 && key_index(m, k) < m.len() {
            let ik = key_index(m, k);
            assert forall|j: int| 0 <= j < ik implies (#[trigger] u[j]).0 != k by {
                assert(u[j] == m[j]);
            }
            lemma_key_index_unique(u, k, ik);
        }
    }
}

/// The pair at `j` is the last one of `over` with its key.
pub open spec fn last_of_key(over: Seq<(Seq<char>, Seq<char>)>, j: int) -> bool {
    &&& 0 <= j < over.len()
    &&& forall|l: int| j < l < over.len() ==> (#[trigger] over[l]).0 != over[j].0
}

/// Merging `over` into `base`: a key of `over` finds the pair that `over`
/// gives it last, and a key of `base` that `over` does not mention keeps
/// its value.
pub proof fn lemma_merge_vars_lookup(base: Seq<(Seq<char>, Seq<char>)>, over: Seq<(Seq<char>, Seq<char>)>)
    ensures
        forall|j: int| #[trigger] last_of_key(over, j) ==> {
            let m = merge_vars(base, over);
            &&& key_index(m, over[j].0) < m.len()
            &&& m[key_index(m, over[j].0)] == over[j]
        },
        forall|k: Seq<char>| #![trigger key_index(base, k)]
            key_index(base, k) < base.len() && (forall|l: int| 0 <= l < over.len() ==> (#[trigger] over[l]).0 != k)
                ==> {
                let m = merge_vars(base, over);
                &&& key_index(m, k) < m.len()
                &&& m[key_index(m, k)] == base[key_index(base, k)]
            },
    decreases over.len(),
{
    if over.len() > 0 {
        let rest = over.drop_last();
        let kv = over.last();
        let m0 = merge_vars(base, rest);
        lemma_merge_vars_lookup(base, rest);
        assert forall|j: int| #[trigger] last_of_key(over, j) implies {
            let m = merge_vars(base, over);
            &&& key_index(m, over[j].0) < m.len()
            &&& m[key_index(m, over[j].0)] == over[j]
        } by {
            if j == over.len() - 1 {
                lemma_upsert_lookup(m0, kv, kv.0);
            } else {
                assert(last_of_key(rest, j)) by {
                    assert forall|l: int| j < l < rest.len() implies (#[trigger] rest[l]).0 != rest[j].0 by {
                        assert(rest[l] == over[l]);
                        assert(over[l].0 != over[j].0);
                    }
                }
                assert(rest[j] == over[j]);
                assert(over[over.len() - 1].0 != over[j].0);
                lemma_upsert_lookup(m0, kv, over[j].0);
            }
        }
        assert forall|k: Seq<char>| #![trigger key_index(base, k)]
            key_index(base, k) < base.len() && (forall|l: int| 0 <= l < over.len() ==> (#[trigger] over[l]).0 != k)
                implies {
                let m = merge_vars(base, over);
                &&& key_index(m, k) < m.len()
                &&& m[key_index(m, k)] == base[key_index(base, k)]
            } by {
            assert forall|l: int| 0 <= l < rest.len() implies (#[trigger] rest[l]).0 != k by {
                assert(rest[l] == over[l]);
            }
            assert(over[over.len() - 1].0 != k);
            lemma_upsert_lookup(m0, kv, k);
        }
    }
}

/// Selecting an environment (with the process-environment overlay off)
/// puts every key of the environment among the variables in effect, with
/// the value the environment gives it last, and keeps the value of every
/// collection variable the environment does not mention.
pub proof fn lemma_environment_in_effect(s: AppView, i: usize)
    requires
        i < s.environments.len(),
        !s.env_overlay,
    ensures
        forall|j: int| #[trigger] last_of_key(s.environments[i as int].1, j) ==> {
            let v = s.set_environment(Some(i)).variables;
            let e = s.environments[i as int].1;
            &&& key_index(v, e[j].0) < v.len()
            &&& v[key_index(v, e[j].0)] == e[j]
        },
        forall|k: Seq<char>| #![trigger key_index(s.collection_variables, k)]
            key_index(s.collection_variables, k) < s.collection_variables.len() && (forall|l: int|
                0 <= l < s.environments[i as int].1.len() ==> (#[trigger] s.environments[i as int].1[l]).0 != k)
                ==> {
                let v = s.set_environment(Some(i)).variables;
                &&& key_index(v, k) < v.len()
                &&& v[key_index(v, k)] == s.collection_variables[key_index(s.collection_variables, k)]
            },
{
    reveal(AppView::set_environment);
    reveal(AppView::recompute_variables);
    lemma_merge_vars_lookup(s.collection_variables, s.environments[i as int].1);
    assert(s.set_environment(Some(i)).variables == merge_vars(s.collection_variables, s.environments[i as int].1));
}

} // verus!
