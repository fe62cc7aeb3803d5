//! Common Workflow Language documents: recognising them, their titles and
//! summaries, the inputs they list, and the text outline of a document
//! (a workflow's inputs, steps and outputs, or a tool's inputs and outputs).
//!
//! A document is held here as the plain values that these functions read:
//! its class, id and version, the ids of its inputs and outputs, and for a
//! workflow its steps with their sources, scatter keys and conditions.

use vstd::prelude::*;
use crate::api::strings_view;
use crate::app::{App, AppMode};
use crate::config::{Command, CommandView};
use crate::setup::fresh_view;
use crate::keybinding::KeyBinding;
use crate::text::{concat_all, has_substring, join_strings, join_with, push_str, str_contains, to_string};

verus! {

// ----------------------------------------------------------------------------
// The document model
// ----------------------------------------------------------------------------

/// The four top-level classes of a CWL document.
#[derive(Debug, Clone, Copy, PartialEq, Eq, Structural)]
pub enum CwlClass {
    CommandLineTool,
    ExpressionTool,
    Operation,
    Workflow,
}

/// The class, id and `cwlVersion` of a document.
#[derive(Debug, Clone)]
pub struct CwlHeader {
    pub class: CwlClass,
    pub id: Option<String>,
    pub version: Option<String>,
}

/// An input parameter: its id and its type, written out as text.
#[derive(Debug, Clone)]
pub struct CwlInput {
    pub id: Option<String>,
    pub type_text: String,
}

/// An output parameter: its id and, for a workflow output, the step
/// outputs it is taken from.
#[derive(Debug, Clone)]
pub struct CwlOutput {
    pub id: Option<String>,
    pub source: Option<Vec<String>>,
}

/// What a workflow step runs: a document given by path, or one written
/// inline (of which the outline shows the title and summary).
#[derive(Debug, Clone)]
pub enum CwlRun {
    Path(String),
    Document(CwlHeader),
}

/// An input of a workflow step and the sources it is connected to.
#[derive(Debug, Clone)]
pub struct CwlStepInput {
    pub id: Option<String>,
    pub source: Option<Vec<String>>,
}

/// A workflow step: its id, what it runs, the inputs it scatters over, its
/// `when` condition, its inputs and the ids of its outputs.
#[derive(Debug, Clone)]
pub struct CwlStep {
    pub id: Option<String>,
    pub run: CwlRun,
    pub scatter: Option<Vec<String>>,
    pub when: Option<String>,
    pub inputs: Vec<CwlStepInput>,
    pub outputs: Vec<String>,
}

/// A CWL document.  Tools have no steps and their outputs no sources.
#[derive(Debug, Clone)]
pub struct CwlDocument {
    pub header: CwlHeader,
    pub inputs: Vec<CwlInput>,
    pub outputs: Vec<CwlOutput>,
    pub steps: Vec<CwlStep>,
}

// ----------------------------------------------------------------------------
// Specifications
// ----------------------------------------------------------------------------

/// The text of `o`, or `d` when there is none.
pub open spec fn text_or(o: Option<String>, d: Seq<char>) -> Seq<char> {
    match o {
        Some(s) => s@,
        None => d,
    }
}

/// The name of a class.
pub open spec fn class_name(c: CwlClass) -> Seq<char> {
    match c {
        CwlClass::CommandLineTool => "CommandLineTool"@,
        CwlClass::ExpressionTool => "ExpressionTool"@,
        CwlClass::Operation => "Operation"@,
        CwlClass::Workflow => "Workflow"@,
    }
}

/// The title of a document: the id of a tool or workflow (else the class
/// name); expression tools and operations are titled by their class.
pub open spec fn title_spec(h: CwlHeader) -> Seq<char> {
    match h.class {
        CwlClass::CommandLineTool => text_or(h.id, "CommandLineTool"@),
        CwlClass::Workflow => text_or(h.id, "Workflow"@),
        CwlClass::ExpressionTool => "ExpressionTool"@,
        CwlClass::Operation => "Operation"@,
    }
}

/// The version of a document, `unknown` when it states none.
pub open spec fn version_spec(h: CwlHeader) -> Seq<char> {
    text_or(h.version, "unknown"@)
}

/// The summary of a document: `<class> (<version>)`.
pub open spec fn summary_spec(h: CwlHeader) -> Seq<char> {
    class_name(h.class) + " ("@ + version_spec(h) + ")"@
}

/// The input parameters as `(id, type)` pairs, as `cwl_inputs` lists them
/// for tools and workflows (a missing id is empty).
pub open spec fn input_pairs(inputs: Seq<CwlInput>) -> Seq<(Seq<char>, Seq<char>)> {
    inputs.map_values(|i: CwlInput| (text_or(i.id, Seq::empty()), i.type_text@))
}

/// What `cwl_inputs` lists: the inputs of a command-line tool or a
/// workflow; nothing for the other classes.
pub open spec fn inputs_spec(doc: CwlDocument) -> Seq<(Seq<char>, Seq<char>)> {
    match doc.header.class {
        CwlClass::CommandLineTool | CwlClass::Workflow => input_pairs(doc.inputs@),
        _ => Seq::empty(),
    }
}

/// One listed id: `  <id>` (`?` when missing) and a line break.
pub open spec fn id_line_spec(o: Option<String>) -> Seq<char> {
    "  "@ + text_or(o, "?"@) + "\n"@
}

/// Source ids joined with commas; nothing when there are none.
pub open spec fn sources_spec(o: Option<Vec<String>>) -> Seq<char> {
    match o {
        Some(v) => join_with(strings_view(v@), ", "@),
        None => Seq::empty(),
    }
}

/// What a step runs: the path, or the inline document's title and summary.
pub open spec fn run_spec(r: CwlRun) -> Seq<char> {
    match r {
        CwlRun::Path(p) => p@,
        CwlRun::Document(h) => title_spec(h) + " ("@ + summary_spec(h) + ")"@,
    }
}

/// The scatter note of a step: ` [scatter: <keys>]` when it scatters.
pub open spec fn scatter_spec(o: Option<Vec<String>>) -> Seq<char> {
    match o {
        Some(v) => " [scatter: "@ + join_with(strings_view(v@), ", "@) + "]"@,
        None => Seq::empty(),
    }
}

/// The condition note of a step: ` [when: <expr>]` when it has one.
pub open spec fn when_spec(o: Option<String>) -> Seq<char> {
    match o {
        Some(w) => " [when: "@ + w@ + "]"@,
        None => Seq::empty(),
    }
}

/// A step input line: `      <id> \u{2190} <sources>`.
pub open spec fn step_input_line_spec(i: CwlStepInput) -> Seq<char> {
    "      "@ + text_or(i.id, "?"@) + " \u{2190} "@ + sources_spec(i.source) + "\n"@
}

/// A workflow output line: `  <id> \u{2190} <sources>`.
pub open spec fn output_line_spec(o: CwlOutput) -> Seq<char> {
    "  "@ + text_or(o.id, "?"@) + " \u{2190} "@ + sources_spec(o.source) + "\n"@
}

/// The id lines of input parameters.
pub open spec fn input_id_lines(s: Seq<CwlInput>) -> Seq<Seq<char>> {
    s.map_values(|i: CwlInput| id_line_spec(i.id))
}

/// The id lines of output parameters.
pub open spec fn output_id_lines(s: Seq<CwlOutput>) -> Seq<Seq<char>> {
    s.map_values(|o: CwlOutput| id_line_spec(o.id))
}

/// The source lines of workflow outputs.
pub open spec fn output_source_lines(s: Seq<CwlOutput>) -> Seq<Seq<char>> {
    s.map_values(|o: CwlOutput| output_line_spec(o))
}

/// The lines of the inputs of a step.
pub open spec fn step_input_lines(s: Seq<CwlStepInput>) -> Seq<Seq<char>> {
    s.map_values(|i: CwlStepInput| step_input_line_spec(i))
}

/// The outline of one step: its head line (id, what it runs, scatter and
/// condition), then its inputs under `in:` and its outputs after `out:`,
/// each part only when there is something to list.
pub open spec fn step_spec(s: CwlStep) -> Seq<char> {
    "  "@ + text_or(s.id, "?"@) + " ("@ + run_spec(s.run) + ")"@ + scatter_spec(s.scatter)
        + when_spec(s.when) + "\n"@
        + (if s.inputs@.len() > 0 {
        "    in:\n"@ + concat_all(step_input_lines(s.inputs@))
    } else {
        Seq::empty()
    }) + (if s.outputs@.len() > 0 {
        "    out: "@ + join_with(strings_view(s.outputs@), ", "@) + "\n"@
    } else {
        Seq::empty()
    })
}

/// The outlines of the steps of a workflow.
pub open spec fn step_texts(s: Seq<CwlStep>) -> Seq<Seq<char>> {
    s.map_values(|st: CwlStep| step_spec(st))
}

/// The outline of a workflow: its head line, its inputs, its steps and,
/// when it has any, its outputs with their sources.
pub open spec fn workflow_spec(doc: CwlDocument, version: Seq<char>) -> Seq<char> {
    "Workflow: "@ + text_or(doc.header.id, "unnamed"@) + " ("@ + version + ")\n"@
        + "\nWorkflow inputs:\n"@ + concat_all(input_id_lines(doc.inputs@))
        + "\nSteps:\n"@ + concat_all(step_texts(doc.steps@))
        + (if doc.outputs@.len() > 0 {
        "\nWorkflow outputs:\n"@ + concat_all(output_source_lines(doc.outputs@))
    } else {
        Seq::empty()
    })
}

/// The outline of a tool of the class named `label`: its head line, its
/// inputs and its outputs.
pub open spec fn tool_spec(label: Seq<char>, doc: CwlDocument, version: Seq<char>) -> Seq<char> {
    label + ": "@ + text_or(doc.header.id, "unnamed"@) + " ("@ + version + ")\n"@
        + "\nInputs:\n"@ + concat_all(input_id_lines(doc.inputs@))
        + "\nOutputs:\n"@ + concat_all(output_id_lines(doc.outputs@))
}

/// The outline of a document, by its class.
pub open spec fn graph_spec(doc: CwlDocument) -> Seq<char> {
    let v = version_spec(doc.header);
    match doc.header.class {
        CwlClass::Workflow => workflow_spec(doc, v),
        CwlClass::CommandLineTool => tool_spec("CommandLineTool"@, doc, v),
        CwlClass::ExpressionTool => tool_spec("ExpressionTool"@, doc, v),
        CwlClass::Operation => tool_spec("Operation"@, doc, v),
    }
}

/// Appending one more part to a prefix of the parts appends its text.
pub proof fn lemma_concat_all_step(parts: Seq<Seq<char>>, i: int)
    requires
        0 <= i < parts.len(),
    ensures
        concat_all(parts.take(i + 1)) == concat_all(parts.take(i)) + parts[i],
{
    assert(parts.take(i + 1).drop_last() =~= parts.take(i));
}

/// Whether `cwl_core::from_str` accepts `content` as a CWL document.
pub uninterp spec fn cwl_document_parses(content: Seq<char>) -> bool;

/// Whether `content` is recognised as CWL: it mentions `cwlVersion`, is
/// not a packed document (one that mentions `$graph`), and parses as a CWL
/// document.
pub open spec fn detect_spec(content: Seq<char>) -> bool {
    has_substring(content, "cwlVersion"@) && !has_substring(content, "$graph"@)
        && cwl_document_parses(content)
}

// ----------------------------------------------------------------------------
// Trusted items
// ----------------------------------------------------------------------------

/// Calls `cwl_core::from_str`, which parses and validates a CWL document
/// from YAML text, and tells whether it returned `Ok`; that outcome is
/// named `cwl_document_parses`.  A text that mentions `$graph` is unpacked
/// as a packed document, and the unpacking unwraps ids that the format
/// leaves optional (a step without an id aborts it), so such texts are not
/// admitted.
#[verifier::external_body]
fn cwl_parses(content: &str) -> (b: bool)
    requires
        !has_substring(content@, "$graph"@),
    ensures
        b == cwl_document_parses(content@),
{
    cwl_core::from_str(content).is_ok()
}

// ----------------------------------------------------------------------------
// Titles, summaries and inputs
// ----------------------------------------------------------------------------

/// The text of `o`, or `d` when there is none.
fn text_or_default(o: &Option<String>, d: &str) -> (r: String)
    ensures
        r@ == text_or(*o, d@),
{
    match o {
        Some(s) => to_string(s.as_str()),
        None => to_string(d),
    }
}

/// Whether the text of a file is a CWL document: it must mention
/// `cwlVersion` and parse as one.  Packed documents (those that mention
/// `$graph`) are not recognised: their parsing can abort on a step or
/// entity without an id.
pub fn detect_cwl(content: &str) -> (b: bool)
    ensures
        b == detect_spec(content@),
{
    if !str_contains(content, "cwlVersion") {
        return false;
    }
    if str_contains(content, "$graph") {
        return false;
    }
    cwl_parses(content)
}

/// The name of a class.
pub fn class_label(c: CwlClass) -> (r: String)
    ensures
        r@ == class_name(c),
{
    match c {
        CwlClass::CommandLineTool => to_string("CommandLineTool"),
        CwlClass::ExpressionTool => to_string("ExpressionTool"),
        CwlClass::Operation => to_string("Operation"),
        CwlClass::Workflow => to_string("Workflow"),
    }
}

/// The title of a document (see `title_spec`).
pub fn cwl_title(h: &CwlHeader) -> (r: String)
    ensures
        r@ == title_spec(*h),
{
    match h.class {
        CwlClass::CommandLineTool => text_or_default(&h.id, "CommandLineTool"),
        CwlClass::Workflow => text_or_default(&h.id, "Workflow"),
        CwlClass::ExpressionTool => to_string("ExpressionTool"),
        CwlClass::Operation => to_string("Operation"),
    }
}

/// The summary of a document: its class and version.
pub fn cwl_summary(h: &CwlHeader) -> (r: String)
    ensures
        r@ == summary_spec(*h),
{
    let mut s = class_label(h.class);
    push_str(&mut s, " (");
    let v = text_or_default(&h.version, "unknown");
    push_str(&mut s, v.as_str());
    push_str(&mut s, ")");
    s
}

/// The inputs of a command-line tool or workflow as `(id, type)` pairs.
pub fn cwl_inputs(doc: &CwlDocument) -> (r: Vec<(String, String)>)
    ensures
        crate::api::pairs_view(r@) == inputs_spec(*doc),
{
    let mut r: Vec<(String, String)> = Vec::new();
    match doc.header.class {
        CwlClass::CommandLineTool | CwlClass::Workflow => {},
        _ => {
            assert(crate::api::pairs_view(r@) =~= inputs_spec(*doc));
            return r;
        },
    }
    let mut i: usize = 0;
    while i < doc.inputs.len()
        invariant
            i <= doc.inputs.len(),
            crate::api::pairs_view(r@) =~= input_pairs(doc.inputs@.take(i as int)),
        decreases doc.inputs.len() - i,
    {
        proof {
            reveal_strlit("");
        }
        let id = text_or_default(&doc.inputs[i].id, "");
        let ty = to_string(doc.inputs[i].type_text.as_str());
        let ghost prev = r@;
        let ghost entry = (id@, ty@);
        r.push((id, ty));
        proof {
            let item = doc.inputs@[i as int];
            assert(doc.inputs@.take(i as int + 1)[i as int] == item);
            assert(id@ == text_or(item.id, Seq::empty()));
            assert(ty@ == item.type_text@);
            assert(input_pairs(doc.inputs@.take(i as int + 1))[i as int] == entry);
            assert(crate::api::pairs_view(r@) =~= crate::api::pairs_view(prev).push(entry));
            assert(input_pairs(doc.inputs@.take(i as int + 1)) =~= input_pairs(
                doc.inputs@.take(i as int),
            ).push(entry));
        }
        i = i + 1;
    }
    assert(doc.inputs@.take(i as int) =~= doc.inputs@);
    r
}

// ----------------------------------------------------------------------------
// The outline of a document
// ----------------------------------------------------------------------------

/// One listed id line.
fn id_line(o: &Option<String>) -> (r: String)
    ensures
        r@ == id_line_spec(*o),
{
    let mut r = to_string("  ");
    let id = text_or_default(o, "?");
    push_str(&mut r, id.as_str());
    push_str(&mut r, "\n");
    r
}

/// Source ids joined with commas.
fn sources_text(o: &Option<Vec<String>>) -> (r: String)
    ensures
        r@ == sources_spec(*o),
{
    match o {
        Some(v) => join_strings(v, ", "),
        None => String::new(),
    }
}

/// What a step runs.
fn run_text(r: &CwlRun) -> (t: String)
    ensures
        t@ == run_spec(*r),
{
    match r {
        CwlRun::Path(p) => to_string(p.as_str()),
        CwlRun::Document(h) => {
            let mut t = cwl_title(h);
            push_str(&mut t, " (");
            let summary = cwl_summary(h);
            push_str(&mut t, summary.as_str());
            push_str(&mut t, ")");
            t
        },
    }
}

/// A step input line.
fn step_input_line(i: &CwlStepInput) -> (r: String)
    ensures
        r@ == step_input_line_spec(*i),
{
    let mut r = to_string("      ");
    let id = text_or_default(&i.id, "?");
    push_str(&mut r, id.as_str());
    push_str(&mut r, " \u{2190} ");
    let sources = sources_text(&i.source);
    push_str(&mut r, sources.as_str());
    push_str(&mut r, "\n");
    r
}

/// A workflow output line.
fn output_line(o: &CwlOutput) -> (r: String)
    ensures
        r@ == output_line_spec(*o),
{
    let mut r = to_string("  ");
    let id = text_or_default(&o.id, "?");
    push_str(&mut r, id.as_str());
    push_str(&mut r, " \u{2190} ");
    let sources = sources_text(&o.source);
    push_str(&mut r, sources.as_str());
    push_str(&mut r, "\n");
    r
}

/// The id lines of input parameters, one after the other.
fn input_ids_text(v: &Vec<CwlInput>) -> (r: String)
    ensures
        r@ == concat_all(input_id_lines(v@)),
{
    let mut r = String::new();
    let mut i: usize = 0;
    while i < v.len()
        invariant
            i <= v.len(),
            r@ == concat_all(input_id_lines(v@).take(i as int)),
        decreases v.len() - i,
    {
        let line = id_line(&v[i].id);
        proof {
            lemma_concat_all_step(input_id_lines(v@), i as int);
        }
        push_str(&mut r, line.as_str());
        i = i + 1;
    }
    assert(input_id_lines(v@).take(i as int) =~= input_id_lines(v@));
    r
}

/// The id lines of output parameters, one after the other.
fn output_ids_text(v: &Vec<CwlOutput>) -> (r: String)
    ensures
        r@ == concat_all(output_id_lines(v@)),
{
    let mut r = String::new();
    let mut i: usize = 0;
    while i < v.len()
        invariant
            i <= v.len(),
            r@ == concat_all(output_id_lines(v@).take(i as int)),
        decreases v.len() - i,
    {
        let line = id_line(&v[i].id);
        proof {
            lemma_concat_all_step(output_id_lines(v@), i as int);
        }
        push_str(&mut r, line.as_str());
        i = i + 1;
    }
    assert(output_id_lines(v@).take(i as int) =~= output_id_lines(v@));
    r
}

/// The source lines of workflow outputs, one after the other.
fn output_sources_text(v: &Vec<CwlOutput>) -> (r: String)
    ensures
        r@ == concat_all(output_source_lines(v@)),
{
    let mut r = String::new();
    let mut i: usize = 0;
    while i < v.len()
        invariant
            i <= v.len(),
            r@ == concat_all(output_source_lines(v@).take(i as int)),
        decreases v.len() - i,
    {
        let line = output_line(&v[i]);
        proof {
            lemma_concat_all_step(output_source_lines(v@), i as int);
        }
        push_str(&mut r, line.as_str());
        i = i + 1;
    }
    assert(output_source_lines(v@).take(i as int) =~= output_source_lines(v@));
    r
}

/// The lines of the inputs of a step, one after the other.
fn step_inputs_text(v: &Vec<CwlStepInput>) -> (r: String)
    ensures
        r@ == concat_all(step_input_lines(v@)),
{
    let mut r = String::new();
    let mut i: usize = 0;
    while i < v.len()
        invariant
            i <= v.len(),
            r@ == concat_all(step_input_lines(v@).take(i as int)),
        decreases v.len() - i,
    {
        let line = step_input_line(&v[i]);
        proof {
            lemma_concat_all_step(step_input_lines(v@), i as int);
        }
        push_str(&mut r, line.as_str());
        i = i + 1;
    }
    assert(step_input_lines(v@).take(i as int) =~= step_input_lines(v@));
    r
}

/// The outline of one step.
fn step_text(st: &CwlStep) -> (r: String)
    ensures
        r@ == step_spec(*st),
{
    let mut r = to_string("  ");
    let id = text_or_default(&st.id, "?");
    push_str(&mut r, id.as_str());
    push_str(&mut r, " (");
    let run = run_text(&st.run);
    push_str(&mut r, run.as_str());
    push_str(&mut r, ")");
    let ghost head = r@;
    match &st.scatter {
        Some(keys) => {
            push_str(&mut r, " [scatter: ");
            let joined = join_strings(keys, ", ");
            push_str(&mut r, joined.as_str());
            push_str(&mut r, "]");
        },
        None => {},
    }
    assert(r@ =~= head + scatter_spec(st.scatter));
    let ghost head = r@;
    match &st.when {
        Some(w) => {
            push_str(&mut r, " [when: ");
            push_str(&mut r, w.as_str());
            push_str(&mut r, "]");
        },
        None => {},
    }
    assert(r@ =~= head + when_spec(st.when));
    push_str(&mut r, "\n");
    let ghost head = r@;
    if st.inputs.len() > 0 {
        push_str(&mut r, "    in:\n");
        let lines = step_inputs_text(&st.inputs);
        push_str(&mut r, lines.as_str());
    }
    assert(r@ =~= head + (if st.inputs@.len() > 0 {
        "    in:\n"@ + concat_all(step_input_lines(st.inputs@))
    } else {
        Seq::empty()
    }));
    let ghost head = r@;
    if st.outputs.len() > 0 {
        push_str(&mut r, "    out: ");
        let outs = join_strings(&st.outputs, ", ");
        push_str(&mut r, outs.as_str());
        push_str(&mut r, "\n");
    }
    assert(r@ =~= head + (if st.outputs@.len() > 0 {
        "    out: "@ + join_with(strings_view(st.outputs@), ", "@) + "\n"@
    } else {
        Seq::empty()
    }));
    r
}

/// The outlines of the steps, one after the other.
fn steps_text(v: &Vec<CwlStep>) -> (r: String)
    ensures
        r@ == concat_all(step_texts(v@)),
{
    let mut r = String::new();
    let mut i: usize = 0;
    while i < v.len()
        invariant
            i <= v.len(),
            r@ == concat_all(step_texts(v@).take(i as int)),
        decreases v.len() - i,
    {
        let text = step_text(&v[i]);
        proof {
            lemma_concat_all_step(step_texts(v@), i as int);
        }
        push_str(&mut r, text.as_str());
        i = i + 1;
    }
    assert(step_texts(v@).take(i as int) =~= step_texts(v@));
    r
}

/// The outline of a workflow (see `workflow_spec`).
fn format_workflow(doc: &CwlDocument, version: &str) -> (r: String)
    ensures
        r@ == workflow_spec(*doc, version@),
{
    let mut s = to_string("Workflow: ");
    let id = text_or_default(&doc.header.id, "unnamed");
    push_str(&mut s, id.as_str());
    push_str(&mut s, " (");
    push_str(&mut s, version);
    push_str(&mut s, ")\n");
    push_str(&mut s, "\nWorkflow inputs:\n");
    let inputs = input_ids_text(&doc.inputs);
    push_str(&mut s, inputs.as_str());
    push_str(&mut s, "\nSteps:\n");
    let steps = steps_text(&doc.steps);
    push_str(&mut s, steps.as_str());
    let ghost head = s@;
    if doc.outputs.len() > 0 {
        push_str(&mut s, "\nWorkflow outputs:\n");
        let outputs = output_sources_text(&doc.outputs);
        push_str(&mut s, outputs.as_str());
    }
    assert(s@ =~= head + (if doc.outputs@.len() > 0 {
        "\nWorkflow outputs:\n"@ + concat_all(output_source_lines(doc.outputs@))
    } else {
        Seq::empty()
    }));
    s
}

/// The outline of a tool whose class is named `label`.
fn format_tool(label: &str, doc: &CwlDocument, version: &str) -> (r: String)
    ensures
        r@ == tool_spec(label@, *doc, version@),
{
    let mut s = to_string(label);
    push_str(&mut s, ": ");
    let id = text_or_default(&doc.header.id, "unnamed");
    push_str(&mut s, id.as_str());
    push_str(&mut s, " (");
    push_str(&mut s, version);
    push_str(&mut s, ")\n");
    push_str(&mut s, "\nInputs:\n");
    let inputs = input_ids_text(&doc.inputs);
    push_str(&mut s, inputs.as_str());
    push_str(&mut s, "\nOutputs:\n");
    let outputs = output_ids_text(&doc.outputs);
    push_str(&mut s, outputs.as_str());
    s
}

/// The outline of a command-line tool.
fn format_command_line_tool(doc: &CwlDocument, version: &str) -> (r: String)
    ensures
        r@ == tool_spec("CommandLineTool"@, *doc, version@),
{
    format_tool("CommandLineTool", doc, version)
}

/// The outline of an expression tool.
fn format_expression_tool(doc: &CwlDocument, version: &str) -> (r: String)
    ensures
        r@ == tool_spec("ExpressionTool"@, *doc, version@),
{
    format_tool("ExpressionTool", doc, version)
}

/// The outline of an operation.
fn format_operation(doc: &CwlDocument, version: &str) -> (r: String)
    ensures
        r@ == tool_spec("Operation"@, *doc, version@),
{
    format_tool("Operation", doc, version)
}

/// The text outline of a document (see `graph_spec`): for a workflow its
/// inputs, steps and outputs; for a tool its inputs and outputs.
pub fn format_graph(doc: &CwlDocument) -> (r: String)
    ensures
        r@ == graph_spec(*doc),
{
    let version = text_or_default(&doc.header.version, "unknown");
    match doc.header.class {
        CwlClass::Workflow => format_workflow(doc, version.as_str()),
        CwlClass::CommandLineTool => format_command_line_tool(doc, version.as_str()),
        CwlClass::ExpressionTool => format_expression_tool(doc, version.as_str()),
        CwlClass::Operation => format_operation(doc, version.as_str()),
    }
}

// ----------------------------------------------------------------------------
// A tab over a document
// ----------------------------------------------------------------------------

/// The title of the command that runs a document: `Run CWL: <title>`.
pub open spec fn run_title_spec(h: CwlHeader) -> Seq<char> {
    "Run CWL: "@ + title_spec(h)
}

impl App {
    /// A tab over the CWL document found at `path_text`.  Its one command,
    /// bound to `r`, runs the document and is titled after it; the tab is in
    /// CWL mode.  The document itself stays with the caller, which shows its
    /// summary and inputs.
    pub fn new_cwl(doc: &CwlDocument, path_text: String, saved_theme: Option<String>) -> (app: App)
        ensures
            app@ == fresh_view(
                AppMode::Cwl,
                seq![
                    CommandView {
                        title: run_title_spec(doc.header),
                        key: KeyBinding::Char('r'),
                        command: path_text@,
                    },
                ],
                Seq::empty(),
                Seq::empty(),
                Seq::empty(),
                Seq::empty(),
                Seq::empty(),
                crate::api::opt_view(saved_theme),
            ).update_filtered(),
            app@.wf(),
    {
        let mut title = to_string("Run CWL: ");
        let t = cwl_title(&doc.header);
        push_str(&mut title, t.as_str());
        let ghost path_view = path_text@;
        let run_cmd = Command { title, key: KeyBinding::Char('r'), command: path_text };
        let mut commands: Vec<Command> = Vec::new();
        commands.push(run_cmd);
        let mut app = App::new(commands, saved_theme);
        app.app_mode = AppMode::Cwl;
        proof {
            assert(crate::setup::commands_view(commands@) =~= seq![
                CommandView {
                    title: run_title_spec(doc.header),
                    key: KeyBinding::Char('r'),
                    command: path_view,
                },
            ]);
        }
        app
    }
}

} // verus!
