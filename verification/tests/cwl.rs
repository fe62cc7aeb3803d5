use runbook_tui::app::{App, AppMode};
use runbook_tui::cwl::{
    cwl_inputs, cwl_summary, cwl_title, detect_cwl, format_graph, CwlClass, CwlDocument,
    CwlHeader, CwlInput, CwlOutput, CwlRun, CwlStep, CwlStepInput,
};
use runbook_tui::keybinding::KeyBinding;

fn s(x: &str) -> String {
    x.to_string()
}

fn header(class: CwlClass, id: Option<&str>, version: Option<&str>) -> CwlHeader {
    CwlHeader { class, id: id.map(s), version: version.map(s) }
}

fn input(id: &str, ty: &str) -> CwlInput {
    CwlInput { id: Some(s(id)), type_text: s(ty) }
}

fn tool(class: CwlClass, id: Option<&str>) -> CwlDocument {
    CwlDocument {
        header: header(class, id, Some("v1.2")),
        inputs: vec![input("message", "String")],
        outputs: vec![CwlOutput { id: Some(s("out")), source: None }],
        steps: vec![],
    }
}

fn complex_workflow() -> CwlDocument {
    let greet = CwlStep {
        id: Some(s("greet")),
        run: CwlRun::Document(header(CwlClass::CommandLineTool, Some("greet_tool"), Some("v1.2"))),
        scatter: Some(vec![s("name")]),
        when: None,
        inputs: vec![CwlStepInput { id: Some(s("name")), source: Some(vec![s("names")]) }],
        outputs: vec![s("greeting")],
    };
    let shout = CwlStep {
        id: Some(s("maybe_shout")),
        run: CwlRun::Path(s("shout.cwl")),
        scatter: None,
        when: Some(s("$(inputs.loud)")),
        inputs: vec![
            CwlStepInput { id: Some(s("text")), source: Some(vec![s("greet/greeting")]) },
            CwlStepInput { id: Some(s("loud")), source: Some(vec![s("loud")]) },
        ],
        outputs: vec![s("shouted")],
    };
    CwlDocument {
        header: header(CwlClass::Workflow, Some("complex"), Some("v1.2")),
        inputs: vec![input("names", "Array"), input("loud", "Boolean")],
        outputs: vec![CwlOutput { id: Some(s("result")), source: Some(vec![s("maybe_shout/shouted")]) }],
        steps: vec![greet, shout],
    }
}

#[test]
fn detect_cwl_from_yaml() {
    let content = "cwlVersion: v1.2\nclass: CommandLineTool\nbaseCommand: echo\ninputs: []\noutputs: []\n";
    assert!(detect_cwl(content));
}

#[test]
fn detect_cwl_false_for_api() {
    let content = "apiVersion: v1\nkind: Pod\nmetadata:\n  name: test\n";
    assert!(!detect_cwl(content));
}

#[test]
fn detect_cwl_needs_a_valid_document() {
    assert!(!detect_cwl("cwlVersion: v1.2\nclass: Nothing\n"));
    assert!(!detect_cwl(""));
}

#[test]
fn format_complex_workflow_graph() {
    let doc = complex_workflow();
    let graph = format_graph(&doc);
    assert!(graph.contains("Workflow:"));
    assert!(graph.contains("greet"));
    assert!(graph.contains("maybe_shout"));
    assert!(graph.contains("scatter"));
    assert!(graph.contains("when"));
    assert!(graph.contains("greet/greeting"));
}

#[test]
fn complex_workflow_outline_is_exact() {
    let graph = format_graph(&complex_workflow());
    let expected = [
        "Workflow: complex (v1.2)\n",
        "\nWorkflow inputs:\n",
        "  names\n",
        "  loud\n",
        "\nSteps:\n",
        "  greet (greet_tool (CommandLineTool (v1.2))) [scatter: name]\n",
        "    in:\n",
        "      name \u{2190} names\n",
        "    out: greeting\n",
        "  maybe_shout (shout.cwl) [when: $(inputs.loud)]\n",
        "    in:\n",
        "      text \u{2190} greet/greeting\n",
        "      loud \u{2190} loud\n",
        "    out: shouted\n",
        "\nWorkflow outputs:\n",
        "  result \u{2190} maybe_shout/shouted\n",
    ]
    .concat();
    assert_eq!(graph, expected);
}

#[test]
fn workflow_without_outputs_or_ids() {
    let doc = CwlDocument {
        header: header(CwlClass::Workflow, None, None),
        inputs: vec![CwlInput { id: None, type_text: s("File") }],
        outputs: vec![],
        steps: vec![CwlStep {
            id: None,
            run: CwlRun::Path(s("a.cwl")),
            scatter: Some(vec![s("x"), s("y")]),
            when: None,
            inputs: vec![CwlStepInput { id: None, source: None }],
            outputs: vec![s("o1"), s("o2")],
        }],
    };
    let expected = "Workflow: unnamed (unknown)\n\nWorkflow inputs:\n  ?\n\nSteps:\n  ? (a.cwl) [scatter: x, y]\n    in:\n      ? \u{2190} \n    out: o1, o2\n";
    assert_eq!(format_graph(&doc), expected);
}

#[test]
fn tool_outlines_are_exact() {
    let expected = "CommandLineTool: echo (v1.2)\n\nInputs:\n  message\n\nOutputs:\n  out\n";
    assert_eq!(format_graph(&tool(CwlClass::CommandLineTool, Some("echo"))), expected);
    let expected = "ExpressionTool: unnamed (v1.2)\n\nInputs:\n  message\n\nOutputs:\n  out\n";
    assert_eq!(format_graph(&tool(CwlClass::ExpressionTool, None)), expected);
    let expected = "Operation: op (v1.2)\n\nInputs:\n  message\n\nOutputs:\n  out\n";
    assert_eq!(format_graph(&tool(CwlClass::Operation, Some("op"))), expected);
}

#[test]
fn titles_and_summaries() {
    assert_eq!(cwl_title(&header(CwlClass::CommandLineTool, Some("echo"), None)), "echo");
    assert_eq!(cwl_title(&header(CwlClass::CommandLineTool, None, None)), "CommandLineTool");
    assert_eq!(cwl_title(&header(CwlClass::Workflow, None, None)), "Workflow");
    assert_eq!(cwl_title(&header(CwlClass::ExpressionTool, Some("x"), None)), "ExpressionTool");
    assert_eq!(cwl_title(&header(CwlClass::Operation, Some("x"), None)), "Operation");
    assert_eq!(cwl_summary(&header(CwlClass::Workflow, None, Some("v1.2"))), "Workflow (v1.2)");
    assert_eq!(cwl_summary(&header(CwlClass::Operation, None, None)), "Operation (unknown)");
}

#[test]
fn inputs_of_tools_and_workflows_only() {
    let t = tool(CwlClass::CommandLineTool, None);
    assert_eq!(cwl_inputs(&t), vec![(s("message"), s("String"))]);
    let w = complex_workflow();
    assert_eq!(cwl_inputs(&w), vec![(s("names"), s("Array")), (s("loud"), s("Boolean"))]);
    assert!(cwl_inputs(&tool(CwlClass::ExpressionTool, None)).is_empty());
    assert!(cwl_inputs(&tool(CwlClass::Operation, None)).is_empty());
    let unnamed = CwlDocument {
        inputs: vec![CwlInput { id: None, type_text: s("File") }],
        ..tool(CwlClass::CommandLineTool, None)
    };
    assert_eq!(cwl_inputs(&unnamed), vec![(s(""), s("File"))]);
}

#[test]
fn cwl_tab_runs_its_document() {
    let doc = tool(CwlClass::CommandLineTool, Some("echo"));
    let app = App::new_cwl(&doc, s("example.cwl"), None);
    assert_eq!(app.app_mode, AppMode::Cwl);
    assert_eq!(app.commands.len(), 1);
    assert_eq!(app.commands[0].title, "Run CWL: echo");
    assert_eq!(app.commands[0].key, KeyBinding::Char('r'));
    assert_eq!(app.commands[0].command, "example.cwl");
    assert_eq!(app.filtered, vec![0]);
}

#[test]
fn packed_documents_are_not_recognised() {
    let content = "cwlVersion: v1.2\n$graph:\n- class: Workflow\n  id: main\n  inputs: []\n  outputs: []\n  steps:\n  - run: '#tool'\n    in: []\n    out: []\n";
    assert!(!detect_cwl(content));
}
