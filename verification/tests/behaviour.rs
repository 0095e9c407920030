//! Concrete checks of the library's laws, formulas, error variants and
//! the calls it makes into outside crates.

use runnerguard::engine::context::{EvalContext, EvalTarget};
use runnerguard::engine::facts::resolve;
use runnerguard::json::JsonValue;
use runnerguard::model::{
    Diagnostic, DiagnosticLevel, DiagnosticStage, Finding, ParsedProject, ProjectDescriptor, ProjectIndex,
    Severity, SourceFile, SourceFileKind, SourceSpan,
};
use runnerguard::parser::project::{sha_short, FileContent, ProjectFiles};
use runnerguard::parser::{parse_project, ParseOptions};
use runnerguard::report::document::{build_document, diagnostic_codes, ScanResultKind};
use runnerguard::report::escape::{escape_code_text, escape_html_text, escape_md_text};
use runnerguard::report::{
    group_by_severity, render_html, render_markdown, rollup_by_rule, sort_findings, HtmlRenderer, MarkdownRenderer,
    ReportError, ReportFormatLabel, ReportRenderer,
};
use runnerguard::ruleset::FactPath;
use runnerguard::scan::{ScanEvent, ScanResult, ScanSummary};
use runnerguard::tui::header::{set_header_projection, HeaderProjection};
use runnerguard::tui::panels::{finding_detail_lines, footer_lines, project_summary_lines, Tone};
use runnerguard::tui::view::{list_window, short_path, truncate};
use runnerguard::tui::component::apply_move;
use runnerguard::xtask::{next_step, plan, Step, Task};
use runnerguard::tui::state::Selections;
use runnerguard::tui::{Action, App, Cycle, Event, Key, MoveDirection, PageId, PanelId, TuiError};

fn finding(rule: &str, sev: Severity) -> Finding {
    Finding::deterministic(rule, sev, "title", "message")
}

fn project(root_files: usize) -> ParsedProject {
    ParsedProject {
        schema_version: "1.0".to_string(),
        project: ProjectDescriptor {
            schema_version: "1.0".to_string(),
            id: "project:x".to_string(),
            name: "x".to_string(),
            group_id: None,
            artifact_id: None,
            version: None,
            mule_version: None,
            sdk_version: None,
            root_path: "/x".to_string(),
            files: (0..root_files).map(|i| SourceFile::new(&format!("f{i}.xml"), 1, SourceFileKind::MuleXml)).collect(),
            required_files_missing: vec![],
        },
        documents: vec![],
        index: ProjectIndex::empty(),
    }
}

#[test]
fn verdict_fails_exactly_on_critical_or_error_findings() {
    let mut result = ScanResult::default();
    result.findings = vec![finding("B", Severity::Info), finding("A", Severity::Critical)];
    let doc = build_document(&result, &project(2), &[], 7, "9.9");
    assert_eq!(doc.summary.result, ScanResultKind::Failed);
    assert_eq!(doc.findings[0].rule_id, "A");
    assert_eq!(doc.summary.critical, 1);
    assert_eq!(doc.summary.info, 1);
    assert_eq!(doc.summary.files_scanned, 2);
    assert_eq!(doc.metadata.tool, "runnerguard");
    assert_eq!(doc.metadata.tool_version, "9.9");
    assert_eq!(doc.metadata.schema_version, "1.0");

    let mut result = ScanResult::default();
    result.findings = vec![finding("W", Severity::Warning)];
    let doc = build_document(&result, &project(0), &[], 7, "9.9");
    assert_eq!(doc.summary.result, ScanResultKind::Passed);
}

#[test]
fn report_order_is_severity_then_rule_then_file_then_line() {
    let a = finding("R2", Severity::Warning).with_source(SourceSpan::point("b.xml", 3, 1));
    let b = finding("R2", Severity::Warning).with_source(SourceSpan::point("a.xml", 9, 1));
    let c = finding("R1", Severity::Warning);
    let d = finding("R9", Severity::Error);
    let e = finding("R2", Severity::Warning).with_source(SourceSpan::point("a.xml", 2, 1));
    let sorted = sort_findings(&[a, b, c, d, e]);
    let keys: Vec<String> = sorted
        .iter()
        .map(|f| format!("{}:{}", f.rule_id, f.source.as_ref().map(|s| format!("{}:{}", s.file, s.start_line)).unwrap_or_default()))
        .collect();
    assert_eq!(keys, vec!["R9:", "R1:", "R2:a.xml:2", "R2:a.xml:9", "R2:b.xml:3"]);
}

#[test]
fn rollup_counts_each_rule_once_in_ascending_order() {
    let fs = vec![finding("B", Severity::Info), finding("A", Severity::Info), finding("B", Severity::Error)];
    let r = rollup_by_rule(&fs);
    assert_eq!(r, vec![("A".to_string(), 1), ("B".to_string(), 2)]);
    assert!(rollup_by_rule(&[]).is_empty());
}

#[test]
fn groups_come_most_severe_first_and_skip_empty_ones() {
    let fs = vec![finding("I", Severity::Info), finding("C", Severity::Critical), finding("I2", Severity::Info)];
    let g = group_by_severity(fs);
    assert_eq!(g.len(), 2);
    assert_eq!(g[0].0, Severity::Critical);
    assert_eq!(g[1].0, Severity::Info);
    assert_eq!(g[1].1.len(), 2);
    assert_eq!(g[1].1[1].rule_id, "I2");
}

#[test]
fn escaping_neutralises_markup() {
    assert_eq!(escape_md_text("a<b>&`|\\\n\r"), "a&lt;b&gt;&amp;\\`\\|\\\\ ");
    assert_eq!(escape_html_text("<a href=\"x\">'&'</a>"), "&lt;a href=&quot;x&quot;&gt;&#39;&amp;&#39;&lt;/a&gt;");
    assert_eq!(escape_code_text("``` x"), "\\`\\`\\` x");
}

fn small_doc() -> runnerguard::report::document::ReportDocument {
    let mut result = ScanResult::default();
    let mut f = finding("RG-1", Severity::Error).with_source(SourceSpan::point("src/a.xml", 4, 2));
    f.evidence = JsonValue::Object(vec![("actual".to_string(), JsonValue::Number(3))]);
    result.findings = vec![f];
    result.parser_diagnostics = vec![Diagnostic::new(
        DiagnosticStage::Xml,
        "XML-001",
        DiagnosticLevel::Error,
        "bad | thing".to_string(),
    )];
    build_document(&result, &project(1), &[], -5, "1.2.3")
}

#[test]
fn markdown_has_exact_lines() {
    let out = String::from_utf8(render_markdown(&small_doc()).unwrap()).unwrap();
    assert!(out.starts_with("# RunnerGuard Scan Report\n\n## Executive Summary\n\n"));
    assert!(out.contains("Scan result: **Failed**. 1 finding(s) total \u{2014} 0 critical, 1 error, 0 warning, 0 info.\n"));
    assert!(out.contains("| RG-1 | 1 |\n"));
    assert!(out.contains("### Error\n\n#### title (RG-1)\nmessage\n_Location:_ `src/a.xml:4:2`\n"));
    assert!(out.contains("```json\n{\"actual\":3}\n```"));
    assert!(out.contains("- [XML-001] Xml: bad \\| thing\n"));
    assert!(out.contains("- Generated at (unix): -5\n"));
    assert!(out.contains("0 finding(s) reference resolution issues."));
    assert!(out.ends_with("## Tool and Schema Versions\n\n- runnerguard 1.2.3\n- schema 1.0\n\n"));
}

#[test]
fn html_has_exact_fragments() {
    let out = String::from_utf8(render_html(&small_doc()).unwrap()).unwrap();
    assert!(out.starts_with("<!doctype html>\n<html lang=\"en\">\n<head>\n"));
    assert!(out.contains("<article class=\"finding error\" data-severity=\"error\" data-text=\"RG-1 title src/a.xml\">\n"));
    assert!(out.contains("<pre>{&quot;actual&quot;:3}</pre>"));
    assert!(out.contains("<tr><td><code>XML-001</code></td><td>Xml</td><td>bad | thing</td></tr>\n"));
    assert!(out.ends_with("</body>\n</html>\n"));
}

#[test]
fn renderers_report_their_format_and_render_like_the_functions() {
    let doc = small_doc();
    assert_eq!(MarkdownRenderer.format(), ReportFormatLabel::Markdown);
    assert_eq!(HtmlRenderer.format(), ReportFormatLabel::Html);
    assert_eq!(MarkdownRenderer.render(&doc).unwrap(), render_markdown(&doc).unwrap());
    assert_eq!(HtmlRenderer.render(&doc).unwrap(), render_html(&doc).unwrap());
}

#[test]
fn report_error_messages() {
    assert_eq!(ReportError::Template("t".to_string()).message(), "template rendering failed: t");
    assert_eq!(ReportError::Io("i".to_string()).message(), "io error: i");
    assert_eq!(ReportError::Serde("s".to_string()).message(), "serialisation failed: s");
    assert_eq!(ReportError::Fmt.message(), "format failed: an error occurred when formatting an argument");
}

#[test]
fn diagnostic_codes_keep_order() {
    let ds = vec![
        Diagnostic::new(DiagnosticStage::Xml, "B", DiagnosticLevel::Info, "x".to_string()),
        Diagnostic::new(DiagnosticStage::Xml, "A", DiagnosticLevel::Info, "y".to_string()),
    ];
    assert_eq!(diagnostic_codes(&ds), vec!["B".to_string(), "A".to_string()]);
}

#[test]
fn short_path_keeps_head_and_tail() {
    assert_eq!(short_path("C:/projetos/mulesoft/src/main/mule/订单/order-api.xml", 28), "C:/proje…le/订单/order-api.xml");
    assert_eq!(short_path("abcdefghijklmnopqrstuvwxyz0123456789ABCDEFGH", 40), "abcdefghijklmnop…vwxyz0123456789ABCDEFGH");
    assert_eq!(truncate("abcdef", 4), "abc…");
    assert_eq!(truncate("abc", 4), "abc");
}

#[test]
fn list_window_keeps_selection_visible() {
    assert_eq!(list_window(0, 3, 2, 5), (0, None));
    assert_eq!(list_window(10, 9, 0, 3), (7, Some(9)));
    assert_eq!(list_window(10, 2, 6, 3), (2, Some(2)));
    assert_eq!(list_window(10, 50, 50, 3), (9, Some(9)));
}

#[test]
fn panel_cycle_comes_full_circle() {
    for start in [PanelId::Header, PanelId::Body, PanelId::Footer] {
        let mut p = start;
        for _ in 0..3 {
            p = p.cycle(Cycle::Forward);
        }
        assert_eq!(p, start);
        assert_eq!(start.cycle(Cycle::Backward).cycle(Cycle::Forward), start);
    }
    assert_eq!(PanelId::Header.cycle(Cycle::Backward), PanelId::Footer);
}

#[test]
fn events_leave_their_progress_line() {
    let mut app = App::new();
    app.state.apply_event(ScanEvent::Started { project: "demo".to_string() });
    assert_eq!(app.state.progress.last_event.as_deref(), Some("started: demo"));
    app.state.apply_event(ScanEvent::ConfigLoaded { config_path: "/c.yaml".to_string() });
    assert_eq!(app.state.progress.last_event.as_deref(), Some("config loaded: /c.yaml"));
    app.state.apply_event(ScanEvent::RuleCompleted { rule_id: "R".to_string(), findings: 2 });
    assert_eq!(app.state.progress.last_event.as_deref(), Some("rule R produced 2 finding(s)"));
    app.state.apply_event(ScanEvent::XmlParsed { path: "a.xml".to_string(), flows: 3 });
    assert_eq!(app.state.progress.last_event.as_deref(), Some("parsed 3 flow(s): a.xml"));
}

#[test]
fn uncompilable_filter_changes_nothing_and_regex_filters_match() {
    let mut app = App::new();
    for id in ["MULE-001", "MULE-002", "OTHER-1"] {
        app.state.apply_event(ScanEvent::Finding(finding(id, Severity::Info)));
    }
    assert!(!app.state.apply_filter("("));
    assert!(app.state.filter.is_none());
    assert_eq!(app.state.visible_findings.len(), 3);
    assert!(app.state.apply_filter("^MULE-00[12]$"));
    assert_eq!(app.state.visible_findings.len(), 2);
    app.state.clear_filter();
    assert_eq!(app.state.visible_findings.len(), 3);
}

#[test]
fn body_panel_gets_keys_the_global_keymap_does_not_bind() {
    let mut app = App::new();
    for id in ["A", "B", "C"] {
        app.state.apply_event(ScanEvent::Finding(finding(id, Severity::Info)));
    }
    app.apply_action(Action::Page(PageId::Findings));
    app.dispatch(Event::Key(Key::Char('j')));
    assert_eq!(app.state.selections.finding_index, 1);
    app.dispatch(Event::Key(Key::PageDown));
    assert_eq!(app.state.selections.finding_index, 2);
    app.dispatch(Event::Key(Key::Tab));
    assert_eq!(app.state.focused_panel, PanelId::Footer);
    app.dispatch(Event::Key(Key::Char('k')));
    assert_eq!(app.state.selections.finding_index, 2);
    app.dispatch(Event::Key(Key::Char('?')));
    assert_eq!(app.state.current_page, PageId::ScanProgress);
    app.dispatch(Event::Key(Key::Char('r')));
    assert!(app.cancel);
}

#[test]
fn moves_keep_selection_inside_the_window() {
    let mut app = App::new();
    for i in 0..20 {
        app.state.apply_event(ScanEvent::Finding(finding(&format!("R{i:02}"), Severity::Info)));
    }
    app.apply_action(Action::Page(PageId::Findings));
    for dir in [MoveDirection::PageDown, MoveDirection::PageDown, MoveDirection::Up, MoveDirection::End, MoveDirection::PageUp] {
        app.apply_action(Action::Move(dir));
        let s = app.state.selections;
        assert!(s.finding_index < 20);
        assert!(s.finding_offset <= s.finding_index && s.finding_index < s.finding_offset + 2);
    }
    assert_eq!(app.state.selections.finding_index, 11);
}

#[test]
fn tui_errors_know_whether_they_are_fatal() {
    assert!(TuiError::Terminal("x".to_string()).is_fatal());
    assert!(TuiError::Io("x".to_string()).is_fatal());
    assert!(TuiError::EventSource("x".to_string()).is_fatal());
    assert!(!TuiError::Component("x".to_string()).is_fatal());
    assert_eq!(TuiError::Component("bad".to_string()).message(), "component state invalid: bad");
}

#[test]
fn panels_describe_what_they_show() {
    let mut app = App::new();
    let lines = finding_detail_lines(&app.state, &Vec::new());
    assert_eq!(lines.len(), 1);
    assert_eq!(lines[0][0].text, "(no finding selected)");
    assert_eq!(lines[0][0].tone, Tone::Dim);
    app.state.apply_event(ScanEvent::Finding(finding("R", Severity::Warning).with_source(SourceSpan::point("f.xml", 3, 4))));
    let lines = finding_detail_lines(&app.state, &vec!["{".to_string(), "}".to_string()]);
    let texts: Vec<String> = lines.iter().map(|l| l.iter().map(|s| s.text.clone()).collect::<String>()).collect();
    assert_eq!(texts[0], "warning  R  [warning]");
    assert!(texts.contains(&"f.xml:3-4:3".to_string()));
    assert_eq!(texts[texts.len() - 1], "origin=DeterministicRule rule_version=\u{2014}");
    let summary = project_summary_lines(&app.state);
    assert_eq!(summary.len(), 2);
    app.state.summary = Some(ScanSummary { warning: 1, findings_total: 1, ..ScanSummary::default() });
    let summary = project_summary_lines(&app.state);
    assert_eq!(summary[3][0].text, "diagnostics: 0 \u{2022} threshold_exceeded=true");
    app.state.filter_mode = true;
    app.state.filter_input = "abc".to_string();
    let footer = footer_lines(&app.state);
    assert_eq!(footer[0][1].text, "abc_");
}

#[test]
fn scan_summary_counts_and_thresholds() {
    let mut result = ScanResult::default();
    result.findings = vec![finding("a", Severity::Info), finding("b", Severity::Error), finding("c", Severity::Info)];
    let s = result.summary();
    assert_eq!((s.findings_total, s.critical, s.error, s.warning, s.info), (3, 0, 1, 0, 2));
    assert!(s.threshold_exceeded(Severity::Error));
    assert!(!s.threshold_exceeded(Severity::Critical));
    assert!(s.threshold_exceeded(Severity::Info));
}

#[test]
fn header_projection_is_replaced() {
    let mut slot = HeaderProjection::initial();
    assert_eq!(slot.page, "scan");
    set_header_projection(&mut slot, HeaderProjection { project_name: "p".to_string(), page: "Findings", focus: "body" });
    assert_eq!(slot.project_name, "p");
    assert_eq!(slot.page, "Findings");
}

#[test]
fn file_extension_fact_comes_from_the_path() {
    let p = project(0);
    let f = SourceFile::new("src/main/mule/a.xml", 1, SourceFileKind::MuleXml);
    let ctx = EvalContext { project: &p, target: EvalTarget::File(&f), current_expected: None };
    match resolve(&ctx, &FactPath("file.extension".to_string())) {
        JsonValue::String(s) => assert_eq!(s, "xml"),
        other => panic!("unexpected {other:?}"),
    }
}

#[test]
fn project_descriptor_uses_the_root_name_and_digest() {
    let files = ProjectFiles { root: "/tmp/demo-proj".to_string(), files: Vec::new() };
    let parsed = parse_project(&files, &Vec::new(), &ParseOptions::default()).unwrap();
    assert_eq!(parsed.project.project.name, "demo-proj");
    assert_eq!(parsed.project.project.id, format!("project:{}", sha_short("/tmp/demo-proj")));
    assert_eq!(sha_short("abc"), "ba7816bf8f01");
}

#[test]
fn invalid_utf8_and_flow_digest() {
    let files = ProjectFiles {
        root: "/p".to_string(),
        files: vec![
            SourceFile::new("bad.xml", 2, SourceFileKind::MuleXml),
            SourceFile::new("ok.xml", 1, SourceFileKind::MuleXml),
        ],
    };
    let ok = "<mule><flow name=\"f\"><logger/></flow></mule>";
    let contents = vec![FileContent::Bytes(vec![0xff, 0xfe]), FileContent::Bytes(ok.as_bytes().to_vec())];
    let parsed = parse_project(&files, &contents, &ParseOptions::default()).unwrap();
    assert_eq!(parsed.project.documents.len(), 1);
    assert!(!parsed.diagnostics.is_empty());
    let flow = &parsed.project.documents[0].flows[0];
    assert!(flow.source_xml_sha256.starts_with("sha256:"));
    assert_eq!(flow.source_xml_sha256.len(), "sha256:".len() + 64);
}

#[test]
fn highlight_marks_only_the_selected_row() {
    let items = vec!["a".to_string(), "b".to_string(), "c".to_string()];
    let out = runnerguard::tui::view::highlight_lines(items.clone(), Some(1));
    assert_eq!(out, vec!["a".to_string(), ">> b".to_string(), "c".to_string()]);
    assert_eq!(runnerguard::tui::view::highlight_lines(items.clone(), None), items);
    assert_eq!(runnerguard::tui::view::highlight_lines(items.clone(), Some(7)), items);
}

#[test]
fn apply_move_moves_and_clamps_the_finding_selection() {
    let mut sel = Selections::default();
    apply_move(&mut sel, MoveDirection::Down, 3);
    assert_eq!(sel.finding_index, 1);
    apply_move(&mut sel, MoveDirection::PageDown, 3);
    assert_eq!(sel.finding_index, 2);
    apply_move(&mut sel, MoveDirection::Down, 3);
    assert_eq!(sel.finding_index, 2);
    apply_move(&mut sel, MoveDirection::Up, 3);
    assert_eq!(sel.finding_index, 1);
    apply_move(&mut sel, MoveDirection::PageDown, 20);
    assert_eq!(sel.finding_index, 9);
    apply_move(&mut sel, MoveDirection::Home, 20);
    assert_eq!(sel.finding_index, 0);
    apply_move(&mut sel, MoveDirection::End, 20);
    assert_eq!(sel.finding_index, 19);
    apply_move(&mut sel, MoveDirection::Up, 5);
    assert_eq!(sel.finding_index, 4);
    let before = sel;
    apply_move(&mut sel, MoveDirection::Down, 0);
    assert_eq!(sel, before);
    assert_eq!(sel.flow_index, 0);
}

#[test]
fn filter_reports_a_change_of_rows_with_the_same_count() {
    let mut app = App::new();
    for id in ["MULE-001", "MULE-002"] {
        app.state.apply_event(ScanEvent::Finding(finding(id, Severity::Info)));
    }
    assert!(app.state.apply_filter("MULE-001"));
    assert_eq!(app.state.visible_findings.len(), 1);
    assert_eq!(app.state.visible_findings[0].rule_id, "MULE-001");
    assert!(app.state.apply_filter("MULE-002"));
    assert_eq!(app.state.visible_findings.len(), 1);
    assert_eq!(app.state.visible_findings[0].rule_id, "MULE-002");
    assert!(!app.state.apply_filter("MULE-00[2]"));
}

fn component(local: &str, name: Option<&str>, children: Vec<runnerguard::model::MuleComponent>) -> runnerguard::model::MuleComponent {
    runnerguard::model::MuleComponent {
        id: format!("component:{local}"),
        qualified_name: local.to_string(),
        local_name: local.to_string(),
        namespace_uri: None,
        attributes: name.map(|n| vec![("name".to_string(), n.to_string())]).unwrap_or_default(),
        text: None,
        cdata: vec![],
        children,
        source: SourceSpan::point("a.xml", 1, 1),
    }
}

#[test]
fn every_reference_to_a_target_is_marked() {
    let tree = component(
        "flow",
        Some("main"),
        vec![component("flow-ref", Some("x"), vec![]), component("flow-ref", Some("x"), vec![])],
    );
    let r = |t: &str| runnerguard::model::FlowRef { target: t.to_string(), resolved: false, source: SourceSpan::point("a.xml", 2, 3) };
    let mut facts = vec![r("x"), r("x"), r("y")];
    runnerguard::parser::reference::mark_resolved_in_flow(&tree, &mut facts, &vec!["x".to_string()]);
    assert!(facts[0].resolved && facts[1].resolved);
    assert!(!facts[2].resolved);
    assert_eq!(facts[1].target, "x");
    assert_eq!(facts[1].source.start_line, 2);
}

#[test]
fn text_around_a_child_element_is_joined() {
    let xml = b"<mule><flow name='f'><logger>before<x/>after</logger></flow></mule>";
    let d = runnerguard::parser::project::read_and_parse(xml, "a.xml", &ParseOptions::default()).unwrap();
    assert_eq!(d.flows.len(), 1);
    assert_eq!(d.flows[0].name, "f");
    let lg = &d.flows[0].components[0].children[0];
    assert_eq!(lg.local_name, "logger");
    assert_eq!(lg.text.as_deref(), Some("beforeafter"));
    assert_eq!(lg.children.len(), 1);
    assert_eq!(lg.children[0].local_name, "x");
}

#[test]
fn too_deep_a_document_is_refused() {
    let mut options = ParseOptions::default();
    options.limits.max_xml_depth = 2;
    let xml = b"<mule><flow name='f'><logger/></flow></mule>";
    assert!(runnerguard::parser::project::read_and_parse(xml, "a.xml", &options).is_ok());
    let xml = b"<mule><flow name='f'><a><b/></a></flow></mule>";
    let e = runnerguard::parser::project::read_and_parse(xml, "a.xml", &options).unwrap_err();
    assert_eq!(e.code, "XML-002");
    assert_eq!(e.message, "XML depth exceeds 2 in a.xml");
}

#[test]
fn tokens_carry_names_attributes_text_and_offsets() {
    let items = runnerguard::parser::reader::tokenize("<a x='1'>t &amp; u</a>");
    let offsets: Vec<u64> = items.iter().map(|i| i.offset).collect();
    assert_eq!(offsets, vec![0, 9, 18, 22]);
    match &items[0].token {
        runnerguard::parser::xml::XmlToken::Start { name, attributes } => {
            assert_eq!(name, "a");
            assert_eq!(attributes, &vec![("x".to_string(), "1".to_string())]);
        }
        other => panic!("unexpected {other:?}"),
    }
    match &items[1].token {
        runnerguard::parser::xml::XmlToken::Text(t) => assert_eq!(t, "t & u"),
        other => panic!("unexpected {other:?}"),
    }
    assert!(matches!(items[2].token, runnerguard::parser::xml::XmlToken::End));
    assert!(matches!(items[3].token, runnerguard::parser::xml::XmlToken::Eof));
    assert_eq!(items.len(), 4);
}

#[test]
fn flow_facts_count_nodes_depth_refs_handlers_placeholders_and_scripts() {
    let mut inner = component("flow-ref", Some("b"), vec![]);
    inner.attributes.push(("target".to_string(), "${p1} ${p2}".to_string()));
    let mut script = component("transform", None, vec![]);
    script.cdata = vec!["%dw 2.0\noutput json\n---\n{}".to_string(), "x".to_string()];
    let choice = component("choice", None, vec![inner, component("error-handler", None, vec![]), script]);
    let mut root = component("flow", Some("main"), vec![component("flow-ref", Some("a"), vec![]), choice]);
    root.attributes.push(("doc".to_string(), "${p2}".to_string()));
    let f = runnerguard::parser::facts::compute(&root);
    assert_eq!(f.component_count, 6);
    assert_eq!(f.max_component_depth, 3);
    let targets: Vec<&str> = f.flow_refs.iter().map(|r| r.target.as_str()).collect();
    assert_eq!(targets, vec!["a", "b"]);
    assert!(f.flow_refs.iter().all(|r| !r.resolved));
    assert!(f.has_local_error_handler && f.has_effective_error_handler);
    assert_eq!(f.property_refs, vec!["p2".to_string(), "p1".to_string()]);
    assert_eq!(f.dataweave_blocks.len(), 2);
}

#[test]
fn index_counts_flows_and_lists_each_missing_target() {
    let xml_a = "<mule><flow name='a'><flow-ref name='b'/><flow-ref name='gone'/></flow><sub-flow name='b'><flow-ref name='a'/><flow-ref name='gone'/></sub-flow></mule>";
    let xml_c = "<mule><flow name='c'><flow-ref name='other'/></flow></mule>";
    let da = runnerguard::parser::project::read_and_parse(xml_a.as_bytes(), "a.xml", &ParseOptions::default()).unwrap();
    let dc = runnerguard::parser::project::read_and_parse(xml_c.as_bytes(), "c.xml", &ParseOptions::default()).unwrap();
    let idx = runnerguard::parser::index::build(&[da, dc]);
    assert_eq!(idx.flows.len(), 2);
    assert_eq!(idx.sub_flows.len(), 1);
    let missing: Vec<&str> = idx.unresolved_flow_refs.iter().map(|u| u.target.as_str()).collect();
    assert_eq!(missing, vec!["gone", "gone", "other"]);
}

#[test]
fn ci_runs_its_commands_in_order_and_stops_at_the_first_failure() {

    let p = plan(Task::Ci { skip_doc: false });
    assert_eq!(p.len(), 5);
    assert_eq!(p[0], vec!["fmt", "--all", "--", "--check"]);
    assert_eq!(p[4], vec!["doc", "--workspace", "--no-deps"]);
    assert_eq!(plan(Task::Ci { skip_doc: true }).len(), 4);
    assert_eq!(plan(Task::Release)[0], vec!["build", "--release", "-p", "runnerguard-cli"]);
    assert_eq!(next_step(5, 0, true), Step::Run(0));
    assert_eq!(next_step(5, 2, true), Step::Run(2));
    assert_eq!(next_step(5, 2, false), Step::Failed(1));
    assert_eq!(next_step(5, 5, true), Step::Done);
}
