//! Tests of the terminal front-end's state machine.

use runnerguard::model::{
    Diagnostic, DiagnosticLevel, DiagnosticStage, Finding, FindingOrigin, Severity, SourceSpan,
};
use runnerguard::scan::{ReportFormat, ScanEvent, ScanOutcome, ScanResult, ScanSummary};
use runnerguard::tui::{Action, App, Cycle, Event, Key, MoveDirection, PageId};

fn make_outcome() -> ScanOutcome {
    let findings = vec![
        Finding::deterministic(
            "MULE-001",
            Severity::Critical,
            "Logger missing",
            "Add a logger component.",
        ),
        Finding::deterministic(
            "MULE-002",
            Severity::Warning,
            "Default port",
            "Default port 8081 is widely scanned.",
        ),
        Finding::deterministic(
            "MULE-014",
            Severity::Info,
            "No dataweave error handler",
            "Consider adding a target=\"errors\" mapper.",
        ),
    ];
    let mut result = ScanResult::default();
    result.findings = findings;
    result.parser_diagnostics = vec![Diagnostic::new(
        DiagnosticStage::Rule,
        "MULE-WARN",
        DiagnosticLevel::Warning,
        "demo diagnostic".to_string(),
    )];
    result.rule_count = 3;
    result.flow_count = 1;
    result.subflow_count = 0;
    let mut report_paths = Vec::new();
    report_paths.push("./out/report.md".to_string());
    ScanOutcome {
        result,
        report_paths,
        artifact_paths: vec!["./out/artifacts/flows/order-api--abc12345.json".to_string()],
        threshold_exceeded: false,
        incomplete: false,
    }
}

fn empty_outcome(findings: Vec<Finding>) -> ScanOutcome {
    let mut result = ScanResult::default();
    result.findings = findings;
    ScanOutcome {
        result,
        report_paths: Vec::new(),
        artifact_paths: Vec::new(),
        threshold_exceeded: false,
        incomplete: false,
    }
}

#[test]
fn move_down_reaches_end_and_move_up_clamps() {
    let mut app = App::browsing(make_outcome());
    let n = app.state.findings.len();
    assert!(n >= 3);
    app.apply_action(Action::Move(MoveDirection::End));
    assert_eq!(app.state.selections.finding_index, n - 1);
    app.apply_action(Action::Move(MoveDirection::Up));
    assert_eq!(app.state.selections.finding_index, n - 2);
    app.apply_action(Action::Move(MoveDirection::Home));
    assert_eq!(app.state.selections.finding_index, 0);
    app.apply_action(Action::Move(MoveDirection::Up));
    assert_eq!(app.state.selections.finding_index, 0);
}

#[test]
fn findings_offset_advances_when_user_scrolls_past_viewport() {
    let mut app = App::new();
    for i in 0..50 {
        let mut f = Finding::deterministic(
            &format!("MULE-{i:03}"),
            Severity::Warning,
            &format!("title #{i}"),
            &format!("message for finding {i}"),
        );
        f.origin = FindingOrigin::DeterministicRule;
        app.state.apply_event(ScanEvent::Finding(f));
    }
    app.state.current_page = PageId::Findings;
    assert_eq!(app.state.findings.len(), 50);
    assert_eq!(app.state.selections.finding_offset, 0);

    app.apply_action(Action::Move(MoveDirection::End));
    let n = app.state.findings.len();
    assert_eq!(app.state.selections.finding_index, n - 1);
    assert!(
        app.state.selections.finding_offset > 0,
        "End must scroll the offset forward when the selection is beyond the first viewport (was {})",
        app.state.selections.finding_offset
    );
    let end_offset = app.state.selections.finding_offset;

    app.apply_action(Action::Move(MoveDirection::Home));
    assert_eq!(app.state.selections.finding_index, 0);
    assert_eq!(app.state.selections.finding_offset, 0);

    for _ in 0..10 {
        app.apply_action(Action::Move(MoveDirection::Down));
    }
    let sel = app.state.selections.finding_index;
    let off = app.state.selections.finding_offset;
    assert!(sel >= off, "selection ({sel}) must not be above the viewport (offset {off})");
    assert!(off <= sel, "offset ({off}) must not exceed selection ({sel})");

    app.state.apply_filter("MULE-000");
    assert!(
        app.state.selections.finding_offset < app.state.visible_findings.len(),
        "filter must clamp finding_offset (got {}, vis len {})",
        app.state.selections.finding_offset,
        app.state.visible_findings.len()
    );
    app.state.clear_filter();
    let _ = end_offset;
}

#[test]
fn enter_opens_finding_detail_page() {
    let mut app = App::browsing(make_outcome());
    app.state.current_page = PageId::Findings;
    app.apply_action(Action::Enter);
    assert_eq!(app.state.current_page, PageId::FindingDetail);
}

#[test]
fn page_shortcut_keys_change_page() {
    let app = App::browsing(make_outcome());
    let cases = [
        (PageId::Findings, 'f'),
        (PageId::Flows, 'g'),
        (PageId::Diagnostics, 'd'),
        (PageId::ScanProgress, 'p'),
    ];
    for (page, ch) in cases {
        let action = app.global_keymap(Key::Char(ch));
        let Some(Action::Page(p)) = action else {
            panic!("expected page action for {ch}, got {action:?}");
        };
        assert_eq!(p, page);
    }
    let action = app.global_keymap(Key::Char('r'));
    assert!(matches!(action, Some(Action::Other(_))));
}

#[test]
fn quit_shortcut_sets_cancel_flag() {
    let mut app = App::browsing(make_outcome());
    let action = app.global_keymap(Key::Char('q'));
    app.apply_action(action.unwrap());
    assert!(app.cancel);
}

#[test]
fn scanner_event_progression_updates_state() {
    let mut app = App::new();
    app.state.apply_event(ScanEvent::Started { project: "demo".to_string() });
    app.state.apply_event(ScanEvent::XmlParsed {
        path: "src/main/mule/order-api.xml".to_string(),
        flows: 1,
    });
    app.state.apply_event(ScanEvent::RulesLoaded { rule_count: 3 });
    app.state.apply_event(ScanEvent::RuleCompleted {
        rule_id: "MULE-001".to_string(),
        findings: 1,
    });
    app.state.apply_event(ScanEvent::Finding(Finding::deterministic(
        "MULE-001",
        Severity::Warning,
        "demo",
        "demo",
    )));
    app.state.apply_event(ScanEvent::ReportWritten {
        format: ReportFormat::Markdown,
        path: "./out/report.md".to_string(),
    });
    assert_eq!(app.state.progress.parsed_flows, 1);
    assert_eq!(app.state.progress.rules_loaded, 3);
    assert_eq!(app.state.progress.rules_completed, 1);
    assert_eq!(app.state.progress.finding_count, 1);
    assert_eq!(app.state.report_paths.len(), 1);
}

#[test]
fn dispatching_key_event_routes_to_global_keymap() {
    let mut app = App::browsing(make_outcome());
    app.dispatch(Event::Key(Key::Char('f')));
    assert_eq!(app.state.current_page, PageId::Findings);
}

#[test]
fn panel_cycle_advances_and_wraps() {
    let app = App::browsing(make_outcome());
    let start = app.state.focused_panel;
    let next = start.cycle(Cycle::Forward);
    assert_ne!(next, start);
    let back = next.cycle(Cycle::Backward);
    assert_eq!(back, start);
}

#[test]
fn source_span_is_preserved_through_state() {
    let span = SourceSpan {
        file: "src/main/mule/order-api.xml".to_string(),
        start_line: 12,
        start_column: 5,
        end_line: 12,
        end_column: 24,
    };
    let f = Finding::deterministic("MULE-001", Severity::Critical, "title", "msg").with_source(span);
    let app = App::browsing(empty_outcome(vec![f]));
    let f = app.state.findings.first().unwrap();
    assert_eq!(f.source.as_ref().unwrap().start_line, 12);
}

#[test]
fn origin_field_round_trips() {
    let mut f = Finding::deterministic("MULE-001", Severity::Critical, "t", "m");
    f.origin = FindingOrigin::ParserDiagnostic;
    let app = App::browsing(empty_outcome(vec![f]));
    assert_eq!(app.state.findings[0].origin, FindingOrigin::ParserDiagnostic);
}

#[test]
fn filter_narrows_findings() {
    let mut app = App::browsing(make_outcome());
    let before = app.state.findings.len();
    let changed = app.state.apply_filter("Default");
    assert!(changed);
    assert!(app.state.findings.len() == before);
    assert!(app.state.visible_findings.len() < before);
    assert!(!app.state.visible_findings.is_empty());
    app.state.clear_filter();
    assert_eq!(app.state.visible_findings.len(), before);
}

#[test]
fn short_path_handles_non_ascii() {
    let path = "C:/projetos/mulesoft/src/main/mule/订单/order-api.xml";
    let out = runnerguard::tui::view::short_path(path, 28);
    assert!(out.contains('…'));
    let short = "short.xml";
    assert_eq!(runnerguard::tui::view::short_path(short, 28), short);
    let exact = "x".repeat(28);
    assert_eq!(runnerguard::tui::view::short_path(&exact, 28), exact);
}

#[test]
fn config_loaded_event_is_recorded() {
    let mut app = App::new();
    app.state.apply_event(ScanEvent::ConfigLoaded {
        config_path: "/tmp/runnerguard.yaml".to_string(),
    });
    assert_eq!(app.state.config_path.as_deref(), Some("/tmp/runnerguard.yaml"));
}

#[test]
fn finding_events_accumulate_into_live_state() {
    let mut app = App::new();
    for (idx, rid) in ["MULE-001", "MULE-002", "MULE-003"].iter().enumerate() {
        let mut f = Finding::deterministic(rid, Severity::Warning, "title", &format!("message {idx}"));
        f.origin = FindingOrigin::DeterministicRule;
        app.state.apply_event(ScanEvent::Finding(f));
    }
    assert_eq!(app.state.findings.len(), 3);
    assert_eq!(app.state.visible_findings.len(), 3);
    assert_eq!(app.state.progress.finding_count, 3);
    let mut summary = ScanSummary::default();
    summary.findings_total = 3;
    app.state.apply_event(ScanEvent::Finished { summary });
    assert_eq!(app.state.findings.len(), 3);
    assert_eq!(app.state.visible_findings.len(), 3);
    assert!(!app.state.running, "Finished event must clear `running`");
}
