//! Parser tests on small in-memory Mule projects.

use runnerguard::model::{SourceFile, SourceFileKind};
use runnerguard::parser::project::{FileContent, ProjectFiles};
use runnerguard::parser::{parse_project, ParseOptions};

fn xml_for(body: &str) -> String {
    format!(
        r#"<?xml version="1.0" encoding="UTF-8"?>
<mule xmlns="http://www.mulesoft.org/schema/mule/core"
      xmlns:http="http://www.mulesoft.org/schema/mule/http"
      xmlns:ee="http://www.mulesoft.org/schema/mule/ee/core"
      xmlns:xsi="http://www.w3.org/2001/XMLSchema-instance">

{body}
</mule>
"#
    )
}

fn one_file(path: &str, text: &str) -> (ProjectFiles, Vec<FileContent>) {
    let files = ProjectFiles {
        root: "/project".to_string(),
        files: vec![SourceFile::new(path, text.len() as u64, SourceFileKind::MuleXml)],
    };
    (files, vec![FileContent::Bytes(text.as_bytes().to_vec())])
}

#[test]
fn parses_a_simple_http_flow() {
    let body = r#"
    <http:listener-config name="httpListenerConfig">
        <http:listener-connection host="0.0.0.0" port="${http.port}" />
    </http:listener-config>

    <flow name="order-api-flow">
        <http:listener config-ref="httpListenerConfig" path="/orders" />
        <set-payload value="ok" />
    </flow>
"#;
    let (files, contents) = one_file("order-api.xml", &xml_for(body));
    let parsed = parse_project(&files, &contents, &ParseOptions::default()).unwrap();
    assert!(parsed.diagnostics.is_empty(), "diagnostics: {:?}", parsed.diagnostics);
    assert_eq!(parsed.project.documents.len(), 1);
    let doc = &parsed.project.documents[0];
    assert_eq!(doc.flows.len(), 1);
    assert_eq!(doc.flows[0].name, "order-api-flow");
    let facts = &doc.flows[0].facts;
    assert!(facts.component_count >= 2, "got {}", facts.component_count);
    assert!(!facts.has_local_error_handler);
    assert_eq!(facts.source_component.as_deref(), Some("http:listener"));
}

#[test]
fn parses_subflow_and_records_unresolved_reference() {
    let body = r#"
    <flow name="caller">
        <flow-ref name="missing-subflow" />
    </flow>
"#;
    let (files, contents) = one_file("caller.xml", &xml_for(body));
    let parsed = parse_project(&files, &contents, &ParseOptions::default()).unwrap();
    let doc = &parsed.project.documents[0];
    assert_eq!(doc.flows.len(), 1);
    assert_eq!(doc.flows[0].facts.flow_refs.len(), 1);
    assert_eq!(doc.flows[0].facts.flow_refs[0].target, "missing-subflow");
    assert_eq!(parsed.project.index.unresolved_flow_refs.len(), 1);
}

#[test]
fn dataweave_cdata_is_extracted() {
    let body = r#"
    <flow name="transform">
        <set-payload><![CDATA[
%dw 2.0
output application/json
---
{ status: "ok" }
        ]]></set-payload>
    </flow>
"#;
    let (files, contents) = one_file("transform.xml", &xml_for(body));
    let parsed = parse_project(&files, &contents, &ParseOptions::default()).unwrap();
    let doc = &parsed.project.documents[0];
    assert_eq!(doc.flows[0].facts.dataweave_blocks.len(), 1);
    assert!(doc.flows[0].facts.dataweave_blocks[0].content.contains("%dw 2.0"));
}

#[test]
fn invalid_xml_emits_a_diagnostic_and_does_not_panic() {
    let (files, contents) = one_file("broken.xml", "<mule><flow");
    let parsed = parse_project(&files, &contents, &ParseOptions::default()).unwrap();
    assert!(!parsed.diagnostics.is_empty());
}

#[test]
fn empty_project_yields_diagnostic_but_no_panic() {
    let files = ProjectFiles { root: "/project".to_string(), files: Vec::new() };
    let parsed = parse_project(&files, &Vec::new(), &ParseOptions::default()).unwrap();
    assert!(parsed.diagnostics.iter().any(|d| d.message.contains("No Mule XML")));
}

#[test]
fn source_spans_track_real_line_numbers() {
    let xml = r#"<?xml version="1.0" encoding="UTF-8"?>
<mule xmlns="http://www.mulesoft.org/schema/mule/core"
      xmlns:http="http://www.mulesoft.org/schema/mule/http">

<!-- line 5 -->
<flow name="late-flow">
    <http:listener config-ref="httpListenerConfig" path="/api"/>
</flow>
</mule>
"#;
    let (files, contents) = one_file("src/main/mule/late.xml", xml);
    let parsed = parse_project(&files, &contents, &ParseOptions::default()).unwrap();
    let flow = parsed
        .project
        .documents
        .first()
        .and_then(|d| d.flows.first())
        .expect("flow must be parsed");
    assert!(
        flow.source.start_line >= 5,
        "flow source line should reflect the XML, got {}",
        flow.source.start_line
    );
}

#[test]
fn text_accumulator_keeps_adjacent_runs() {
    let xml = r#"<?xml version="1.0" encoding="UTF-8"?>
<mule xmlns="http://www.mulesoft.org/schema/mule/core">
<flow name="text-flow">
<set-payload value="foo"/>
<set-variable variableName="x" value="bar"/>
</flow>
</mule>
"#;
    let (files, contents) = one_file("src/main/mule/text.xml", xml);
    let parsed = parse_project(&files, &contents, &ParseOptions::default()).unwrap();
    assert!(parsed.diagnostics.is_empty(), "diagnostics should be empty: {:?}", parsed.diagnostics);
}
