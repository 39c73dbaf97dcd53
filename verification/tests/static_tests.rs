use url_map::router::{route, route_status, RouteOutcome};
use url_map::source::StaticSource;
use url_map::store::MappingEntry;

fn entries_from_json(text: &str) -> Vec<MappingEntry> {
    let value: serde_json::Value = serde_json::from_str(text).expect("valid JSON");
    value
        .as_array()
        .expect("a JSON list")
        .iter()
        .map(|record| MappingEntry {
            path: record.get("path").and_then(|v| v.as_str()).expect("a path").to_string(),
            url: record.get("url").and_then(|v| v.as_str()).expect("a url").to_string(),
        })
        .collect()
}

#[test]
fn static_mapping_from_json_serves_redirect_and_diagnostic() {
    let entries = entries_from_json(r#"[{"path":"/docs","url":"https://example.com/docs"}]"#);
    let source = StaticSource::from_entries(&entries);

    let hit = route(&source, "/docs");
    assert_eq!(route_status(&hit), 303);
    match hit {
        RouteOutcome::Redirect(u) => assert_eq!(u, "https://example.com/docs"),
        _ => panic!("expected a redirect for /docs"),
    }

    let miss = route(&source, "/other");
    assert_eq!(route_status(&miss), 200);
    match miss {
        RouteOutcome::Diagnostic(body) => assert!(body.contains("other")),
        _ => panic!("expected the diagnostic page for /other"),
    }
}

#[test]
fn static_mapping_with_several_records() {
    let entries = entries_from_json(
        r#"[{"path":"/a","url":"http://one"},{"path":"/b","url":"http://two"}]"#,
    );
    let source = StaticSource::from_entries(&entries);
    match route(&source, "/b") {
        RouteOutcome::Redirect(u) => assert_eq!(u, "http://two"),
        _ => panic!("expected a redirect for /b"),
    }
}
