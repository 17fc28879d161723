use hydra_check::builds::BuildStatus;
use hydra_check::icons::StatusIcon;

#[test]
fn icons_serialize_success_icon() {
    let success_icon = StatusIcon::Succeeded.to_json();
    assert_eq!(success_icon, r#""✔""#);
}

#[test]
fn parse_serialize_success_icon() {
    let success_icon = StatusIcon::Succeeded.to_json();
    assert_eq!(success_icon, r#""✔""#);
}

#[test]
fn build_serialize_success_icon() {
    let success_icon = StatusIcon::Succeeded.to_json();
    assert_eq!(success_icon, r#""✔""#);
}

#[test]
fn icon_glyphs() {
    assert_eq!(StatusIcon::Succeeded.glyph(), "✔");
    assert_eq!(StatusIcon::Failed.glyph(), "✖");
    assert_eq!(StatusIcon::Cancelled.glyph(), "⏹");
    assert_eq!(StatusIcon::Queued.glyph(), "⧖");
    assert_eq!(StatusIcon::Warning.glyph(), "⚠");
}

#[test]
fn default_build_status_is_empty_warning() {
    let b = BuildStatus::default();
    assert!(matches!(b.icon, StatusIcon::Warning));
    assert!(!b.success);
    assert!(!b.evals);
    assert_eq!(b.status, "");
    assert!(b.timestamp.is_none());
    assert!(b.build_id.is_none());
    assert!(b.build_url.is_none());
    assert!(b.name.is_none());
    assert!(b.arch.is_none());
    assert!(b.job_name.is_none());
}

#[test]
fn json_omits_absent_fields() {
    let b = BuildStatus::default();
    let json = b.to_json();
    assert_eq!(json, "{\"icon\":\"⚠\",\"success\":false,\"status\":\"\",\"evals\":false}");
    let value: serde_json::Value = serde_json::from_str(&json).unwrap();
    let obj = value.as_object().unwrap();
    assert_eq!(obj.len(), 4);
    assert!(obj.contains_key("icon"));
    assert!(obj.contains_key("success"));
    assert!(obj.contains_key("status"));
    assert!(obj.contains_key("evals"));
    assert!(!obj.contains_key("timestamp"));
    assert!(!obj.contains_key("build_id"));
    assert!(!obj.contains_key("build_url"));
    assert!(!obj.contains_key("name"));
    assert!(!obj.contains_key("arch"));
    assert!(!obj.contains_key("job_name"));
}

#[test]
fn json_escapes_status_text() {
    let mut b = BuildStatus::default();
    b.status = "a \"quoted\"\nline\tand \\ more \u{1}\u{8}\u{c}".to_string();
    let json = b.to_json();
    assert!(json.contains("\\u0001"));
    assert!(json.contains("\\b"));
    assert!(json.contains("\\f"));
    let value: serde_json::Value = serde_json::from_str(&json).unwrap();
    assert_eq!(
        value.get("status").unwrap().as_str().unwrap(),
        "a \"quoted\"\nline\tand \\ more \u{1}\u{8}\u{c}",
    );
}

#[test]
fn json_keeps_present_fields_in_order() {
    let mut b = BuildStatus::default();
    b.success = true;
    b.evals = true;
    b.icon = StatusIcon::Succeeded;
    b.status = "Succeeded".to_string();
    b.timestamp = Some("2024-01-01T00:00:00Z".to_string());
    b.build_id = Some("1234".to_string());
    b.build_url = Some("/build/1234".to_string());
    b.name = Some("hello-1.0".to_string());
    b.arch = Some("x86_64-linux".to_string());
    let json = b.to_json();
    assert_eq!(
        json,
        "{\"icon\":\"✔\",\"success\":true,\"status\":\"Succeeded\",\
         \"timestamp\":\"2024-01-01T00:00:00Z\",\"build_id\":\"1234\",\
         \"build_url\":\"/build/1234\",\"name\":\"hello-1.0\",\
         \"arch\":\"x86_64-linux\",\"evals\":true}",
    );
}

#[test]
fn build_status_cells() {
    let mut b = BuildStatus::default();
    b.success = true;
    b.evals = true;
    b.icon = StatusIcon::Succeeded;
    b.status = "Succeeded".to_string();
    b.timestamp = Some("2024-01-01T00:00:00Z".to_string());
    b.build_url = Some("/build/1234".to_string());
    b.name = Some("hello-1.0".to_string());
    let cells = b.format_cells();
    assert_eq!(cells, vec!["✔", "hello-1.0", "2024-01-01", "/build/1234"]);

    let mut failed = b.clone();
    failed.success = false;
    failed.icon = StatusIcon::Failed;
    failed.status = "Dependency failed".to_string();
    let cells = failed.format_cells();
    assert_eq!(cells[0], "✖ (Dependency failed)");

    let mut queued = BuildStatus::default();
    queued.icon = StatusIcon::Queued;
    queued.status = "Queued".to_string();
    let cells = queued.format_cells();
    assert_eq!(cells, vec!["⧖ Queued", ""]);
}
