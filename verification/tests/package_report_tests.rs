use hydra_check::args::ResolvedArgs;
use hydra_check::builds::PackageStatus;
use hydra_check::icons::StatusIcon;
use hydra_check::rows::ParseError;

fn resolved(jobset: &str) -> ResolvedArgs {
    ResolvedArgs {
        packages: vec![],
        url: false,
        json: false,
        short: false,
        jobset: jobset.to_string(),
        eval: vec![],
        verbose: false,
    }
}

fn report(package: &str) -> PackageStatus {
    PackageStatus::from_package_with_args(package, &resolved("nixpkgs/trunk"))
}

const SUCCEEDED_ROW: &str = "<tr>\
    <td><img src=\"/s.png\" title=\"Succeeded\"/></td>\
    <td><a href=\"/build/1234\">1234</a></td>\
    <td><time datetime=\"2024-01-01T00:00:00Z\">2024-01-01</time></td>\
    <td>hello-1.0</td>\
    <td><tt>x86_64-linux</tt></td>\
    </tr>";

fn page(rows: &str) -> String {
    format!("<html><body><table><tbody>{rows}</tbody></table></body></html>")
}

#[test]
fn report_url_shape() {
    let stat = report("hello.x86_64-linux");
    assert_eq!(stat.get_url(), "https://hydra.nixos.org/job/nixpkgs/trunk/hello.x86_64-linux");
}

#[test]
fn succeeded_row_end_to_end() {
    let stat = report("hello.x86_64-linux").read_from_html(&page(SUCCEEDED_ROW)).unwrap();
    assert_eq!(stat.builds.len(), 1);
    let b = &stat.builds[0];
    assert!(matches!(b.icon, StatusIcon::Succeeded));
    assert!(b.success);
    assert!(b.evals);
    assert_eq!(b.status, "Succeeded");
    assert_eq!(b.timestamp.as_deref(), Some("2024-01-01T00:00:00Z"));
    assert_eq!(b.build_id.as_deref(), Some("1234"));
    assert_eq!(b.build_url.as_deref(), Some("/build/1234"));
    assert_eq!(b.name.as_deref(), Some("hello-1.0"));
    assert_eq!(b.arch.as_deref(), Some("x86_64-linux"));
    assert!(b.job_name.is_none());
    assert!(stat.first_success());
}

#[test]
fn failed_and_cancelled_rows_map_icons() {
    let rows = SUCCEEDED_ROW.replace("Succeeded", "Dependency failed");
    let stat = report("hello").read_from_html(&page(&rows)).unwrap();
    assert!(matches!(stat.builds[0].icon, StatusIcon::Failed));
    assert!(!stat.builds[0].success);
    assert_eq!(stat.builds[0].status, "Dependency failed");

    let rows = SUCCEEDED_ROW.replace("Succeeded", "Cancelled");
    let stat = report("hello").read_from_html(&page(&rows)).unwrap();
    assert!(matches!(stat.builds[0].icon, StatusIcon::Cancelled));
    assert!(!stat.builds[0].success);
}

#[test]
fn queued_row_has_no_details() {
    let rows = "<tr><td><span>Queued</span></td><td></td><td></td><td></td><td></td></tr>";
    let stat = report("hello").read_from_html(&page(rows)).unwrap();
    assert_eq!(stat.builds.len(), 1);
    let b = &stat.builds[0];
    assert!(matches!(b.icon, StatusIcon::Queued));
    assert!(!b.success);
    assert!(!b.evals);
    assert_eq!(b.status, "Queued: no build has been attempted for this package yet (still queued)");
    assert!(b.timestamp.is_none());
    assert!(b.build_id.is_none());
    assert!(b.build_url.is_none());
    assert!(b.name.is_none());
    assert!(b.arch.is_none());
    assert!(!stat.first_success());
}

#[test]
fn unknown_span_status_is_reported() {
    let rows = "<tr><td><span>Scheduled</span></td><td></td><td></td><td></td><td></td></tr>";
    let stat = report("hello").read_from_html(&page(rows)).unwrap();
    assert_eq!(stat.builds[0].status, "Unknown Hydra status: Scheduled");
}

#[test]
fn row_order_is_preserved() {
    let rows = format!(
        "{}{}{}",
        SUCCEEDED_ROW.replace("1234", "3"),
        SUCCEEDED_ROW.replace("1234", "2"),
        SUCCEEDED_ROW.replace("1234", "1"),
    );
    let stat = report("hello").read_from_html(&page(&rows)).unwrap();
    let ids: Vec<&str> = stat.builds.iter().map(|b| b.build_id.as_deref().unwrap()).collect();
    assert_eq!(ids, vec!["3", "2", "1"]);
}

#[test]
fn skippable_link_rows_are_silent() {
    let rows = format!(
        "<tr><td><a href=\"/job/nixpkgs/trunk/hello/all\">all</a></td></tr>\
         {SUCCEEDED_ROW}\
         <tr><td><a href=\"/job/hello?full=1\">full</a></td></tr>",
    );
    let stat = report("hello").read_from_html(&page(&rows)).unwrap();
    assert_eq!(stat.builds.len(), 1);
    assert!(stat.builds[0].success);
}

#[test]
fn malformed_row_fails_with_markup() {
    let rows = "<tr><td><a href=\"/build/1\">1</a></td><td>x</td><td>y</td></tr>";
    let err = report("hello").read_from_html(&page(rows)).unwrap_err();
    match err {
        ParseError::Shape { context, html } => {
            assert_eq!(context, "hello");
            assert!(html.contains("<tr>"));
            assert!(html.contains("/build/1"));
        },
        other => panic!("expected a shape error, got {other:?}"),
    }
}

#[test]
fn missing_table_with_alert_becomes_warning_record() {
    let html = "<html><body><div class=\"alert\">Evaluation of this attribute failed</div>\
                </body></html>";
    let stat = report("hello").read_from_html(html).unwrap();
    assert_eq!(stat.builds.len(), 1);
    let b = &stat.builds[0];
    assert!(matches!(b.icon, StatusIcon::Warning));
    assert_eq!(b.status, "Evaluation of this attribute failed");
    assert!(!stat.first_success());
}

#[test]
fn missing_table_without_alert_names_selector_and_url() {
    let html = "<html><body><p>nothing here</p></body></html>";
    let stat = report("hello").read_from_html(html).unwrap();
    assert_eq!(stat.builds.len(), 1);
    assert_eq!(
        stat.builds[0].status,
        "Unknown Hydra Error with 'tbody' found at https://hydra.nixos.org/job/nixpkgs/trunk/hello",
    );
}

#[test]
fn alert_text_is_collapsed_to_one_line() {
    let html = "<html><body><div class=\"alert\">  first line \n\n   second line  \n</div>\
                </body></html>";
    let stat = report("hello").read_from_html(html).unwrap();
    assert_eq!(stat.builds[0].status, "first line  second line");
}

#[test]
fn six_column_data_row_breaks_a_package_report() {
    let rows = "<tr>\
        <td><img src=\"/s.png\" title=\"Succeeded\"/></td>\
        <td><a href=\"/build/7\">7</a></td>\
        <td><time datetime=\"2024-02-02T00:00:00Z\">2024-02-02</time></td>\
        <td>hello.x86_64-linux</td>\
        <td>hello-1.0</td>\
        <td><tt>x86_64-linux</tt></td>\
        </tr>";
    let err = report("hello").read_from_html(&page(rows)).unwrap_err();
    assert!(matches!(err, ParseError::Shape { .. }));
}

#[test]
fn six_column_link_row_is_skipped_in_a_package_report() {
    let rows = format!(
        "<tr><td><a href=\"/job/nixpkgs/trunk/hello/all\">all</a></td>\
         <td></td><td></td><td></td><td></td><td></td></tr>\
         {SUCCEEDED_ROW}",
    );
    let stat = report("hello").read_from_html(&page(&rows)).unwrap();
    assert_eq!(stat.builds.len(), 1);
    assert!(stat.builds[0].success);
}

#[test]
fn builds_to_json_is_an_array_in_order() {
    let rows = format!("{}{}", SUCCEEDED_ROW, SUCCEEDED_ROW.replace("1234", "99"));
    let stat = report("hello").read_from_html(&page(&rows)).unwrap();
    let json = hydra_check::builds::builds_to_json(&stat.builds);
    let value: serde_json::Value = serde_json::from_str(&json).unwrap();
    let arr = value.as_array().unwrap();
    assert_eq!(arr.len(), 2);
    assert_eq!(arr[0].get("build_id").unwrap().as_str().unwrap(), "1234");
    assert_eq!(arr[1].get("build_id").unwrap().as_str().unwrap(), "99");
}

#[test]
fn six_column_queued_row_breaks_a_package_report() {
    let rows = "<tr><td><span>Queued</span></td><td></td><td></td><td></td><td></td><td></td></tr>";
    let err = report("hello").read_from_html(&page(rows)).unwrap_err();
    assert!(matches!(err, ParseError::Shape { .. }));
}
