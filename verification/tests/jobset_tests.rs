use hydra_check::args::ResolvedArgs;
use hydra_check::icons::StatusIcon;
use hydra_check::jobset::JobsetStatus;
use hydra_check::rows::ParseError;

fn resolved(jobset: &str) -> ResolvedArgs {
    ResolvedArgs {
        packages: vec![],
        url: false,
        json: false,
        short: false,
        jobset: jobset.to_string(),
        eval: vec![],
        verbose: false,
    }
}

fn eval_row(id: &str, succeeded: &str, failed: &str, queued: &str, delta: &str) -> String {
    format!(
        "<tr>\
         <td><a href=\"/eval/{id}\">{id}</a></td>\
         <td><time datetime=\"2024-05-01T10:00:00Z\" data-timestamp=\"1714557600\">5 days ago</time></td>\
         <td><span>Queued</span><tt>abc1234</tt> input change</td>\
         <td>{succeeded}</td><td>{failed}</td><td>{queued}</td><td>{delta}</td>\
         </tr>",
    )
}

fn page(rows: &str) -> String {
    format!("<html><body><table><tbody>{rows}</tbody></table></body></html>")
}

#[test]
fn jobset_url_shape() {
    let stat = JobsetStatus::from_args(&resolved("nixos/trunk-combined"));
    assert_eq!(stat.get_url(), "https://hydra.nixos.org/jobset/nixos/trunk-combined/evals");
}

#[test]
fn eval_row_parses_every_field() {
    let stat = JobsetStatus::from_args(&resolved("nixpkgs/trunk"));
    let stat = stat.read_from_html(&page(&eval_row("999", "10", "2", "3", "+1"))).unwrap();
    assert_eq!(stat.evals.len(), 1);
    let e = &stat.evals[0];
    assert!(matches!(e.icon, StatusIcon::Queued));
    assert_eq!(e.finished, Some(false));
    assert_eq!(e.id, Some(999));
    assert_eq!(e.url.as_deref(), Some("/eval/999"));
    assert_eq!(e.datetime.as_deref(), Some("2024-05-01T10:00:00Z"));
    assert_eq!(e.relative.as_deref(), Some("5 days ago"));
    assert_eq!(e.timestamp, Some(1714557600));
    assert_eq!(e.status, "Queued");
    assert_eq!(e.short_rev.as_deref(), Some("abc1234"));
    assert_eq!(e.input_changes.as_deref(), Some("abc1234 input change"));
    assert_eq!(e.succeeded, Some(10));
    assert_eq!(e.failed, Some(2));
    assert_eq!(e.queued, Some(3));
    assert_eq!(e.delta.as_deref(), Some("+1"));
}

#[test]
fn empty_queued_cell_counts_as_zero_and_finishes() {
    let stat = JobsetStatus::from_args(&resolved("nixpkgs/trunk"));
    let stat = stat.read_from_html(&page(&eval_row("1000", "10", "2", "", ""))).unwrap();
    let e = &stat.evals[0];
    assert_eq!(e.queued, Some(0));
    assert_eq!(e.finished, Some(true));
    assert!(matches!(e.icon, StatusIcon::Succeeded));
    assert_eq!(e.delta, None);
}

#[test]
fn non_numeric_count_cell_fails() {
    let stat = JobsetStatus::from_args(&resolved("nixpkgs/trunk"));
    let err = stat.read_from_html(&page(&eval_row("1000", "10", "x2", "0", ""))).unwrap_err();
    match err {
        ParseError::BadNumber { text } => assert_eq!(text, "x2"),
        other => panic!("expected a number error, got {other:?}"),
    }
}

#[test]
fn latest_eval_id_reads_first_row() {
    let stat = JobsetStatus::from_args(&resolved("nixpkgs/trunk"));
    let rows = format!("{}{}", eval_row("42", "1", "0", "0", ""), eval_row("41", "1", "0", "0", ""));
    let stat = stat.read_from_html(&page(&rows)).unwrap();
    assert_eq!(stat.latest_eval_id(), Some(42));
}

#[test]
fn jobset_error_page_yields_placeholder() {
    let stat = JobsetStatus::from_args(&resolved("nixpkgs/nope"));
    let html = "<html><body><div class=\"alert\">No such jobset</div></body></html>";
    let stat = stat.read_from_html(html).unwrap();
    assert_eq!(stat.evals.len(), 1);
    assert!(matches!(stat.evals[0].icon, StatusIcon::Warning));
    assert_eq!(stat.evals[0].status, "No such jobset");
    assert_eq!(stat.evals[0].finished, None);
    assert_eq!(stat.evals[0].queued, None);
}

#[test]
fn eval_status_json_uses_numbers_and_omits_absent() {
    let stat = JobsetStatus::from_args(&resolved("nixpkgs/trunk"));
    let stat = stat.read_from_html(&page(&eval_row("999", "10", "2", "", ""))).unwrap();
    let json = hydra_check::jobset::evals_to_json(&stat.evals);
    let value: serde_json::Value = serde_json::from_str(&json).unwrap();
    let e = &value.as_array().unwrap()[0];
    assert_eq!(e.get("id").unwrap().as_u64().unwrap(), 999);
    assert_eq!(e.get("queued").unwrap().as_u64().unwrap(), 0);
    assert_eq!(e.get("finished").unwrap().as_bool().unwrap(), true);
    assert_eq!(e.get("timestamp").unwrap().as_u64().unwrap(), 1714557600);
    assert!(e.get("delta").is_none());
    assert_eq!(e.get("icon").unwrap().as_str().unwrap(), "✔");
}

#[test]
fn eval_status_cells_render_counts() {
    let stat = JobsetStatus::from_args(&resolved("nixpkgs/trunk"));
    let stat = stat.read_from_html(&page(&eval_row("999", "10", "2", "3", "+1"))).unwrap();
    let cells = stat.evals[0].format_cells();
    assert_eq!(
        cells,
        vec![
            "⧖ abc1234 input change",
            "5 days ago",
            "✔ 10",
            "✖ 2",
            "⧖ 3",
            "Δ +1",
            "/eval/999",
        ],
    );
}
