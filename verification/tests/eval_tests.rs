use hydra_check::eval::{EvalDetails, Evaluation};
use hydra_check::icons::StatusIcon;

fn details(spec: &str) -> EvalDetails {
    EvalDetails::from_eval(Evaluation::guess_from_spec(spec))
}

fn inputs_row(name: &str, ty: &str, value: &str, revision: &str, store_path: &str) -> String {
    format!(
        "<tr><td>{name}</td><td>{ty}</td><td>{value}</td><td>{revision}</td>\
         <td>{store_path}</td></tr>",
    )
}

fn eval_page(input_rows: &str, second_table: &str) -> String {
    format!(
        "<html><body><div id=\"tabs-inputs\">\
         <table><tbody>{input_rows}</tbody></table>\
         {second_table}\
         </div></body></html>",
    )
}

fn changes_table(href: &str, description: &str) -> String {
    format!(
        "<table><tbody>\
         <tr><th>Input</th><th>Changes</th></tr>\
         <tr><td>nixpkgs</td><td><a href=\"{href}\">{description}</a></td></tr>\
         </tbody></table>",
    )
}

#[test]
fn guess_from_spec_reads_id_and_filter() {
    let e = Evaluation::guess_from_spec("1809297");
    assert_eq!(e.id, 1809297);
    assert_eq!(e.filter, None);
    assert_eq!(e.spec_text, "1809297");

    let e = Evaluation::guess_from_spec("1809297/coreutils");
    assert_eq!(e.id, 1809297);
    assert_eq!(e.filter.as_deref(), Some("coreutils"));

    let e = Evaluation::guess_from_spec("not-a-number");
    assert_eq!(e.id, 0);
}

#[test]
fn eval_url_shape() {
    assert_eq!(details("1809297").get_url(), "https://hydra.nixos.org/eval/1809297");
    assert_eq!(
        details("1809297/coreutils").get_url(),
        "https://hydra.nixos.org/eval/1809297?filter=coreutils",
    );
}

#[test]
fn inputs_rows_trim_and_blank_cells_are_absent() {
    let rows = inputs_row("nixpkgs", "Git checkout", " value ", "abc123", "")
        + &inputs_row(" officialRelease ", "Boolean", "false", " ", "  ");
    let stat = details("1").read_from_html(&eval_page(&rows, "")).unwrap();
    assert_eq!(stat.inputs.len(), 2);
    let a = &stat.inputs[0];
    assert_eq!(a.name.as_deref(), Some("nixpkgs"));
    assert_eq!(a.input_type.as_deref(), Some("Git checkout"));
    assert_eq!(a.value.as_deref(), Some("value"));
    assert_eq!(a.revision.as_deref(), Some("abc123"));
    assert_eq!(a.store_path, None);
    let b = &stat.inputs[1];
    assert_eq!(b.name.as_deref(), Some("officialRelease"));
    assert_eq!(b.revision, None);
    assert_eq!(b.store_path, None);
}

#[test]
fn input_changes_read_revs_from_diff_url_in_any_order() {
    let table = changes_table(
        "/api/diff?rev2=def456&branch=master&rev1=abc123",
        "abc123 to def456",
    );
    let stat = details("1").read_from_html(&eval_page(&inputs_row("a", "b", "c", "d", "e"), &table))
        .unwrap();
    assert_eq!(stat.changes.len(), 1);
    let c = &stat.changes[0];
    assert_eq!(c.input, "nixpkgs");
    assert_eq!(c.description, "abc123 to def456");
    assert_eq!(c.url.as_deref(), Some("/api/diff?rev2=def456&branch=master&rev1=abc123"));
    assert_eq!(
        c.revs,
        Some(("abc123".to_string(), "def456".to_string())),
    );
    assert_eq!(
        c.short_revs,
        Some(("abc123".to_string(), "def456".to_string())),
    );
}

#[test]
fn input_changes_extractions_are_independent() {
    let table = changes_table("/api/diff?rev1=abc123", "updated by the bot");
    let stat = details("1").read_from_html(&eval_page(&inputs_row("a", "b", "c", "d", "e"), &table))
        .unwrap();
    let c = &stat.changes[0];
    assert_eq!(c.revs, None);
    assert_eq!(c.short_revs, None);
    assert_eq!(c.description, "updated by the bot");
}

#[test]
fn missing_changes_table_leaves_section_empty() {
    let stat = details("1").read_from_html(&eval_page(&inputs_row("a", "b", "c", "d", "e"), ""))
        .unwrap();
    assert_eq!(stat.changes.len(), 0);
}

#[test]
fn missing_inputs_table_yields_placeholder() {
    let html = "<html><body><div class=\"alert\">Invalid evaluation</div></body></html>";
    let stat = details("1").read_from_html(html).unwrap();
    assert_eq!(stat.inputs.len(), 1);
    assert_eq!(stat.inputs[0].name.as_deref(), Some(StatusIcon::Warning.glyph()));
    assert_eq!(stat.inputs[0].value.as_deref(), Some("Invalid evaluation"));
}

#[test]
fn bucket_tables_fill_their_sections() {
    let bucket = "<div id=\"tabs-still-succeed\"><table><tbody><tr>\
        <td><img title=\"Succeeded\"/></td>\
        <td><a href=\"/build/5\">5</a></td>\
        <td><time datetime=\"2024-03-03T00:00:00Z\">x</time></td>\
        <td>hello.x86_64-linux</td>\
        <td>hello-1.0</td>\
        <td><tt>x86_64-linux</tt></td>\
        </tr></tbody></table></div>";
    let html = format!(
        "<html><body><div id=\"tabs-inputs\"><table><tbody>{}</tbody></table></div>{}</body></html>",
        inputs_row("a", "b", "c", "d", "e"),
        bucket,
    );
    let stat = details("1").read_from_html(&html).unwrap();
    assert_eq!(stat.still_succeed.len(), 1);
    assert!(stat.still_succeed[0].success);
    assert_eq!(stat.still_succeed[0].job_name.as_deref(), Some("hello.x86_64-linux"));
    assert_eq!(stat.still_succeed[0].name.as_deref(), Some("hello-1.0"));
    assert_eq!(stat.aborted.len(), 0);
    assert_eq!(stat.unfinished.len(), 0);
}

#[test]
fn five_column_bucket_row_leaves_the_section_empty() {
    let bucket = "<div id=\"tabs-still-succeed\"><table><tbody><tr>\
        <td><img title=\"Succeeded\"/></td>\
        <td><a href=\"/build/5\">5</a></td>\
        <td><time datetime=\"2024-03-03T00:00:00Z\">x</time></td>\
        <td>hello-1.0</td>\
        <td><tt>x86_64-linux</tt></td>\
        </tr></tbody></table></div>";
    let html = format!(
        "<html><body><div id=\"tabs-inputs\"><table><tbody>{}</tbody></table></div>{}</body></html>",
        inputs_row("a", "b", "c", "d", "e"),
        bucket,
    );
    let stat = details("1").read_from_html(&html).unwrap();
    assert_eq!(stat.still_succeed.len(), 0);
}

#[test]
fn eval_details_json_shape() {
    let table = changes_table("/api/diff?rev1=abc123&rev2=def456", "abc123 to def456");
    let stat = details("77/hello")
        .read_from_html(&eval_page(&inputs_row("nixpkgs", "Git checkout", "v", "r", "p"), &table))
        .unwrap();
    let json = stat.to_json();
    let value: serde_json::Value = serde_json::from_str(&json).unwrap();
    assert_eq!(value.get("spec").unwrap().as_str().unwrap(), "77/hello");
    assert_eq!(value.get("id").unwrap().as_u64().unwrap(), 77);
    assert_eq!(value.get("filter").unwrap().as_str().unwrap(), "hello");
    assert_eq!(value.get("inputs").unwrap().as_array().unwrap().len(), 1);
    let revs = value.get("changes").unwrap().as_array().unwrap()[0]
        .get("revs")
        .unwrap()
        .as_array()
        .unwrap();
    assert_eq!(revs[0].as_str().unwrap(), "abc123");
    assert_eq!(revs[1].as_str().unwrap(), "def456");
    assert_eq!(value.get("aborted").unwrap().as_array().unwrap().len(), 0);
}

#[test]
fn input_format_lines_skip_absent_fields() {
    let rows = inputs_row("nixpkgs", "Git checkout", "", "abc123", "");
    let stat = details("1").read_from_html(&eval_page(&rows, "")).unwrap();
    let lines = stat.inputs[0].format_lines();
    assert_eq!(
        lines,
        vec!["input: nixpkgs", "type: Git checkout", "revision: abc123"],
    );
}

#[test]
fn change_format_lines_render_rev_arrow() {
    let table = changes_table("/api/diff?rev1=abc123&rev2=def456", "abc123 to def456");
    let stat = details("1").read_from_html(&eval_page(&inputs_row("a", "b", "c", "d", "e"), &table))
        .unwrap();
    let lines = stat.changes[0].format_lines();
    assert_eq!(
        lines,
        vec![
            "changed_input: nixpkgs",
            "changes: abc123 to def456",
            "url: /api/diff?rev1=abc123&rev2=def456",
            "revs: abc123 -> def456",
        ],
    );
}
