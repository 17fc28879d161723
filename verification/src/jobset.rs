//! Status of a jobset's evaluation list: the per-evaluation record, the
//! classifier for the seven-column evaluation rows, and the report
//! container around them.

use vstd::prelude::*;
use scraper::Html;
use crate::icons::{StatusIcon, spec_glyph};
use crate::rows::{
    ParseError, ParseErrorV, RowData, opt_view, opt_or_empty, spec_row_skippable, row_skippable,
};
use crate::strutil::{
    spec_trim, spec_u64_ok, spec_u64_body, spec_digits_val, spec_norm_ws, spec_remove_all,
    spec_u64_dec, trim, parse_u64, normalize_ws, remove_all, u64_to_string,
};
use crate::jsonfmt::{
    spec_json_string, spec_json_opt_field, spec_json_opt_bool_field, spec_json_opt_u64_field,
    spec_json_array, spec_json_array_body, lemma_json_array_body_snoc, append_json_string,
    append_json_opt_field, append_json_opt_bool_field, append_json_opt_u64_field,
};
use crate::args::ResolvedArgs;
use crate::soup::{parse_document, table_rows};
use crate::report::find_tbody;

verus! {

/// Status of a single evaluation: one row of a jobset's evaluation list,
/// normalised.
#[derive(Clone, Debug)]
pub struct EvalStatus {
    pub icon: StatusIcon,
    /// True exactly when no job of the evaluation is still queued.
    pub finished: Option<bool>,
    pub id: Option<u64>,
    pub url: Option<String>,
    pub datetime: Option<String>,
    pub relative: Option<String>,
    pub timestamp: Option<u64>,
    /// Free marker text, e.g. a queued marker; empty for plain rows.
    pub status: String,
    pub short_rev: Option<String>,
    pub input_changes: Option<String>,
    pub succeeded: Option<u64>,
    pub failed: Option<u64>,
    pub queued: Option<u64>,
    pub delta: Option<String>,
}

/// Spec-level image of an `EvalStatus`.
pub ghost struct EvalStatusV {
    pub icon: StatusIcon,
    pub finished: Option<bool>,
    pub id: Option<u64>,
    pub url: Option<Seq<char>>,
    pub datetime: Option<Seq<char>>,
    pub relative: Option<Seq<char>>,
    pub timestamp: Option<u64>,
    pub status: Seq<char>,
    pub short_rev: Option<Seq<char>>,
    pub input_changes: Option<Seq<char>>,
    pub succeeded: Option<u64>,
    pub failed: Option<u64>,
    pub queued: Option<u64>,
    pub delta: Option<Seq<char>>,
}

impl View for EvalStatus {
    type V = EvalStatusV;

    open spec fn view(&self) -> EvalStatusV {
        EvalStatusV {
            icon: self.icon,
            finished: self.finished,
            id: self.id,
            url: opt_view(self.url),
            datetime: opt_view(self.datetime),
            relative: opt_view(self.relative),
            timestamp: self.timestamp,
            status: self.status@,
            short_rev: opt_view(self.short_rev),
            input_changes: opt_view(self.input_changes),
            succeeded: self.succeeded,
            failed: self.failed,
            queued: self.queued,
            delta: opt_view(self.delta),
        }
    }
}

/// The record invariant: a genuine evaluation row knows its queue count
/// and is finished exactly when that count is zero, with the icon agreeing;
/// a placeholder knows neither.
pub open spec fn spec_eval_wf(e: EvalStatusV) -> bool {
    match (e.finished, e.queued) {
        (Option::Some(f), Option::Some(q)) => (f <==> q == 0) && e.icon == (if f {
            StatusIcon::Succeeded
        } else {
            StatusIcon::Queued
        }),
        (Option::None, Option::None) => true,
        _ => false,
    }
}

/// An empty placeholder record: warning icon and nothing else.
impl Default for EvalStatus {
    fn default() -> (r: Self)
        ensures
            r@ == spec_default_eval_status(),
            spec_eval_wf(r@),
    {
        EvalStatus {
            icon: StatusIcon::Warning,
            finished: Option::None,
            id: Option::None,
            url: Option::None,
            datetime: Option::None,
            relative: Option::None,
            timestamp: Option::None,
            status: String::new(),
            short_rev: Option::None,
            input_changes: Option::None,
            succeeded: Option::None,
            failed: Option::None,
            queued: Option::None,
            delta: Option::None,
        }
    }
}

/// The image of the default record.
pub open spec fn spec_default_eval_status() -> EvalStatusV {
    EvalStatusV {
        icon: StatusIcon::Warning,
        finished: Option::None,
        id: Option::None,
        url: Option::None,
        datetime: Option::None,
        relative: Option::None,
        timestamp: Option::None,
        status: Seq::empty(),
        short_rev: Option::None,
        input_changes: Option::None,
        succeeded: Option::None,
        failed: Option::None,
        queued: Option::None,
        delta: Option::None,
    }
}

/// The error placeholder carrying an explanatory message.
pub open spec fn spec_eval_warning_record(status: Seq<char>) -> EvalStatusV {
    EvalStatusV { status: status, ..spec_default_eval_status() }
}

/// Builds the error placeholder: warning icon, the message as status text.
pub fn eval_warning_record(status: String) -> (r: EvalStatus)
    ensures
        r@ == spec_eval_warning_record(status@),
        spec_eval_wf(r@),
{
    let r = EvalStatus { icon: StatusIcon::Warning, status, ..Default::default() };
    proof {
        assert(r@ =~~= spec_eval_warning_record(r.status@));
    }
    r
}

/// How a numeric cell of the evaluation list reads: empty counts as zero,
/// digits count as themselves, anything else is no count at all.
pub open spec fn spec_count(text: Seq<char>) -> Option<u64> {
    let t = spec_trim(text);
    if t.len() == 0 {
        Option::Some(0u64)
    } else if spec_u64_ok(t) {
        Option::Some(spec_digits_val(spec_u64_body(t)) as u64)
    } else {
        Option::None
    }
}

/// Parses a numeric cell: an empty cell is zero, a digit cell its value,
/// and anything else a failure.
pub fn parse_count(text: &str) -> (r: Option<u64>)
    ensures
        r == spec_count(text@),
{
    let t = trim(text);
    if t.unicode_len() == 0 {
        Option::Some(0)
    } else {
        parse_u64(t)
    }
}

/// Classification of one row of the evaluation list.  Seven cells are the
/// evaluation link, the timestamp, the input changes, the succeeded,
/// failed and queued counts, and the delta.  Any other shape is skipped
/// when the row is one of the dashboard's own link rows, and a shape error
/// otherwise.
pub open spec fn spec_classify_eval_row(r: RowData, context: Seq<char>) -> Result<
    Option<EvalStatusV>,
    ParseErrorV,
> {
    let n = r.cells@.len();
    if n != 7 {
        if spec_row_skippable(r) {
            Result::Ok(Option::None)
        } else {
            Result::Err(ParseErrorV::Shape { context: context, html: r.html@ })
        }
    } else {
        let id_cell = r.cells@[0];
        let time_cell = r.cells@[1];
        let changes_cell = r.cells@[2];
        match id_cell.link {
            Option::None => Result::Err(ParseErrorV::Missing { what: "a"@, html: r.html@ }),
            Option::Some(link) => match link.href {
                Option::None => Result::Err(
                    ParseErrorV::Missing { what: "a[href]"@, html: r.html@ },
                ),
                Option::Some(href) => if !spec_u64_ok(id_cell.text@) {
                    Result::Err(ParseErrorV::BadNumber { text: id_cell.text@ })
                } else {
                    match time_cell.time {
                        Option::None => Result::Err(
                            ParseErrorV::Missing { what: "time"@, html: r.html@ },
                        ),
                        Option::Some(time) => match time.datetime {
                            Option::None => Result::Err(
                                ParseErrorV::Missing { what: "time[datetime]"@, html: r.html@ },
                            ),
                            Option::Some(datetime) => match time.timestamp {
                                Option::None => Result::Err(
                                    ParseErrorV::Missing {
                                        what: "time[data-timestamp]"@,
                                        html: r.html@,
                                    },
                                ),
                                Option::Some(ts) => if !spec_u64_ok(ts@) {
                                    Result::Err(ParseErrorV::BadNumber { text: ts@ })
                                } else {
                                    match changes_cell.tt {
                                        Option::None => Result::Err(
                                            ParseErrorV::Missing { what: "tt"@, html: r.html@ },
                                        ),
                                        Option::Some(tt) => {
                                            let status = opt_or_empty(opt_view(changes_cell.span));
                                            match spec_count(r.cells@[3].text@) {
                                                Option::None => Result::Err(
                                                    ParseErrorV::BadNumber {
                                                        text: spec_trim(r.cells@[3].text@),
                                                    },
                                                ),
                                                Option::Some(succeeded) => match spec_count(
                                                    r.cells@[4].text@,
                                                ) {
                                                    Option::None => Result::Err(
                                                        ParseErrorV::BadNumber {
                                                            text: spec_trim(r.cells@[4].text@),
                                                        },
                                                    ),
                                                    Option::Some(failed) => match spec_count(
                                                        r.cells@[5].text@,
                                                    ) {
                                                        Option::None => Result::Err(
                                                            ParseErrorV::BadNumber {
                                                                text: spec_trim(r.cells@[5].text@),
                                                            },
                                                        ),
                                                        Option::Some(queued) => Result::Ok(
                                                            Option::Some(
                                                                spec_eval_record(
                                                                    spec_digits_val(
                                                                        spec_u64_body(
                                                                            id_cell.text@,
                                                                        ),
                                                                    ) as u64,
                                                                    href@,
                                                                    datetime@,
                                                                    time.text@,
                                                                    spec_digits_val(
                                                                        spec_u64_body(ts@),
                                                                    ) as u64,
                                                                    status,
                                                                    tt@,
                                                                    spec_norm_ws(
                                                                        spec_remove_all(
                                                                            changes_cell.text@,
                                                                            status,
                                                                        ),
                                                                    ),
                                                                    succeeded,
                                                                    failed,
                                                                    queued,
                                                                    spec_trim(r.cells@[6].text@),
                                                                ),
                                                            ),
                                                        ),
                                                    },
                                                },
                                            }
                                        },
                                    }
                                },
                            },
                        },
                    }
                },
            },
        }
    }
}

/// The record of a genuine evaluation row.
pub open spec fn spec_eval_record(
    id: u64,
    url: Seq<char>,
    datetime: Seq<char>,
    relative: Seq<char>,
    timestamp: u64,
    status: Seq<char>,
    short_rev: Seq<char>,
    input_changes: Seq<char>,
    succeeded: u64,
    failed: u64,
    queued: u64,
    delta: Seq<char>,
) -> EvalStatusV {
    let finished = queued == 0;
    EvalStatusV {
        icon: if finished {
            StatusIcon::Succeeded
        } else {
            StatusIcon::Queued
        },
        finished: Option::Some(finished),
        id: Option::Some(id),
        url: Option::Some(url),
        datetime: Option::Some(datetime),
        relative: Option::Some(relative),
        timestamp: Option::Some(timestamp),
        status: status,
        short_rev: Option::Some(short_rev),
        input_changes: Option::Some(input_changes),
        succeeded: Option::Some(succeeded),
        failed: Option::Some(failed),
        queued: Option::Some(queued),
        delta: if delta.len() == 0 {
            Option::None
        } else {
            Option::Some(delta)
        },
    }
}

/// The image of a per-row classification result.
pub open spec fn spec_eval_row_result_view(res: Result<Option<EvalStatus>, ParseError>) -> Result<
    Option<EvalStatusV>,
    ParseErrorV,
> {
    match res {
        Result::Ok(Option::None) => Result::Ok(Option::None),
        Result::Ok(Option::Some(e)) => Result::Ok(Option::Some(e@)),
        Result::Err(e) => Result::Err(e@),
    }
}

/// Classifies one row of the evaluation list.
pub fn classify_eval_row(r: &RowData, context: &str) -> (res: Result<
    Option<EvalStatus>,
    ParseError,
>)
    ensures
        spec_eval_row_result_view(res) == spec_classify_eval_row(*r, context@),
{
    let n = r.cells.len();
    if n != 7 {
        if row_skippable(r) {
            return Result::Ok(Option::None);
        }
        return Result::Err(
            ParseError::Shape { context: context.to_owned(), html: r.html.clone() },
        );
    }
    let id_cell = &r.cells[0];
    let (url, _link_text) = match &id_cell.link {
        Option::None => {
            return Result::Err(
                ParseError::Missing { what: "a".to_owned(), html: r.html.clone() },
            );
        },
        Option::Some(link) => match &link.href {
            Option::None => {
                return Result::Err(
                    ParseError::Missing { what: "a[href]".to_owned(), html: r.html.clone() },
                );
            },
            Option::Some(href) => (href.clone(), link.text.clone()),
        },
    };
    let id = match parse_u64(id_cell.text.as_str()) {
        Option::None => {
            return Result::Err(ParseError::BadNumber { text: id_cell.text.clone() });
        },
        Option::Some(v) => v,
    };
    let time_cell = &r.cells[1];
    let (datetime, relative, ts_text) = match &time_cell.time {
        Option::None => {
            return Result::Err(
                ParseError::Missing { what: "time".to_owned(), html: r.html.clone() },
            );
        },
        Option::Some(time) => {
            let datetime = match &time.datetime {
                Option::None => {
                    return Result::Err(
                        ParseError::Missing {
                            what: "time[datetime]".to_owned(),
                            html: r.html.clone(),
                        },
                    );
                },
                Option::Some(d) => d.clone(),
            };
            let ts_text = match &time.timestamp {
                Option::None => {
                    return Result::Err(
                        ParseError::Missing {
                            what: "time[data-timestamp]".to_owned(),
                            html: r.html.clone(),
                        },
                    );
                },
                Option::Some(t) => t.clone(),
            };
            (datetime, time.text.clone(), ts_text)
        },
    };
    let timestamp = match parse_u64(ts_text.as_str()) {
        Option::None => {
            return Result::Err(ParseError::BadNumber { text: ts_text.clone() });
        },
        Option::Some(v) => v,
    };
    let changes_cell = &r.cells[2];
    let short_rev = match &changes_cell.tt {
        Option::None => {
            return Result::Err(
                ParseError::Missing { what: "tt".to_owned(), html: r.html.clone() },
            );
        },
        Option::Some(tt) => tt.clone(),
    };
    let status: String = match &changes_cell.span {
        Option::Some(s) => s.clone(),
        Option::None => String::new(),
    };
    let without_status = remove_all(changes_cell.text.as_str(), status.as_str());
    let input_changes = normalize_ws(without_status.as_str());
    let succeeded = match parse_count(r.cells[3].text.as_str()) {
        Option::None => {
            return Result::Err(
                ParseError::BadNumber { text: trim(r.cells[3].text.as_str()).to_owned() },
            );
        },
        Option::Some(v) => v,
    };
    let failed = match parse_count(r.cells[4].text.as_str()) {
        Option::None => {
            return Result::Err(
                ParseError::BadNumber { text: trim(r.cells[4].text.as_str()).to_owned() },
            );
        },
        Option::Some(v) => v,
    };
    let queued = match parse_count(r.cells[5].text.as_str()) {
        Option::None => {
            return Result::Err(
                ParseError::BadNumber { text: trim(r.cells[5].text.as_str()).to_owned() },
            );
        },
        Option::Some(v) => v,
    };
    let delta_text = trim(r.cells[6].text.as_str());
    let delta: Option<String> = if delta_text.unicode_len() == 0 {
        Option::None
    } else {
        Option::Some(delta_text.to_owned())
    };
    let finished = queued == 0;
    let e = EvalStatus {
        icon: if finished {
            StatusIcon::Succeeded
        } else {
            StatusIcon::Queued
        },
        finished: Option::Some(finished),
        id: Option::Some(id),
        url: Option::Some(url),
        datetime: Option::Some(datetime),
        relative: Option::Some(relative),
        timestamp: Option::Some(timestamp),
        status,
        short_rev: Option::Some(short_rev),
        input_changes: Option::Some(input_changes),
        succeeded: Option::Some(succeeded),
        failed: Option::Some(failed),
        queued: Option::Some(queued),
        delta,
    };
    proof {
        assert(spec_eval_row_result_view(Result::Ok(Option::Some(e))) =~~= spec_classify_eval_row(
            *r,
            context@,
        ));
    }
    Result::Ok(Option::Some(e))
}

/// Every record a row classifies to respects the record invariant: it is
/// finished exactly when its queued count is zero, and its icon agrees.
pub proof fn lemma_eval_row_record_wf(r: RowData, context: Seq<char>, e: EvalStatusV)
    requires
        spec_classify_eval_row(r, context) == Result::Ok::<_, ParseErrorV>(Option::Some(e)),
    ensures
        spec_eval_wf(e),
        e.finished == Option::Some(e.queued == Option::Some(0u64)),
{
}

/// Classification of the whole evaluation list, rows in table order.
pub open spec fn spec_classify_eval_rows(rows: Seq<RowData>, context: Seq<char>) -> Result<
    Seq<EvalStatusV>,
    ParseErrorV,
>
    decreases rows.len(),
{
    if rows.len() == 0 {
        Result::Ok(Seq::empty())
    } else {
        match spec_classify_eval_row(rows[0], context) {
            Result::Err(e) => Result::Err(e),
            Result::Ok(opt) => match spec_classify_eval_rows(rows.drop_first(), context) {
                Result::Err(e) => Result::Err(e),
                Result::Ok(tail) => Result::Ok(
                    match opt {
                        Option::None => tail,
                        Option::Some(b) => seq![b] + tail,
                    },
                ),
            },
        }
    }
}

/// The images of a sequence of records.
pub open spec fn eval_views_of(s: Seq<EvalStatus>) -> Seq<EvalStatusV> {
    s.map_values(|e: EvalStatus| e@)
}

/// Classifies every row of the evaluation list, in table order.
pub fn classify_eval_rows(rows: &Vec<RowData>, context: &str) -> (res: Result<
    Vec<EvalStatus>,
    ParseError,
>)
    ensures
        match res {
            Result::Ok(v) => spec_classify_eval_rows(rows@, context@) == Result::Ok::<
                _,
                ParseErrorV,
            >(eval_views_of(v@)),
            Result::Err(e) => spec_classify_eval_rows(rows@, context@) == Result::Err::<
                Seq<EvalStatusV>,
                _,
            >(e@),
        },
{
    let ghost all = rows@;
    let mut out: Vec<EvalStatus> = Vec::new();
    let mut i: usize = 0;
    proof {
        assert(all.subrange(0, all.len() as int) =~= all);
        assert(eval_views_of(out@) =~= Seq::<EvalStatusV>::empty());
        let full = spec_classify_eval_rows(all, context@);
        match full {
            Result::Ok(t) => {
                assert(Seq::<EvalStatusV>::empty() + t =~= t);
            },
            Result::Err(_) => {},
        }
    }
    while i < rows.len()
        invariant
            0 <= i <= rows.len(),
            all == rows@,
            spec_classify_eval_rows(all, context@) == (match spec_classify_eval_rows(
                all.subrange(i as int, all.len() as int),
                context@,
            ) {
                Result::Ok(t) => Result::Ok::<Seq<EvalStatusV>, ParseErrorV>(
                    eval_views_of(out@) + t,
                ),
                Result::Err(e) => Result::Err(e),
            }),
        decreases rows.len() - i,
    {
        let ghost sub_i = all.subrange(i as int, all.len() as int);
        let ghost sub_i1 = all.subrange(i as int + 1, all.len() as int);
        proof {
            assert(sub_i.len() > 0);
            assert(sub_i[0] == all[i as int]);
            assert(sub_i.drop_first() =~= sub_i1);
        }
        match classify_eval_row(&rows[i], context) {
            Result::Err(e) => {
                proof {
                    assert(spec_classify_eval_rows(sub_i, context@) == Result::Err::<
                        Seq<EvalStatusV>,
                        _,
                    >(e@));
                }
                return Result::Err(e);
            },
            Result::Ok(Option::None) => {
            },
            Result::Ok(Option::Some(e)) => {
                let ghost pre = eval_views_of(out@);
                let ghost ev = e@;
                out.push(e);
                proof {
                    assert(eval_views_of(out@) =~= pre.push(ev));
                    let tail = spec_classify_eval_rows(sub_i1, context@);
                    if tail is Ok {
                        let t = tail->Ok_0;
                        assert(pre + (seq![ev] + t) =~= pre.push(ev) + t);
                    }
                }
            },
        }
        i = i + 1;
    }
    proof {
        assert(all.subrange(i as int, all.len() as int).len() == 0);
        assert(eval_views_of(out@) + Seq::<EvalStatusV>::empty() =~= eval_views_of(out@));
    }
    Result::Ok(out)
}

/// The records one row of the evaluation list contributes: one for a data
/// row, none for a skippable or failing row.
pub open spec fn spec_eval_row_records(r: RowData, context: Seq<char>) -> Seq<EvalStatusV> {
    match spec_classify_eval_row(r, context) {
        Result::Ok(Option::Some(e)) => seq![e],
        _ => Seq::empty(),
    }
}

/// Row order is preserved: a classified evaluation list is exactly the
/// concatenation, in table order, of the records of its rows, with nothing
/// reordered, dropped or deduplicated.
pub proof fn lemma_eval_rows_in_order(rows: Seq<RowData>, context: Seq<char>, recs: Seq<EvalStatusV>)
    requires
        spec_classify_eval_rows(rows, context) == Result::Ok::<_, ParseErrorV>(recs),
    ensures
        recs == rows.map_values(|r: RowData| spec_eval_row_records(r, context)).flatten(),
    decreases rows.len(),
{
    let f = |r: RowData| spec_eval_row_records(r, context);
    if rows.len() == 0 {
        assert(rows.map_values(f).flatten() =~= Seq::<EvalStatusV>::empty());
    } else {
        let tail = spec_classify_eval_rows(rows.drop_first(), context);
        let t = tail->Ok_0;
        lemma_eval_rows_in_order(rows.drop_first(), context, t);
        assert(rows.map_values(f).drop_first() =~= rows.drop_first().map_values(f));
        assert(rows.map_values(f).len() > 0);
        assert(rows.map_values(f).flatten() == rows.map_values(f).first() + rows.map_values(
            f,
        ).drop_first().flatten());
        assert(rows.map_values(f).first() == spec_eval_row_records(rows[0], context));
        match spec_classify_eval_row(rows[0], context) {
            Result::Ok(Option::Some(e)) => {
                assert(recs == seq![e] + t);
                assert(recs =~= spec_eval_row_records(rows[0], context) + rows.drop_first(
                ).map_values(f).flatten());
            },
            Result::Ok(Option::None) => {
                assert(recs == t);
                assert(spec_eval_row_records(rows[0], context) =~= Seq::<EvalStatusV>::empty());
                assert(recs =~= spec_eval_row_records(rows[0], context) + rows.drop_first(
                ).map_values(f).flatten());
            },
            Result::Err(_) => {
                assert(false);
            },
        }
    }
}

/// Every record of a classified evaluation list respects the record
/// invariant.
pub proof fn lemma_classified_eval_records_wf(
    rows: Seq<RowData>,
    context: Seq<char>,
    recs: Seq<EvalStatusV>,
)
    requires
        spec_classify_eval_rows(rows, context) == Result::Ok::<_, ParseErrorV>(recs),
    ensures
        forall|i: int| 0 <= i < recs.len() ==> spec_eval_wf(#[trigger] recs[i]),
    decreases rows.len(),
{
    if rows.len() == 0 {
    } else {
        let tail = spec_classify_eval_rows(rows.drop_first(), context);
        let t = tail->Ok_0;
        lemma_classified_eval_records_wf(rows.drop_first(), context, t);
        match spec_classify_eval_row(rows[0], context) {
            Result::Ok(Option::Some(e)) => {
                lemma_eval_row_record_wf(rows[0], context, e);
                assert(recs == seq![e] + t);
                assert(forall|i: int| 0 <= i < recs.len() ==> spec_eval_wf(#[trigger] recs[i]))
                    by {
                    assert(recs[0] == e);
                    assert(forall|i: int| 1 <= i < recs.len() ==> recs[i] == t[i - 1]);
                };
            },
            Result::Ok(Option::None) => {
                assert(recs == t);
            },
            Result::Err(_) => {
                assert(false);
            },
        }
    }
}

/// The JSON rendering of one evaluation record: fields in declaration
/// order, every absent optional field omitted, the icon as its glyph.
pub open spec fn spec_eval_status_json(e: EvalStatusV) -> Seq<char> {
    "{\"icon\":"@ + spec_json_string(spec_glyph(e.icon)) + spec_json_opt_bool_field(
        ",\"finished\":"@,
        e.finished,
    ) + spec_json_opt_u64_field(",\"id\":"@, e.id) + spec_json_opt_field(",\"url\":"@, e.url)
        + spec_json_opt_field(",\"datetime\":"@, e.datetime) + spec_json_opt_field(
        ",\"relative\":"@,
        e.relative,
    ) + spec_json_opt_u64_field(",\"timestamp\":"@, e.timestamp) + ",\"status\":"@
        + spec_json_string(e.status) + spec_json_opt_field(",\"short_rev\":"@, e.short_rev)
        + spec_json_opt_field(",\"input_changes\":"@, e.input_changes) + spec_json_opt_u64_field(
        ",\"succeeded\":"@,
        e.succeeded,
    ) + spec_json_opt_u64_field(",\"failed\":"@, e.failed) + spec_json_opt_u64_field(
        ",\"queued\":"@,
        e.queued,
    ) + spec_json_opt_field(",\"delta\":"@, e.delta) + seq!['}']
}

impl EvalStatus {
    /// Serialises the record as one compact JSON object, absent optional
    /// fields omitted.
    pub fn to_json(&self) -> (r: String)
        ensures
            r@ == spec_eval_status_json(self@),
    {
        let mut out = "{\"icon\":".to_owned();
        append_json_string(&mut out, self.icon.glyph());
        append_json_opt_bool_field(&mut out, ",\"finished\":", &self.finished);
        append_json_opt_u64_field(&mut out, ",\"id\":", &self.id);
        append_json_opt_field(&mut out, ",\"url\":", &self.url);
        append_json_opt_field(&mut out, ",\"datetime\":", &self.datetime);
        append_json_opt_field(&mut out, ",\"relative\":", &self.relative);
        append_json_opt_u64_field(&mut out, ",\"timestamp\":", &self.timestamp);
        out.append(",\"status\":");
        append_json_string(&mut out, self.status.as_str());
        append_json_opt_field(&mut out, ",\"short_rev\":", &self.short_rev);
        append_json_opt_field(&mut out, ",\"input_changes\":", &self.input_changes);
        append_json_opt_u64_field(&mut out, ",\"succeeded\":", &self.succeeded);
        append_json_opt_u64_field(&mut out, ",\"failed\":", &self.failed);
        append_json_opt_u64_field(&mut out, ",\"queued\":", &self.queued);
        append_json_opt_field(&mut out, ",\"delta\":", &self.delta);
        out.append("}");
        proof {
            reveal_strlit("}");
            assert("}"@ =~= seq!['}']);
            assert(out@ =~= spec_eval_status_json(self@));
        }
        out
    }

    /// The table cells this record renders as: the icon with the input
    /// changes (or the marker text), then, for genuine rows, the relative
    /// time, the three counts under their icons, the queued delta and the
    /// evaluation link.
    pub fn format_cells(&self) -> (r: Vec<String>)
        ensures
            r@.map_values(|s: String| s@) == spec_eval_status_cells(self@),
    {
        let mut row: Vec<String> = Vec::new();
        let mut first = self.icon.glyph().to_owned();
        first.append(" ");
        match &self.input_changes {
            Option::Some(x) => first.append(x.as_str()),
            Option::None => first.append(self.status.as_str()),
        }
        proof {
            reveal_strlit(" ");
        }
        row.push(first);
        if self.url.is_some() {
            let relative = match &self.relative {
                Option::Some(x) => x.clone(),
                Option::None => String::new(),
            };
            row.push(relative);
            row.push(count_cell(StatusIcon::Succeeded, &self.succeeded));
            row.push(count_cell(StatusIcon::Failed, &self.failed));
            row.push(count_cell(StatusIcon::Queued, &self.queued));
            let mut delta = "\u{394} ".to_owned();
            match &self.delta {
                Option::Some(d) => delta.append(d.as_str()),
                Option::None => {},
            }
            row.push(delta);
            let url = match &self.url {
                Option::Some(u) => u.clone(),
                Option::None => String::new(),
            };
            row.push(url);
        }
        proof {
            assert(row@.map_values(|s: String| s@) =~= spec_eval_status_cells(self@));
        }
        row
    }
}

/// One count cell: the icon's glyph, a space and the count, zero when the
/// count is absent.
pub open spec fn spec_count_cell(icon: StatusIcon, n: Option<u64>) -> Seq<char> {
    spec_glyph(icon) + " "@ + spec_u64_dec(
        (match n {
            Option::Some(v) => v,
            Option::None => 0u64,
        }) as nat,
    )
}

fn count_cell(icon: StatusIcon, n: &Option<u64>) -> (r: String)
    ensures
        r@ == spec_count_cell(icon, *n),
{
    let mut out = icon.glyph().to_owned();
    out.append(" ");
    let v: u64 = match n {
        Option::Some(v) => *v,
        Option::None => 0,
    };
    let dec = u64_to_string(v);
    out.append(dec.as_str());
    proof {
        assert(out@ =~= spec_count_cell(icon, *n));
    }
    out
}

/// The table cells of one evaluation record, in order.
pub open spec fn spec_eval_status_cells(e: EvalStatusV) -> Seq<Seq<char>> {
    let description = match e.input_changes {
        Option::Some(x) => x,
        Option::None => e.status,
    };
    let first = spec_glyph(e.icon) + " "@ + description;
    if e.url is Some {
        seq![
            first,
            opt_or_empty(e.relative),
            spec_count_cell(StatusIcon::Succeeded, e.succeeded),
            spec_count_cell(StatusIcon::Failed, e.failed),
            spec_count_cell(StatusIcon::Queued, e.queued),
            "\u{394} "@ + opt_or_empty(e.delta),
            opt_or_empty(e.url),
        ]
    } else {
        seq![first]
    }
}

/// The JSON rendering of a whole evaluation list.
pub open spec fn spec_evals_json(s: Seq<EvalStatusV>) -> Seq<char> {
    spec_json_array(s.map_values(|e: EvalStatusV| spec_eval_status_json(e)))
}

/// Serialises an evaluation list as one compact JSON array.
pub fn evals_to_json(evals: &Vec<EvalStatus>) -> (r: String)
    ensures
        r@ == spec_evals_json(eval_views_of(evals@)),
{
    let ghost f = |e: EvalStatusV| spec_eval_status_json(e);
    let mut out = "[".to_owned();
    proof {
        reveal_strlit("[");
        assert("["@ =~= seq!['[']);
        assert(eval_views_of(evals@.subrange(0, 0)).map_values(f) =~= Seq::<Seq<char>>::empty());
    }
    let mut i: usize = 0;
    while i < evals.len()
        invariant
            0 <= i <= evals@.len(),
            f == (|e: EvalStatusV| spec_eval_status_json(e)),
            out@ == seq!['['] + spec_json_array_body(
                eval_views_of(evals@.subrange(0, i as int)).map_values(f),
            ),
        decreases evals@.len() - i,
    {
        if i > 0 {
            out.append(",");
            proof {
                reveal_strlit(",");
                assert(","@ =~= seq![',']);
            }
        }
        let item = evals[i].to_json();
        out.append(item.as_str());
        proof {
            let pre = eval_views_of(evals@.subrange(0, i as int)).map_values(f);
            let cur = eval_views_of(evals@.subrange(0, i as int + 1)).map_values(f);
            assert(cur =~= pre.push(f(evals@[i as int]@)));
            lemma_json_array_body_snoc(pre, f(evals@[i as int]@));
            assert(out@ =~= seq!['['] + spec_json_array_body(cur));
        }
        i = i + 1;
    }
    out.append("]");
    proof {
        reveal_strlit("]");
        assert("]"@ =~= seq![']']);
        assert(evals@.subrange(0, evals@.len() as int) =~= evals@);
        assert(out@ =~= spec_evals_json(eval_views_of(evals@)));
    }
    out
}

/// Container for the evaluation status and metadata of a jobset.
#[derive(Clone, Debug)]
pub struct JobsetStatus {
    pub jobset: String,
    pub url: String,
    /// Status of recent evaluations of the jobset.
    pub evals: Vec<EvalStatus>,
}

impl JobsetStatus {
    /// Initialises the container for the resolved jobset, with the
    /// evaluation-list URL and no records yet.
    pub fn from_args(args: &ResolvedArgs) -> (r: Self)
        ensures
            r.jobset@ == args@.jobset,
            r.url@ == crate::constants::spec_host_url() + "/jobset/"@ + args@.jobset + "/evals"@,
            r.evals@.len() == 0,
    {
        let mut url = crate::constants::host_url().to_owned();
        url.append("/jobset/");
        url.append(args.jobset.as_str());
        url.append("/evals");
        proof {
            assert(url@ =~= crate::constants::spec_host_url() + "/jobset/"@ + args@.jobset
                + "/evals"@);
        }
        JobsetStatus { jobset: args.jobset.clone(), url, evals: Vec::new() }
    }

    /// The evaluation-list URL this report reads.
    pub fn get_url(&self) -> (r: &str)
        ensures
            r@ == self.url@,
    {
        self.url.as_str()
    }

    /// Replaces the records with the single error placeholder carrying the
    /// given message.
    pub fn finish_with_error(self, status: String) -> (r: Self)
        ensures
            r.jobset@ == self.jobset@,
            r.url@ == self.url@,
            eval_views_of(r.evals@) =~= seq![spec_eval_warning_record(status@)],
    {
        let mut evals: Vec<EvalStatus> = Vec::new();
        evals.push(eval_warning_record(status));
        proof {
            assert(eval_views_of(evals@) =~= seq![eval_views_of(evals@)[0]]);
        }
        JobsetStatus { evals, ..self }
    }

    /// Reads the evaluation list out of a fetched page.  A page without
    /// the expected table yields the single error placeholder carrying the
    /// page's own explanation — an alert text collapsed to one line, or
    /// the synthesised locator message; a malformed row fails the whole
    /// report.  On success the records are either that one placeholder or
    /// exactly the classification of some row sequence, and every record
    /// respects the record invariant.
    pub fn read_from_html(self, html: &str) -> (r: Result<Self, ParseError>)
        ensures
            match r {
                Result::Ok(s) => {
                    &&& s.jobset@ == self.jobset@
                    &&& s.url@ == self.url@
                    &&& forall|i: int| 0 <= i < s.evals@.len()
                        ==> spec_eval_wf(#[trigger] s.evals@[i]@)
                    &&& ((exists|m: Seq<char>|
                        eval_views_of(s.evals@) == seq![#[trigger] spec_eval_warning_record(m)]
                            && crate::report::spec_locator_message(
                            m,
                            crate::report::spec_tbody_selector(""@),
                            self.url@,
                        )) || (exists|rows: Seq<RowData>|
                        #[trigger] spec_classify_eval_rows(rows, self.jobset@)
                            == Result::Ok::<_, ParseErrorV>(eval_views_of(s.evals@))))
                },
                Result::Err(_) => true,
            },
    {
        let doc = parse_document(html);
        match find_tbody(&doc, "", self.url.as_str()) {
            Result::Err(status) => {
                let ghost m = status@;
                let r = self.finish_with_error(status);
                proof {
                    assert(eval_views_of(r.evals@) == seq![spec_eval_warning_record(m)]);
                }
                proof {
                    assert(forall|i: int| 0 <= i < r.evals@.len()
                        ==> spec_eval_wf(#[trigger] r.evals@[i]@)) by {
                        assert(eval_views_of(r.evals@)[0] == r.evals@[0]@);
                    }
                }
                Result::Ok(r)
            },
            Result::Ok(tbody) => {
                let rows = table_rows(&tbody);
                match classify_eval_rows(&rows, self.jobset.as_str()) {
                    Result::Err(e) => Result::Err(e),
                    Result::Ok(evals) => {
                        proof {
                            lemma_classified_eval_records_wf(
                                rows@,
                                self.jobset@,
                                eval_views_of(evals@),
                            );
                            assert(forall|i: int| 0 <= i < evals@.len()
                                ==> spec_eval_wf(#[trigger] evals@[i]@)) by {
                                assert(forall|i: int| 0 <= i < evals@.len()
                                    ==> eval_views_of(evals@)[i] == #[trigger] evals@[i]@);
                            }
                        }
                        Result::Ok(JobsetStatus { evals, ..self })
                    },
                }
            },
        }
    }

    /// The most recent evaluation's identifier, if the first record has
    /// one: what an unscoped evaluation query resolves to.
    pub fn latest_eval_id(&self) -> (r: Option<u64>)
        ensures
            r == (if self.evals@.len() > 0 {
                self.evals@[0]@.id
            } else {
                Option::<u64>::None
            }),
    {
        if self.evals.len() > 0 {
            self.evals[0].id
        } else {
            Option::None
        }
    }
}

} // verus!
