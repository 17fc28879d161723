//! The central normalised record of one build row, and the classifier that
//! produces it from the row model: the algorithmic heart of the crate.

use vstd::prelude::*;
use crate::icons::{StatusIcon, spec_glyph};
use crate::rows::{
    ParseError, ParseErrorV, RowData, opt_view, opt_or_empty, spec_row_skippable, row_skippable,
};
use crate::strutil::{spec_trim, spec_date_part, trim, str_eq, date_part};
use crate::jsonfmt::{
    spec_json_string, spec_json_bool, spec_json_opt_field, spec_json_array, spec_json_array_body,
    lemma_json_array_body_snoc, append_json_string, append_json_bool, append_json_opt_field,
};

verus! {

/// Status of a single build attempt: one row of a builds table, normalised.
#[derive(Clone, Debug)]
pub struct BuildStatus {
    pub icon: StatusIcon,
    /// True exactly when the raw Hydra status text was "Succeeded".
    pub success: bool,
    /// Raw or synthesised human-readable status text.
    pub status: String,
    pub timestamp: Option<String>,
    pub build_id: Option<String>,
    pub build_url: Option<String>,
    pub name: Option<String>,
    pub arch: Option<String>,
    /// True exactly when this record came from a genuine evaluated build row.
    pub evals: bool,
    pub job_name: Option<String>,
}

/// Spec-level image of a `BuildStatus`.
pub ghost struct BuildStatusV {
    pub icon: StatusIcon,
    pub success: bool,
    pub status: Seq<char>,
    pub timestamp: Option<Seq<char>>,
    pub build_id: Option<Seq<char>>,
    pub build_url: Option<Seq<char>>,
    pub name: Option<Seq<char>>,
    pub arch: Option<Seq<char>>,
    pub evals: bool,
    pub job_name: Option<Seq<char>>,
}

impl View for BuildStatus {
    type V = BuildStatusV;

    open spec fn view(&self) -> BuildStatusV {
        BuildStatusV {
            icon: self.icon,
            success: self.success,
            status: self.status@,
            timestamp: opt_view(self.timestamp),
            build_id: opt_view(self.build_id),
            build_url: opt_view(self.build_url),
            name: opt_view(self.name),
            arch: opt_view(self.arch),
            evals: self.evals,
            job_name: opt_view(self.job_name),
        }
    }
}

/// The record invariant: a record is a genuine build row, a queued
/// placeholder or an error placeholder, never a hybrid.  Success entails
/// the success icon and a genuine row; a genuine row carries every detail
/// field, a placeholder none.
pub open spec fn spec_build_wf(b: BuildStatusV) -> bool {
    &&& b.success ==> b.icon == StatusIcon::Succeeded && b.evals
    &&& b.evals ==> b.timestamp is Some && b.build_id is Some && b.build_url is Some
        && b.name is Some && b.arch is Some
    &&& b.evals && b.icon == StatusIcon::Succeeded ==> b.success
    &&& !b.evals ==> b.timestamp is None && b.build_id is None && b.build_url is None
        && b.name is None && b.arch is None
}

impl BuildStatus {
    /// The record invariant, at the executable type.
    pub open spec fn wf(self) -> bool {
        spec_build_wf(self@)
    }
}

/// An empty record: warning icon, no success, empty status text, no
/// details; the base every placeholder is built from.
impl Default for BuildStatus {
    fn default() -> (r: Self)
        ensures
            r@ == spec_default_build_status(),
            r.wf(),
    {
        BuildStatus {
            icon: StatusIcon::Warning,
            success: false,
            status: String::new(),
            timestamp: Option::None,
            build_id: Option::None,
            build_url: Option::None,
            name: Option::None,
            arch: Option::None,
            evals: false,
            job_name: Option::None,
        }
    }
}

/// The image of the default record.
pub open spec fn spec_default_build_status() -> BuildStatusV {
    BuildStatusV {
        icon: StatusIcon::Warning,
        success: false,
        status: Seq::empty(),
        timestamp: Option::None,
        build_id: Option::None,
        build_url: Option::None,
        name: Option::None,
        arch: Option::None,
        evals: false,
        job_name: Option::None,
    }
}

/// The icon a completed row's raw status text maps to: "Succeeded" is the
/// success icon, "Cancelled" keeps its own icon, every other terminal
/// state falls into the failure bucket.
pub open spec fn spec_icon_for(status: Seq<char>) -> StatusIcon {
    if status == "Succeeded"@ {
        StatusIcon::Succeeded
    } else if status == "Cancelled"@ {
        StatusIcon::Cancelled
    } else {
        StatusIcon::Failed
    }
}

/// The status text synthesised for a queued row from its span text.
pub open spec fn spec_queued_status(span: Seq<char>) -> Seq<char> {
    if spec_trim(span) == "Queued"@ {
        "Queued: no build has been attempted for this package yet (still queued)"@
    } else {
        "Unknown Hydra status: "@ + span
    }
}

/// The record for a queued row.
pub open spec fn spec_queued_record(span: Seq<char>) -> BuildStatusV {
    BuildStatusV {
        icon: StatusIcon::Queued,
        status: spec_queued_status(span),
        ..spec_default_build_status()
    }
}

/// The record for a completed row.
pub open spec fn spec_completed_record(
    status: Seq<char>,
    build_id: Seq<char>,
    build_url: Seq<char>,
    timestamp: Seq<char>,
    name: Seq<char>,
    arch: Seq<char>,
    job_name: Option<Seq<char>>,
) -> BuildStatusV {
    BuildStatusV {
        icon: spec_icon_for(status),
        success: status == "Succeeded"@,
        status: status,
        timestamp: Option::Some(timestamp),
        build_id: Option::Some(build_id),
        build_url: Option::Some(build_url),
        name: Option::Some(name),
        arch: Option::Some(arch),
        evals: true,
        job_name: job_name,
    }
}

/// The error placeholder record carrying an explanatory message.
pub open spec fn spec_warning_record(status: Seq<char>) -> BuildStatusV {
    BuildStatusV { status: status, ..spec_default_build_status() }
}

/// Which build-table layout a report expects.  A package report carries
/// five cells per row — status, build, timestamp, name, architecture; a
/// job-scoped table (the named buckets of an evaluation page, which list
/// many jobs) carries a sixth, the job name, between the timestamp and
/// the name.  The accepted shape is fixed per report kind.
#[derive(Clone, Copy, Debug, PartialEq, Eq, Structural)]
pub enum BuildTableShape {
    Package,
    JobScoped,
}

/// The cell count the shape accepts.
pub open spec fn spec_accepted_cells(shape: BuildTableShape) -> int {
    match shape {
        BuildTableShape::Package => 5,
        BuildTableShape::JobScoped => 6,
    }
}

/// Executable cell count of a shape, usable as its own spec.
#[verifier::when_used_as_spec(spec_accepted_cells_usize)]
pub fn accepted_cells(shape: BuildTableShape) -> (r: usize)
    ensures
        r == spec_accepted_cells(shape),
{
    match shape {
        BuildTableShape::Package => 5,
        BuildTableShape::JobScoped => 6,
    }
}

/// The cell count of a shape, as the executable type.
pub open spec fn spec_accepted_cells_usize(shape: BuildTableShape) -> usize {
    match shape {
        BuildTableShape::Package => 5usize,
        BuildTableShape::JobScoped => 6usize,
    }
}

/// Classification of one row of a builds table, under the table shape its
/// report kind fixes.  A row with any other cell count is skipped when it
/// is one of the dashboard's own link rows and is a shape error otherwise.
/// A span in the status cell marks a queued row; else the row must carry
/// every detail of a completed build.
pub open spec fn spec_classify_build_row(
    r: RowData,
    shape: BuildTableShape,
    context: Seq<char>,
) -> Result<Option<BuildStatusV>, ParseErrorV> {
    let n = r.cells@.len();
    if n != spec_accepted_cells(shape) {
        if spec_row_skippable(r) {
            Result::Ok(Option::None)
        } else {
            Result::Err(ParseErrorV::Shape { context: context, html: r.html@ })
        }
    } else {
        let status_cell = r.cells@[0];
        let build_cell = r.cells@[1];
        let time_cell = r.cells@[2];
        let name_cell = if shape == BuildTableShape::JobScoped {
            r.cells@[4]
        } else {
            r.cells@[3]
        };
        let arch_cell = if shape == BuildTableShape::JobScoped {
            r.cells@[5]
        } else {
            r.cells@[4]
        };
        let job_name = if shape == BuildTableShape::JobScoped {
            Option::Some(r.cells@[3].text@)
        } else {
            Option::None
        };
        match status_cell.span {
            Option::Some(span) => Result::Ok(Option::Some(spec_queued_record(span@))),
            Option::None => match status_cell.img {
                Option::None => Result::Err(
                    ParseErrorV::Missing { what: "img"@, html: r.html@ },
                ),
                Option::Some(img) => match img.title {
                    Option::None => Result::Err(
                        ParseErrorV::Missing { what: "img[title]"@, html: r.html@ },
                    ),
                    Option::Some(title) => match build_cell.link {
                        Option::None => Result::Err(
                            ParseErrorV::Missing { what: "a"@, html: r.html@ },
                        ),
                        Option::Some(link) => match link.href {
                            Option::None => Result::Err(
                                ParseErrorV::Missing { what: "a[href]"@, html: r.html@ },
                            ),
                            Option::Some(href) => match time_cell.time {
                                Option::None => Result::Err(
                                    ParseErrorV::Missing { what: "time"@, html: r.html@ },
                                ),
                                Option::Some(time) => match time.datetime {
                                    Option::None => Result::Err(
                                        ParseErrorV::Missing {
                                            what: "time[datetime]"@,
                                            html: r.html@,
                                        },
                                    ),
                                    Option::Some(datetime) => match arch_cell.tt {
                                        Option::None => Result::Err(
                                            ParseErrorV::Missing { what: "tt"@, html: r.html@ },
                                        ),
                                        Option::Some(tt) => Result::Ok(
                                            Option::Some(
                                                spec_completed_record(
                                                    title@,
                                                    link.text@,
                                                    href@,
                                                    datetime@,
                                                    name_cell.text@,
                                                    tt@,
                                                    job_name,
                                                ),
                                            ),
                                        ),
                                    },
                                },
                            },
                        },
                    },
                },
            },
        }
    }
}

/// The image of a per-row classification result.
pub open spec fn spec_row_result_view(res: Result<Option<BuildStatus>, ParseError>) -> Result<
    Option<BuildStatusV>,
    ParseErrorV,
> {
    match res {
        Result::Ok(Option::None) => Result::Ok(Option::None),
        Result::Ok(Option::Some(b)) => Result::Ok(Option::Some(b@)),
        Result::Err(e) => Result::Err(e@),
    }
}

/// Classifies one row of a builds table under the given shape.
pub fn classify_build_row(r: &RowData, shape: BuildTableShape, context: &str) -> (res: Result<
    Option<BuildStatus>,
    ParseError,
>)
    ensures
        spec_row_result_view(res) == spec_classify_build_row(*r, shape, context@),
{
    let n = r.cells.len();
    if n != accepted_cells(shape) {
        if row_skippable(r) {
            return Result::Ok(Option::None);
        }
        return Result::Err(
            ParseError::Shape { context: context.to_owned(), html: r.html.clone() },
        );
    }
    let status_cell = &r.cells[0];
    match &status_cell.span {
        Option::Some(span) => {
            let b = queued_record(span.as_str());
            Result::Ok(Option::Some(b))
        },
        Option::None => {
            let title = match &status_cell.img {
                Option::None => {
                    return Result::Err(
                        ParseError::Missing { what: "img".to_owned(), html: r.html.clone() },
                    );
                },
                Option::Some(img) => match &img.title {
                    Option::None => {
                        return Result::Err(
                            ParseError::Missing {
                                what: "img[title]".to_owned(),
                                html: r.html.clone(),
                            },
                        );
                    },
                    Option::Some(title) => title,
                },
            };
            let build_cell = &r.cells[1];
            let (build_id, build_url) = match &build_cell.link {
                Option::None => {
                    return Result::Err(
                        ParseError::Missing { what: "a".to_owned(), html: r.html.clone() },
                    );
                },
                Option::Some(link) => match &link.href {
                    Option::None => {
                        return Result::Err(
                            ParseError::Missing { what: "a[href]".to_owned(), html: r.html.clone() },
                        );
                    },
                    Option::Some(href) => (link.text.clone(), href.clone()),
                },
            };
            let time_cell = &r.cells[2];
            let datetime = match &time_cell.time {
                Option::None => {
                    return Result::Err(
                        ParseError::Missing { what: "time".to_owned(), html: r.html.clone() },
                    );
                },
                Option::Some(time) => match &time.datetime {
                    Option::None => {
                        return Result::Err(
                            ParseError::Missing {
                                what: "time[datetime]".to_owned(),
                                html: r.html.clone(),
                            },
                        );
                    },
                    Option::Some(datetime) => datetime.clone(),
                },
            };
            let name_cell = if shape == BuildTableShape::JobScoped {
                &r.cells[4]
            } else {
                &r.cells[3]
            };
            let arch_cell = if shape == BuildTableShape::JobScoped {
                &r.cells[5]
            } else {
                &r.cells[4]
            };
            let job_name = if shape == BuildTableShape::JobScoped {
                Option::Some(r.cells[3].text.clone())
            } else {
                Option::None
            };
            let arch = match &arch_cell.tt {
                Option::None => {
                    return Result::Err(
                        ParseError::Missing { what: "tt".to_owned(), html: r.html.clone() },
                    );
                },
                Option::Some(tt) => tt.clone(),
            };
            let b = completed_record(
                title.as_str(),
                build_id,
                build_url,
                datetime,
                name_cell.text.clone(),
                arch,
                job_name,
            );
            Result::Ok(Option::Some(b))
        },
    }
}

/// Builds the placeholder record for a queued row from its span text:
/// queued icon, no success, no details, and the synthesised status text.
pub fn queued_record(span: &str) -> (b: BuildStatus)
    ensures
        b@ == spec_queued_record(span@),
        b.wf(),
        b.icon == StatusIcon::Queued && !b.success && !b.evals,
        b.timestamp is None && b.build_id is None && b.build_url is None && b.name is None
            && b.arch is None,
{
    let trimmed = trim(span);
    let status: String = if str_eq(trimmed, "Queued") {
        "Queued: no build has been attempted for this package yet (still queued)".to_owned()
    } else {
        let mut s = "Unknown Hydra status: ".to_owned();
        s.append(span);
        s
    };
    let b = BuildStatus {
        icon: StatusIcon::Queued,
        status,
        ..Default::default()
    };
    proof {
        assert(b@ =~~= spec_queued_record(span@));
    }
    b
}

/// Builds the record for a completed row: success exactly when the raw
/// status text is "Succeeded", the icon mapped from the text, every
/// detail field populated.
pub fn completed_record(
    status: &str,
    build_id: String,
    build_url: String,
    timestamp: String,
    name: String,
    arch: String,
    job_name: Option<String>,
) -> (b: BuildStatus)
    ensures
        b@ == spec_completed_record(
            status@,
            build_id@,
            build_url@,
            timestamp@,
            name@,
            arch@,
            opt_view(job_name),
        ),
        b.wf(),
        b.success <==> status@ == "Succeeded"@,
        b.success <==> b.icon == StatusIcon::Succeeded,
        b.evals,
{
    let success = str_eq(status, "Succeeded");
    let icon = if success {
        StatusIcon::Succeeded
    } else if str_eq(status, "Cancelled") {
        StatusIcon::Cancelled
    } else {
        StatusIcon::Failed
    };
    let b = BuildStatus {
        icon,
        success,
        status: status.to_owned(),
        timestamp: Option::Some(timestamp),
        build_id: Option::Some(build_id),
        build_url: Option::Some(build_url),
        name: Option::Some(name),
        arch: Option::Some(arch),
        evals: true,
        job_name,
    };
    proof {
        assert(b@ =~~= spec_completed_record(
            status@,
            build_id@,
            build_url@,
            timestamp@,
            name@,
            arch@,
            opt_view(job_name),
        ));
    }
    b
}

/// Classification of a whole table body: rows in table order, each
/// contributing its record, skippable link rows contributing none, the
/// first offending row aborting the table.
pub open spec fn spec_classify_build_rows(
    rows: Seq<RowData>,
    shape: BuildTableShape,
    context: Seq<char>,
) -> Result<Seq<BuildStatusV>, ParseErrorV>
    decreases rows.len(),
{
    if rows.len() == 0 {
        Result::Ok(Seq::empty())
    } else {
        match spec_classify_build_row(rows[0], shape, context) {
            Result::Err(e) => Result::Err(e),
            Result::Ok(opt) => match spec_classify_build_rows(rows.drop_first(), shape, context) {
                Result::Err(e) => Result::Err(e),
                Result::Ok(tail) => Result::Ok(
                    match opt {
                        Option::None => tail,
                        Option::Some(b) => seq![b] + tail,
                    },
                ),
            },
        }
    }
}

/// The images of a sequence of records.
pub open spec fn views_of(s: Seq<BuildStatus>) -> Seq<BuildStatusV> {
    s.map_values(|b: BuildStatus| b@)
}

/// Prepends already-classified records to a partial classification.
pub open spec fn spec_append_result(
    pre: Seq<BuildStatusV>,
    r: Result<Seq<BuildStatusV>, ParseErrorV>,
) -> Result<Seq<BuildStatusV>, ParseErrorV> {
    match r {
        Result::Ok(t) => Result::Ok(pre + t),
        Result::Err(e) => Result::Err(e),
    }
}

/// Classifies every row of a builds table under the given shape, in table
/// order.
pub fn classify_build_rows(rows: &Vec<RowData>, shape: BuildTableShape, context: &str) -> (res:
    Result<Vec<BuildStatus>, ParseError>)
    ensures
        match res {
            Result::Ok(v) => spec_classify_build_rows(rows@, shape, context@) == Result::Ok::<
                _,
                ParseErrorV,
            >(views_of(v@)),
            Result::Err(e) => spec_classify_build_rows(rows@, shape, context@) == Result::Err::<
                Seq<BuildStatusV>,
                _,
            >(e@),
        },
{
    let ghost all = rows@;
    let mut out: Vec<BuildStatus> = Vec::new();
    let mut i: usize = 0;
    proof {
        assert(all.subrange(0, all.len() as int) =~= all);
        assert(views_of(out@) =~= Seq::<BuildStatusV>::empty());
        lemma_append_result_empty(spec_classify_build_rows(all, shape, context@));
    }
    while i < rows.len()
        invariant
            0 <= i <= rows.len(),
            all == rows@,
            spec_classify_build_rows(all, shape, context@) == spec_append_result(
                views_of(out@),
                spec_classify_build_rows(
                    all.subrange(i as int, all.len() as int),
                    shape,
                    context@,
                ),
            ),
        decreases rows.len() - i,
    {
        let ghost sub_i = all.subrange(i as int, all.len() as int);
        let ghost sub_i1 = all.subrange(i as int + 1, all.len() as int);
        proof {
            assert(sub_i.len() > 0);
            assert(sub_i[0] == all[i as int]);
            assert(sub_i.drop_first() =~= sub_i1);
        }
        match classify_build_row(&rows[i], shape, context) {
            Result::Err(e) => {
                proof {
                    assert(spec_classify_build_rows(sub_i, shape, context@) == Result::Err::<
                        Seq<BuildStatusV>,
                        _,
                    >(e@));
                }
                return Result::Err(e);
            },
            Result::Ok(Option::None) => {
                proof {
                    let tail = spec_classify_build_rows(sub_i1, shape, context@);
                    if tail is Ok {
                        assert(spec_classify_build_rows(sub_i, shape, context@) == tail);
                    } else {
                        assert(spec_classify_build_rows(sub_i, shape, context@) == tail);
                    }
                }
            },
            Result::Ok(Option::Some(b)) => {
                let ghost pre = views_of(out@);
                let ghost bv = b@;
                out.push(b);
                proof {
                    assert(views_of(out@) =~= pre.push(bv));
                    let tail = spec_classify_build_rows(sub_i1, shape, context@);
                    if tail is Ok {
                        let t = tail->Ok_0;
                        assert(spec_classify_build_rows(sub_i, shape, context@) == Result::Ok::<
                            _,
                            ParseErrorV,
                        >(seq![bv] + t));
                        assert(pre + (seq![bv] + t) =~= pre.push(bv) + t);
                    } else {
                    }
                }
            },
        }
        i = i + 1;
    }
    proof {
        assert(all.subrange(i as int, all.len() as int).len() == 0);
        assert(spec_classify_build_rows(
            all.subrange(i as int, all.len() as int),
            shape,
            context@,
        ) == Result::Ok::<_, ParseErrorV>(Seq::<BuildStatusV>::empty()));
        assert(views_of(out@) + Seq::<BuildStatusV>::empty() =~= views_of(out@));
    }
    Result::Ok(out)
}

proof fn lemma_append_result_empty(r: Result<Seq<BuildStatusV>, ParseErrorV>)
    ensures
        spec_append_result(Seq::empty(), r) == r,
{
    match r {
        Result::Ok(t) => {
            assert(Seq::empty() + t =~= t);
        },
        Result::Err(_) => {},
    }
}

/// The records one row contributes: one for a data row, none for a
/// skippable or failing row.
pub open spec fn spec_row_records(r: RowData, shape: BuildTableShape, context: Seq<char>) -> Seq<
    BuildStatusV,
> {
    match spec_classify_build_row(r, shape, context) {
        Result::Ok(Option::Some(b)) => seq![b],
        _ => Seq::empty(),
    }
}

/// Every record a row classifies to respects the record invariant, and the
/// success flag, the icon and the raw status text agree: for a genuine
/// build row, success holds exactly when the icon is the success icon,
/// exactly when the status text is "Succeeded", and every detail field is
/// populated; a queued placeholder carries the queued icon, no success and
/// no detail fields.
pub proof fn lemma_row_record_wf(r: RowData, shape: BuildTableShape, context: Seq<char>, b: BuildStatusV)
    requires
        spec_classify_build_row(r, shape, context) == Result::Ok::<_, ParseErrorV>(
            Option::Some(b),
        ),
    ensures
        spec_build_wf(b),
        b.evals ==> (b.success <==> b.icon == StatusIcon::Succeeded),
        b.evals ==> (b.success <==> b.status == "Succeeded"@),
        b.evals ==> b.timestamp is Some && b.build_id is Some && b.build_url is Some
            && b.name is Some && b.arch is Some,
        !b.evals ==> b.icon == StatusIcon::Queued && !b.success,
        !b.evals ==> b.timestamp is None && b.build_id is None && b.build_url is None
            && b.name is None && b.arch is None,
{
}

/// Row order is preserved: a classified table is exactly the concatenation,
/// in table order, of the records of its rows, with nothing reordered,
/// dropped or deduplicated.
pub proof fn lemma_rows_in_order(
    rows: Seq<RowData>,
    shape: BuildTableShape,
    context: Seq<char>,
    recs: Seq<BuildStatusV>,
)
    requires
        spec_classify_build_rows(rows, shape, context) == Result::Ok::<_, ParseErrorV>(recs),
    ensures
        recs == rows.map_values(|r: RowData| spec_row_records(r, shape, context)).flatten(),
    decreases rows.len(),
{
    let f = |r: RowData| spec_row_records(r, shape, context);
    if rows.len() == 0 {
        assert(rows.map_values(f).flatten() =~= Seq::<BuildStatusV>::empty());
    } else {
        let tail = spec_classify_build_rows(rows.drop_first(), shape, context);
        let t = tail->Ok_0;
        lemma_rows_in_order(rows.drop_first(), shape, context, t);
        assert(rows.map_values(f).drop_first() =~= rows.drop_first().map_values(f));
        assert(rows.map_values(f).len() > 0);
        assert(rows.map_values(f).flatten() == rows.map_values(f).first() + rows.map_values(
            f,
        ).drop_first().flatten());
        assert(rows.map_values(f).first() == spec_row_records(rows[0], shape, context));
        match spec_classify_build_row(rows[0], shape, context) {
            Result::Ok(Option::Some(b)) => {
                assert(recs == seq![b] + t);
                assert(recs =~= spec_row_records(rows[0], shape, context) + rows.drop_first(
                ).map_values(f).flatten());
            },
            Result::Ok(Option::None) => {
                assert(recs == t);
                assert(spec_row_records(rows[0], shape, context) =~= Seq::<
                    BuildStatusV,
                >::empty());
                assert(recs =~= spec_row_records(rows[0], shape, context) + rows.drop_first(
                ).map_values(f).flatten());
            },
            Result::Err(_) => {
                assert(false);
            },
        }
    }
}

/// Every record of a classified table respects the record invariant.
pub proof fn lemma_classified_records_wf(
    rows: Seq<RowData>,
    shape: BuildTableShape,
    context: Seq<char>,
    recs: Seq<BuildStatusV>,
)
    requires
        spec_classify_build_rows(rows, shape, context) == Result::Ok::<_, ParseErrorV>(recs),
    ensures
        forall|i: int| 0 <= i < recs.len() ==> spec_build_wf(#[trigger] recs[i]),
    decreases rows.len(),
{
    if rows.len() == 0 {
    } else {
        let tail = spec_classify_build_rows(rows.drop_first(), shape, context);
        let t = tail->Ok_0;
        lemma_classified_records_wf(rows.drop_first(), shape, context, t);
        match spec_classify_build_row(rows[0], shape, context) {
            Result::Ok(Option::Some(b)) => {
                lemma_row_record_wf(rows[0], shape, context, b);
                assert(recs == seq![b] + t);
                assert(forall|i: int| 0 <= i < recs.len() ==> spec_build_wf(#[trigger] recs[i]))
                    by {
                    assert(recs[0] == b);
                    assert(forall|i: int| 1 <= i < recs.len() ==> recs[i] == t[i - 1]);
                };
            },
            Result::Ok(Option::None) => {
                assert(recs == t);
            },
            Result::Err(_) => {
                assert(false);
            },
        }
    }
}

/// A link row of unexpected shape is silently skipped: it contributes no
/// record, and no error.
pub proof fn lemma_skippable_row_silent(r: RowData, shape: BuildTableShape, context: Seq<char>)
    requires
        r.cells@.len() != spec_accepted_cells(shape),
        spec_row_skippable(r),
    ensures
        spec_classify_build_row(r, shape, context) == Result::Ok::<_, ParseErrorV>(
            Option::<BuildStatusV>::None,
        ),
        spec_row_records(r, shape, context) == Seq::<BuildStatusV>::empty(),
{
}

/// A row of unexpected shape that is not a link row fails the table, with
/// the error carrying the row's raw markup.
pub proof fn lemma_malformed_row_fails(r: RowData, shape: BuildTableShape, context: Seq<char>)
    requires
        r.cells@.len() != spec_accepted_cells(shape),
        !spec_row_skippable(r),
    ensures
        spec_classify_build_row(r, shape, context) == Result::Err::<Option<BuildStatusV>, _>(
            ParseErrorV::Shape { context: context, html: r.html@ },
        ),
{
}

/// The JSON of a record with every optional field absent holds exactly
/// the icon, success, status and evals fields and nothing else.
pub proof fn lemma_json_omits_absent_fields(b: BuildStatusV)
    requires
        b.timestamp is None,
        b.build_id is None,
        b.build_url is None,
        b.name is None,
        b.arch is None,
        b.job_name is None,
    ensures
        spec_build_status_json(b) == "{\"icon\":"@ + spec_json_string(spec_glyph(b.icon))
            + ",\"success\":"@ + spec_json_bool(b.success) + ",\"status\":"@ + spec_json_string(
            b.status,
        ) + ",\"evals\":"@ + spec_json_bool(b.evals) + seq!['}'],
{
    assert(spec_build_status_json(b) =~= "{\"icon\":"@ + spec_json_string(spec_glyph(b.icon))
        + ",\"success\":"@ + spec_json_bool(b.success) + ",\"status\":"@ + spec_json_string(
        b.status,
    ) + ",\"evals\":"@ + spec_json_bool(b.evals) + seq!['}']);
}

/// Builds the error placeholder: warning icon, the message as status, no
/// details.
pub fn warning_record(status: String) -> (b: BuildStatus)
    ensures
        b@ == spec_warning_record(status@),
        b.wf(),
        b.icon == StatusIcon::Warning && !b.success && !b.evals,
{
    let b = BuildStatus { icon: StatusIcon::Warning, status, ..Default::default() };
    proof {
        assert(b@ =~~= spec_warning_record(b.status@));
    }
    b
}

/// The JSON rendering of one record: fields in declaration order, every
/// absent optional field omitted, the icon as its glyph.
pub open spec fn spec_build_status_json(b: BuildStatusV) -> Seq<char> {
    "{\"icon\":"@ + spec_json_string(spec_glyph(b.icon)) + ",\"success\":"@ + spec_json_bool(
        b.success,
    ) + ",\"status\":"@ + spec_json_string(b.status) + spec_json_opt_field(
        ",\"timestamp\":"@,
        b.timestamp,
    ) + spec_json_opt_field(",\"build_id\":"@, b.build_id) + spec_json_opt_field(
        ",\"build_url\":"@,
        b.build_url,
    ) + spec_json_opt_field(",\"name\":"@, b.name) + spec_json_opt_field(",\"arch\":"@, b.arch)
        + ",\"evals\":"@ + spec_json_bool(b.evals) + spec_json_opt_field(
        ",\"job_name\":"@,
        b.job_name,
    ) + seq!['}']
}

impl BuildStatus {
    /// Serialises the record as one compact JSON object, absent optional
    /// fields omitted.
    pub fn to_json(&self) -> (r: String)
        ensures
            r@ == spec_build_status_json(self@),
    {
        let mut out = "{\"icon\":".to_owned();
        append_json_string(&mut out, self.icon.glyph());
        out.append(",\"success\":");
        append_json_bool(&mut out, self.success);
        out.append(",\"status\":");
        append_json_string(&mut out, self.status.as_str());
        append_json_opt_field(&mut out, ",\"timestamp\":", &self.timestamp);
        append_json_opt_field(&mut out, ",\"build_id\":", &self.build_id);
        append_json_opt_field(&mut out, ",\"build_url\":", &self.build_url);
        append_json_opt_field(&mut out, ",\"name\":", &self.name);
        append_json_opt_field(&mut out, ",\"arch\":", &self.arch);
        out.append(",\"evals\":");
        append_json_bool(&mut out, self.evals);
        append_json_opt_field(&mut out, ",\"job_name\":", &self.job_name);
        out.append("}");
        proof {
            reveal_strlit("}");
            assert("}"@ =~= seq!['}']);
            assert(out@ =~= spec_build_status_json(self@));
        }
        out
    }

    /// The table cells this record renders as: the icon with the status
    /// text (bare glyph for a success, parenthesised text for a failure),
    /// the job name where present, then name and build date for genuine
    /// rows, and the build link.
    pub fn format_cells(&self) -> (r: Vec<String>)
        ensures
            r@.map_values(|s: String| s@) == spec_build_status_cells(self@),
    {
        let mut row: Vec<String> = Vec::new();
        let mut first = self.icon.glyph().to_owned();
        if !self.evals {
            first.append(" ");
            first.append(self.status.as_str());
        } else if !self.success {
            first.append(" (");
            first.append(self.status.as_str());
            first.append(")");
        }
        proof {
            reveal_strlit(" ");
            reveal_strlit(" (");
            reveal_strlit(")");
        }
        row.push(first);
        match &self.job_name {
            Option::Some(j) => {
                row.push(j.clone());
            },
            Option::None => {},
        }
        if self.evals {
            let name = match &self.name {
                Option::Some(n) => n.clone(),
                Option::None => String::new(),
            };
            row.push(name);
            let date = match &self.timestamp {
                Option::Some(t) => date_part(t.as_str()).to_owned(),
                Option::None => String::new(),
            };
            proof {
                assert(crate::strutil::spec_find_char(Seq::<char>::empty(), 'T') == 0);
            }
            row.push(date);
        }
        let url = match &self.build_url {
            Option::Some(u) => u.clone(),
            Option::None => String::new(),
        };
        row.push(url);
        proof {
            assert(row@.map_values(|s: String| s@) =~= spec_build_status_cells(self@));
        }
        row
    }
}

/// The table cells of one record, in order.
pub open spec fn spec_build_status_cells(b: BuildStatusV) -> Seq<Seq<char>> {
    let first = if !b.evals {
        spec_glyph(b.icon) + " "@ + b.status
    } else if !b.success {
        spec_glyph(b.icon) + " ("@ + b.status + ")"@
    } else {
        spec_glyph(b.icon)
    };
    let head = match b.job_name {
        Option::Some(j) => seq![first, j],
        Option::None => seq![first],
    };
    let details = if b.evals {
        seq![opt_or_empty(b.name), spec_date_part(opt_or_empty(b.timestamp))]
    } else {
        Seq::<Seq<char>>::empty()
    };
    head + details + seq![opt_or_empty(b.build_url)]
}

/// The JSON rendering of a whole record list.
pub open spec fn spec_builds_json(s: Seq<BuildStatusV>) -> Seq<char> {
    spec_json_array(s.map_values(|b: BuildStatusV| spec_build_status_json(b)))
}

/// Serialises a record list as one compact JSON array.
pub fn builds_to_json(builds: &Vec<BuildStatus>) -> (r: String)
    ensures
        r@ == spec_builds_json(views_of(builds@)),
{
    let ghost f = |b: BuildStatusV| spec_build_status_json(b);
    let mut out = "[".to_owned();
    proof {
        reveal_strlit("[");
        assert("["@ =~= seq!['[']);
        assert(views_of(builds@.subrange(0, 0)).map_values(f) =~= Seq::<Seq<char>>::empty());
    }
    let mut i: usize = 0;
    while i < builds.len()
        invariant
            0 <= i <= builds@.len(),
            f == (|b: BuildStatusV| spec_build_status_json(b)),
            out@ == seq!['['] + spec_json_array_body(
                views_of(builds@.subrange(0, i as int)).map_values(f),
            ),
        decreases builds@.len() - i,
    {
        if i > 0 {
            out.append(",");
            proof {
                reveal_strlit(",");
                assert(","@ =~= seq![',']);
            }
        }
        let item = builds[i].to_json();
        out.append(item.as_str());
        proof {
            let pre = views_of(builds@.subrange(0, i as int)).map_values(f);
            let cur = views_of(builds@.subrange(0, i as int + 1)).map_values(f);
            assert(cur =~= pre.push(f(builds@[i as int]@)));
            lemma_json_array_body_snoc(pre, f(builds@[i as int]@));
            if i == 0 {
                assert(pre.len() == 0);
                assert(out@ =~= seq!['['] + spec_json_array_body(cur));
            } else {
                assert(pre.len() > 0);
                assert(out@ =~= seq!['['] + spec_json_array_body(cur));
            }
        }
        i = i + 1;
    }
    out.append("]");
    proof {
        reveal_strlit("]");
        assert("]"@ =~= seq![']']);
        assert(builds@.subrange(0, builds@.len() as int) =~= builds@);
        assert(out@ =~= spec_builds_json(views_of(builds@)));
    }
    out
}

/// Container for the build status and metadata of a package.
#[derive(Clone, Debug)]
pub struct PackageStatus {
    pub package: String,
    pub url: String,
    /// Status of recent builds of the package.
    pub builds: Vec<BuildStatus>,
}

impl PackageStatus {
    /// Initialises the status container with the resolved package name and
    /// the resolved command line arguments.
    pub fn from_package_with_args(package: &str, args: &crate::args::ResolvedArgs) -> (r: Self)
        ensures
            r.package@ == package@,
            r.url@ == crate::constants::spec_host_url() + "/job/"@ + args@.jobset + seq!['/']
                + package@,
            r.builds@.len() == 0,
    {
        let mut url = crate::constants::host_url().to_owned();
        url.append("/job/");
        url.append(args.jobset.as_str());
        url.append("/");
        url.append(package);
        proof {
            reveal_strlit("/");
            assert("/"@ =~= seq!['/']);
            assert(url@ =~= crate::constants::spec_host_url() + "/job/"@ + args@.jobset
                + seq!['/'] + package@);
        }
        PackageStatus { package: package.to_owned(), url, builds: Vec::new() }
    }

    /// The package report URL this report reads.
    pub fn get_url(&self) -> (r: &str)
        ensures
            r@ == self.url@,
    {
        self.url.as_str()
    }

    /// Replaces the records with the single error placeholder carrying the
    /// given message.
    pub fn finish_with_error(self, status: String) -> (r: Self)
        ensures
            r.package@ == self.package@,
            r.url@ == self.url@,
            views_of(r.builds@) =~= seq![spec_warning_record(status@)],
    {
        let mut builds: Vec<BuildStatus> = Vec::new();
        builds.push(warning_record(status));
        proof {
            assert(views_of(builds@) =~= seq![views_of(builds@)[0]]);
        }
        PackageStatus { builds, ..self }
    }

    /// Reads the builds table out of a fetched package report page, under
    /// the five-column package shape.  A page without the expected table
    /// yields the single error placeholder carrying the page's own
    /// explanation — an alert text collapsed to one line, or the
    /// synthesised locator message; a malformed row fails the whole
    /// report.  On success the records are either that one placeholder or
    /// exactly the classification of some row sequence, and every record
    /// respects the record invariant.
    pub fn read_from_html(self, html: &str) -> (r: Result<Self, ParseError>)
        ensures
            match r {
                Result::Ok(s) => {
                    &&& s.package@ == self.package@
                    &&& s.url@ == self.url@
                    &&& forall|i: int| 0 <= i < s.builds@.len()
                        ==> spec_build_wf(#[trigger] s.builds@[i]@)
                    &&& ((exists|m: Seq<char>|
                        views_of(s.builds@) == seq![#[trigger] spec_warning_record(m)]
                            && crate::report::spec_locator_message(
                            m,
                            crate::report::spec_tbody_selector(""@),
                            self.url@,
                        )) || (exists|rows: Seq<RowData>|
                        #[trigger] spec_classify_build_rows(
                            rows,
                            BuildTableShape::Package,
                            self.package@,
                        ) == Result::Ok::<_, ParseErrorV>(views_of(s.builds@))))
                },
                Result::Err(_) => true,
            },
    {
        let doc = crate::soup::parse_document(html);
        match crate::report::find_tbody(&doc, "", self.url.as_str()) {
            Result::Err(status) => {
                let ghost m = status@;
                let r = self.finish_with_error(status);
                proof {
                    assert(views_of(r.builds@) == seq![spec_warning_record(m)]);
                    assert(forall|i: int| 0 <= i < r.builds@.len()
                        ==> spec_build_wf(#[trigger] r.builds@[i]@)) by {
                        assert(views_of(r.builds@)[0] == r.builds@[0]@);
                    }
                }
                Result::Ok(r)
            },
            Result::Ok(tbody) => {
                let rows = crate::soup::table_rows(&tbody);
                match classify_build_rows(&rows, BuildTableShape::Package, self.package.as_str()) {
                    Result::Err(e) => Result::Err(e),
                    Result::Ok(builds) => {
                        proof {
                            lemma_classified_records_wf(
                                rows@,
                                BuildTableShape::Package,
                                self.package@,
                                views_of(builds@),
                            );
                            assert(forall|i: int| 0 <= i < builds@.len()
                                ==> spec_build_wf(#[trigger] builds@[i]@)) by {
                                assert(forall|i: int| 0 <= i < builds@.len()
                                    ==> views_of(builds@)[i] == #[trigger] builds@[i]@);
                            }
                        }
                        Result::Ok(PackageStatus { builds, ..self })
                    },
                }
            },
        }
    }

    /// Whether the report's first — most recent — record reports success:
    /// the one fact the process exit code is built from.
    pub fn first_success(&self) -> (r: bool)
        ensures
            r == (self.builds@.len() > 0 && self.builds@[0]@.success),
    {
        if self.builds.len() > 0 {
            self.builds[0].success
        } else {
            false
        }
    }
}

} // verus!
