//! Evaluation-detail reports: the inputs table, the input-changes table
//! with its best-effort revision extraction, and the per-evaluation
//! container that aggregates them with the named build-outcome buckets.

use vstd::prelude::*;
use scraper::{ElementRef, Html};
use crate::icons::StatusIcon;
use crate::builds::{
    BuildStatus, BuildStatusV, views_of, spec_build_wf, classify_build_rows,
    lemma_classified_records_wf,
};
use crate::rows::{
    ParseError, ParseErrorV, RowData, opt_view, spec_row_skippable, row_skippable,
};
use crate::strutil::{
    matches_at, spec_trim, trim, match_at, spec_u64_ok, spec_u64_body, spec_digits_val, parse_u64,
    spec_u64_dec, u64_to_string, spec_find_char, find_char,
};
use crate::jsonfmt::{
    spec_json_string, spec_json_opt_field, spec_json_array_body, spec_json_array,
    lemma_json_array_body_snoc, append_json_string, append_json_opt_field, append_json_u64,
};

verus! {

/// The characters a revision hash is made of: decimal digits and lower
/// case letters.
pub open spec fn spec_rev_char(c: char) -> bool {
    ('0' <= c && c <= '9') || ('a' <= c && c <= 'z')
}

/// Executable revision-character test, usable as its own spec.
#[verifier::when_used_as_spec(spec_rev_char)]
pub fn is_rev_char(c: char) -> (r: bool)
    ensures
        r == spec_rev_char(c),
{
    ('0' <= c && c <= '9') || ('a' <= c && c <= 'z')
}

/// The length of the run of revision characters starting at `i`.
pub open spec fn spec_run_len(s: Seq<char>, i: int) -> int
    decreases s.len() - i,
    when 0 <= i <= s.len()
{
    if i >= s.len() {
        0
    } else if !spec_rev_char(s[i]) {
        0
    } else {
        1 + spec_run_len(s, i + 1)
    }
}

proof fn lemma_run_len_at(s: Seq<char>, start: int, j: int)
    requires
        0 <= start <= j <= s.len(),
        forall|k: int| start <= k < j ==> spec_rev_char(#[trigger] s[k]),
        j == s.len() || !spec_rev_char(s[j]),
    ensures
        spec_run_len(s, start) == j - start,
    decreases j - start,
{
    if j == start {
    } else {
        lemma_run_len_at(s, start + 1, j);
    }
}

/// The key occurs at `p` and is followed by at least one revision
/// character.
pub open spec fn spec_key_hit(s: Seq<char>, key: Seq<char>, p: int) -> bool {
    matches_at(s, key, p) && p + key.len() < s.len() && spec_rev_char(s[p + key.len()])
}

/// The value extracted for a query key: the run of revision characters
/// after the key's last occurrence that is followed by at least one such
/// character, scanning from the end as a greedy anchored pattern would.
pub open spec fn spec_rev_param_from(s: Seq<char>, key: Seq<char>, p: int) -> Option<Seq<char>>
    decreases p + 1,
    when p < s.len()
{
    if p < 0 {
        Option::None
    } else if spec_key_hit(s, key, p) {
        Option::Some(
            s.subrange(p + key.len(), p + key.len() + spec_run_len(s, p + key.len())),
        )
    } else {
        spec_rev_param_from(s, key, p - 1)
    }
}

/// The revision value a query string yields for a key, if any.
pub open spec fn spec_rev_param(s: Seq<char>, key: Seq<char>) -> Option<Seq<char>> {
    if s.len() >= key.len() + 1 {
        spec_rev_param_from(s, key, s.len() - key.len() - 1)
    } else {
        Option::None
    }
}

/// Extracts the revision value for a query key out of a URL: the maximal
/// run of digits and lower-case letters after the last occurrence of the
/// key that is followed by at least one such character.
pub fn rev_param(s: &str, key: &str) -> (r: Option<String>)
    ensures
        opt_view(r) == spec_rev_param(s@, key@),
{
    let slen = s.unicode_len();
    let klen = key.unicode_len();
    if slen <= klen {
        return Option::None;
    }
    let mut p: usize = slen - klen - 1;
    loop
        invariant
            0 <= p <= slen - klen - 1,
            slen == s@.len(),
            klen == key@.len(),
            klen < slen,
            spec_rev_param(s@, key@) == spec_rev_param_from(s@, key@, p as int),
        decreases p,
    {
        let hit = if match_at(s, key, p) {
            let start = p + klen;
            start < slen && is_rev_char(s.get_char(start))
        } else {
            false
        };
        if hit {
            let start = p + klen;
            let mut j: usize = start;
            while j < slen && is_rev_char(s.get_char(j))
                invariant
                    start <= j <= slen,
                    slen == s@.len(),
                    forall|k: int| start <= k < j ==> spec_rev_char(#[trigger] s@[k]),
                decreases slen - j,
            {
                j = j + 1;
            }
            proof {
                lemma_run_len_at(s@, start as int, j as int);
            }
            return Option::Some(s.substring_char(start, j).to_owned());
        }
        if p == 0 {
            proof {
                assert(!spec_key_hit(s@, key@, 0));
                assert(spec_rev_param_from(s@, key@, -1) is None);
                assert(spec_rev_param_from(s@, key@, 0) == spec_rev_param_from(s@, key@, -1));
            }
            return Option::None;
        }
        p = p - 1;
    }
}

/// Positions `i` splits `s` into a nonempty run of revision characters,
/// the words " to ", and another nonempty run of revision characters.
pub open spec fn spec_split_hit(s: Seq<char>, i: int) -> bool {
    &&& 0 < i
    &&& i + 4 < s.len()
    &&& matches_at(s, " to "@, i)
    &&& forall|k: int| 0 <= k < i ==> spec_rev_char(#[trigger] s[k])
    &&& forall|k: int| i + 4 <= k < s.len() ==> spec_rev_char(#[trigger] s[k])
}

/// The revision pair read out of a description of the form
/// `<rev> to <rev>`, if the whole description has that form.
pub open spec fn spec_short_revs_from(s: Seq<char>, i: int) -> Option<(Seq<char>, Seq<char>)>
    decreases s.len() - i,
    when 0 <= i <= s.len()
{
    if i >= s.len() {
        Option::None
    } else if spec_split_hit(s, i) {
        Option::Some((s.subrange(0, i), s.subrange(i + 4, s.len() as int)))
    } else {
        spec_short_revs_from(s, i + 1)
    }
}

/// The revision pair of a whole-description `<rev> to <rev>` form.
pub open spec fn spec_short_revs(s: Seq<char>) -> Option<(Seq<char>, Seq<char>)> {
    spec_short_revs_from(s, 0)
}

proof fn lemma_short_revs_skip_to(s: Seq<char>, i: int, h: int)
    requires
        0 <= i <= h <= s.len(),
        forall|j: int| i <= j < h ==> !spec_split_hit(s, j),
    ensures
        spec_short_revs_from(s, i) == spec_short_revs_from(s, h),
    decreases h - i,
{
    if i < h {
        lemma_short_revs_skip_to(s, i + 1, h);
    }
}

proof fn lemma_short_revs_no_hit(s: Seq<char>, i: int)
    requires
        0 <= i <= s.len(),
        forall|j: int| i <= j < s.len() ==> !spec_split_hit(s, j),
    ensures
        spec_short_revs_from(s, i) is None,
    decreases s.len() - i,
{
    if i < s.len() {
        lemma_short_revs_no_hit(s, i + 1);
    }
}

fn rev_in_range(s: &str, a: usize, b: usize) -> (r: bool)
    requires
        a <= b <= s@.len(),
    ensures
        r == (forall|k: int| a <= k < b ==> spec_rev_char(#[trigger] s@[k])),
{
    let mut k = a;
    while k < b
        invariant
            a <= k <= b,
            b <= s@.len(),
            forall|j: int| a <= j < k ==> spec_rev_char(#[trigger] s@[j]),
        decreases b - k,
    {
        if !is_rev_char(s.get_char(k)) {
            assert(!spec_rev_char(s@[k as int]));
            return false;
        }
        k = k + 1;
    }
    true
}

/// Extracts the revision pair of a description that reads, in whole, as
/// `<rev> to <rev>`.
pub fn short_revs_of(s: &str) -> (r: Option<(String, String)>)
    ensures
        match r {
            Option::Some(p) => spec_short_revs(s@) == Option::Some((p.0@, p.1@)),
            Option::None => spec_short_revs(s@) is None,
        },
{
    proof {
        reveal_strlit(" to ");
    }
    let len = s.unicode_len();
    let mut r0: usize = 0;
    while r0 < len && is_rev_char(s.get_char(r0))
        invariant
            0 <= r0 <= len,
            len == s@.len(),
            forall|k: int| 0 <= k < r0 ==> spec_rev_char(#[trigger] s@[k]),
        decreases len - r0,
    {
        r0 = r0 + 1;
    }
    proof {
        assert forall|j: int| 0 <= j < r0 implies !spec_split_hit(s@, j) by {
            if spec_split_hit(s@, j) {
                assert(matches_at(s@, " to "@, j));
                assert(s@.subrange(j, j + 4)[0] == s@[j]);
                assert(s@[j] == ' ');
                assert(spec_rev_char(s@[j]));
                assert(false);
            }
        }
        lemma_short_revs_skip_to(s@, 0, r0 as int);
    }
    if r0 == 0 || r0 >= len {
        proof {
            if r0 < len {
                assert(forall|j: int| r0 <= j < len ==> !spec_split_hit(s@, j));
            }
            lemma_short_revs_no_hit(s@, r0 as int);
        }
        return Option::None;
    }
    let ok = if len - r0 > 4 && match_at(s, " to ", r0) {
        rev_in_range(s, r0 + 4, len)
    } else {
        false
    };
    if ok {
        proof {
            assert(spec_split_hit(s@, r0 as int));
        }
        let first = s.substring_char(0, r0).to_owned();
        let second = s.substring_char(r0 + 4, len).to_owned();
        return Option::Some((first, second));
    }
    proof {
        assert(!spec_split_hit(s@, r0 as int));
        assert(forall|j: int| r0 < j < len ==> !spec_split_hit(s@, j)) by {
            assert(!spec_rev_char(s@[r0 as int]));
        }
        assert(forall|j: int| r0 as int <= j < len ==> !spec_split_hit(s@, j));
        lemma_short_revs_no_hit(s@, r0 as int);
    }
    Option::None
}

/// How one input changed between consecutive evaluations, with the
/// best-effort revision pairs.
#[derive(Clone, Debug)]
pub struct EvalInputChanges {
    pub input: String,
    pub description: String,
    pub url: Option<String>,
    /// Full revisions, read out of a diff URL's query parameters.
    pub revs: Option<(String, String)>,
    /// Abbreviated revisions, read out of the free-text description.
    pub short_revs: Option<(String, String)>,
}

/// Spec-level image of an `EvalInputChanges`.
pub ghost struct EvalInputChangesV {
    pub input: Seq<char>,
    pub description: Seq<char>,
    pub url: Option<Seq<char>>,
    pub revs: Option<(Seq<char>, Seq<char>)>,
    pub short_revs: Option<(Seq<char>, Seq<char>)>,
}

/// The view of an optional string pair.
pub open spec fn opt_pair_view(o: Option<(String, String)>) -> Option<(Seq<char>, Seq<char>)> {
    match o {
        Option::None => Option::None,
        Option::Some(p) => Option::Some((p.0@, p.1@)),
    }
}

impl View for EvalInputChanges {
    type V = EvalInputChangesV;

    open spec fn view(&self) -> EvalInputChangesV {
        EvalInputChangesV {
            input: self.input@,
            description: self.description@,
            url: opt_view(self.url),
            revs: opt_pair_view(self.revs),
            short_revs: opt_pair_view(self.short_revs),
        }
    }
}

/// What one input-changes row normalises to: both cell texts trimmed, the
/// revision pair from the diff URL when both keys yield one, and the
/// abbreviated pair from the description; either extraction may fail
/// without failing the row.
pub open spec fn spec_input_change(
    input: Seq<char>,
    description: Seq<char>,
    url: Option<Seq<char>>,
) -> EvalInputChangesV {
    let desc = spec_trim(description);
    EvalInputChangesV {
        input: spec_trim(input),
        description: desc,
        url: url,
        revs: match url {
            Option::None => Option::None,
            Option::Some(u) => match (spec_rev_param(u, "rev1="@), spec_rev_param(u, "rev2="@)) {
                (Option::Some(a), Option::Some(b)) => Option::Some((a, b)),
                _ => Option::None,
            },
        },
        short_revs: if desc.len() > 0 {
            spec_short_revs(desc)
        } else {
            Option::None
        },
    }
}

/// Builds one input-changes record from the row's plain facts.
pub fn input_change_from_cells(input: &str, description: &str, url: Option<String>) -> (r:
    EvalInputChanges)
    ensures
        r@ == spec_input_change(input@, description@, opt_view(url)),
{
    let desc = trim(description);
    let revs: Option<(String, String)> = match &url {
        Option::None => Option::None,
        Option::Some(u) => {
            let r1 = rev_param(u.as_str(), "rev1=");
            let r2 = rev_param(u.as_str(), "rev2=");
            match (r1, r2) {
                (Option::Some(a), Option::Some(b)) => Option::Some((a, b)),
                _ => Option::None,
            }
        },
    };
    let short_revs: Option<(String, String)> = if desc.unicode_len() > 0 {
        short_revs_of(desc)
    } else {
        Option::None
    };
    let r = EvalInputChanges {
        input: trim(input).to_owned(),
        description: desc.to_owned(),
        url,
        revs,
        short_revs,
    };
    proof {
        assert(r@ =~~= spec_input_change(input@, description@, opt_view(r.url)));
    }
    r
}

/// One row of an evaluation's inputs table; a row may legitimately have
/// some cells empty.
#[derive(Clone, Debug)]
pub struct EvalInput {
    pub name: Option<String>,
    pub input_type: Option<String>,
    pub value: Option<String>,
    pub revision: Option<String>,
    pub store_path: Option<String>,
}

/// Spec-level image of an `EvalInput`.
pub ghost struct EvalInputV {
    pub name: Option<Seq<char>>,
    pub input_type: Option<Seq<char>>,
    pub value: Option<Seq<char>>,
    pub revision: Option<Seq<char>>,
    pub store_path: Option<Seq<char>>,
}

impl View for EvalInput {
    type V = EvalInputV;

    open spec fn view(&self) -> EvalInputV {
        EvalInputV {
            name: opt_view(self.name),
            input_type: opt_view(self.input_type),
            value: opt_view(self.value),
            revision: opt_view(self.revision),
            store_path: opt_view(self.store_path),
        }
    }
}

/// How one cell of the inputs table reads: trimmed, an empty cell counts
/// as absent.
pub open spec fn spec_cell_opt(text: Seq<char>) -> Option<Seq<char>> {
    let t = spec_trim(text);
    if t.len() == 0 {
        Option::None
    } else {
        Option::Some(t)
    }
}

fn cell_opt(text: &str) -> (r: Option<String>)
    ensures
        opt_view(r) == spec_cell_opt(text@),
{
    let t = trim(text);
    if t.unicode_len() == 0 {
        Option::None
    } else {
        Option::Some(t.to_owned())
    }
}

/// Classification of one row of the inputs table: five cells are name,
/// type, value, revision and store path, each trimmed with empty cells
/// absent; any other shape is skipped when the row is one of the
/// dashboard's own link rows and a shape error otherwise.
pub open spec fn spec_classify_input_row(r: RowData, context: Seq<char>) -> Result<
    Option<EvalInputV>,
    ParseErrorV,
> {
    let n = r.cells@.len();
    if n != 5 {
        if spec_row_skippable(r) {
            Result::Ok(Option::None)
        } else {
            Result::Err(ParseErrorV::Shape { context: context, html: r.html@ })
        }
    } else {
        Result::Ok(
            Option::Some(
                EvalInputV {
                    name: spec_cell_opt(r.cells@[0].text@),
                    input_type: spec_cell_opt(r.cells@[1].text@),
                    value: spec_cell_opt(r.cells@[2].text@),
                    revision: spec_cell_opt(r.cells@[3].text@),
                    store_path: spec_cell_opt(r.cells@[4].text@),
                },
            ),
        )
    }
}

/// The image of a per-row classification result.
pub open spec fn spec_input_row_result_view(res: Result<Option<EvalInput>, ParseError>) -> Result<
    Option<EvalInputV>,
    ParseErrorV,
> {
    match res {
        Result::Ok(Option::None) => Result::Ok(Option::None),
        Result::Ok(Option::Some(v)) => Result::Ok(Option::Some(v@)),
        Result::Err(e) => Result::Err(e@),
    }
}

/// Classifies one row of the inputs table.
pub fn classify_input_row(r: &RowData, context: &str) -> (res: Result<
    Option<EvalInput>,
    ParseError,
>)
    ensures
        spec_input_row_result_view(res) == spec_classify_input_row(*r, context@),
{
    let n = r.cells.len();
    if n != 5 {
        if row_skippable(r) {
            return Result::Ok(Option::None);
        }
        return Result::Err(
            ParseError::Shape { context: context.to_owned(), html: r.html.clone() },
        );
    }
    let v = EvalInput {
        name: cell_opt(r.cells[0].text.as_str()),
        input_type: cell_opt(r.cells[1].text.as_str()),
        value: cell_opt(r.cells[2].text.as_str()),
        revision: cell_opt(r.cells[3].text.as_str()),
        store_path: cell_opt(r.cells[4].text.as_str()),
    };
    proof {
        assert(spec_input_row_result_view(Result::Ok(Option::Some(v)))
            =~~= spec_classify_input_row(*r, context@));
    }
    Result::Ok(Option::Some(v))
}

/// Classification of the whole inputs table, rows in table order.
pub open spec fn spec_classify_input_rows(rows: Seq<RowData>, context: Seq<char>) -> Result<
    Seq<EvalInputV>,
    ParseErrorV,
>
    decreases rows.len(),
{
    if rows.len() == 0 {
        Result::Ok(Seq::empty())
    } else {
        match spec_classify_input_row(rows[0], context) {
            Result::Err(e) => Result::Err(e),
            Result::Ok(opt) => match spec_classify_input_rows(rows.drop_first(), context) {
                Result::Err(e) => Result::Err(e),
                Result::Ok(tail) => Result::Ok(
                    match opt {
                        Option::None => tail,
                        Option::Some(b) => seq![b] + tail,
                    },
                ),
            },
        }
    }
}

/// The images of a sequence of input records.
pub open spec fn input_views_of(s: Seq<EvalInput>) -> Seq<EvalInputV> {
    s.map_values(|v: EvalInput| v@)
}

/// Classifies every row of the inputs table, in table order.
pub fn classify_input_rows(rows: &Vec<RowData>, context: &str) -> (res: Result<
    Vec<EvalInput>,
    ParseError,
>)
    ensures
        match res {
            Result::Ok(v) => spec_classify_input_rows(rows@, context@) == Result::Ok::<
                _,
                ParseErrorV,
            >(input_views_of(v@)),
            Result::Err(e) => spec_classify_input_rows(rows@, context@) == Result::Err::<
                Seq<EvalInputV>,
                _,
            >(e@),
        },
{
    let ghost all = rows@;
    let mut out: Vec<EvalInput> = Vec::new();
    let mut i: usize = 0;
    proof {
        assert(all.subrange(0, all.len() as int) =~= all);
        assert(input_views_of(out@) =~= Seq::<EvalInputV>::empty());
        let full = spec_classify_input_rows(all, context@);
        match full {
            Result::Ok(t) => {
                assert(Seq::<EvalInputV>::empty() + t =~= t);
            },
            Result::Err(_) => {},
        }
    }
    while i < rows.len()
        invariant
            0 <= i <= rows.len(),
            all == rows@,
            spec_classify_input_rows(all, context@) == (match spec_classify_input_rows(
                all.subrange(i as int, all.len() as int),
                context@,
            ) {
                Result::Ok(t) => Result::Ok::<Seq<EvalInputV>, ParseErrorV>(
                    input_views_of(out@) + t,
                ),
                Result::Err(e) => Result::Err(e),
            }),
        decreases rows.len() - i,
    {
        let ghost sub_i = all.subrange(i as int, all.len() as int);
        let ghost sub_i1 = all.subrange(i as int + 1, all.len() as int);
        proof {
            assert(sub_i.len() > 0);
            assert(sub_i[0] == all[i as int]);
            assert(sub_i.drop_first() =~= sub_i1);
        }
        match classify_input_row(&rows[i], context) {
            Result::Err(e) => {
                proof {
                    assert(spec_classify_input_rows(sub_i, context@) == Result::Err::<
                        Seq<EvalInputV>,
                        _,
                    >(e@));
                }
                return Result::Err(e);
            },
            Result::Ok(Option::None) => {
            },
            Result::Ok(Option::Some(v)) => {
                let ghost pre = input_views_of(out@);
                let ghost vv = v@;
                out.push(v);
                proof {
                    assert(input_views_of(out@) =~= pre.push(vv));
                    let tail = spec_classify_input_rows(sub_i1, context@);
                    if tail is Ok {
                        let t = tail->Ok_0;
                        assert(pre + (seq![vv] + t) =~= pre.push(vv) + t);
                    }
                }
            },
        }
        i = i + 1;
    }
    proof {
        assert(all.subrange(i as int, all.len() as int).len() == 0);
        assert(input_views_of(out@) + Seq::<EvalInputV>::empty() =~= input_views_of(out@));
    }
    Result::Ok(out)
}

/// The records one row of the inputs table contributes: one for a data
/// row, none for a skippable or failing row.
pub open spec fn spec_input_row_records(r: RowData, context: Seq<char>) -> Seq<EvalInputV> {
    match spec_classify_input_row(r, context) {
        Result::Ok(Option::Some(v)) => seq![v],
        _ => Seq::empty(),
    }
}

/// Row order is preserved: a classified inputs table is exactly the
/// concatenation, in table order, of the records of its rows, with nothing
/// reordered, dropped or deduplicated.
pub proof fn lemma_input_rows_in_order(rows: Seq<RowData>, context: Seq<char>, recs: Seq<EvalInputV>)
    requires
        spec_classify_input_rows(rows, context) == Result::Ok::<_, ParseErrorV>(recs),
    ensures
        recs == rows.map_values(|r: RowData| spec_input_row_records(r, context)).flatten(),
    decreases rows.len(),
{
    let f = |r: RowData| spec_input_row_records(r, context);
    if rows.len() == 0 {
        assert(rows.map_values(f).flatten() =~= Seq::<EvalInputV>::empty());
    } else {
        let tail = spec_classify_input_rows(rows.drop_first(), context);
        let t = tail->Ok_0;
        lemma_input_rows_in_order(rows.drop_first(), context, t);
        assert(rows.map_values(f).drop_first() =~= rows.drop_first().map_values(f));
        assert(rows.map_values(f).len() > 0);
        assert(rows.map_values(f).flatten() == rows.map_values(f).first() + rows.map_values(
            f,
        ).drop_first().flatten());
        assert(rows.map_values(f).first() == spec_input_row_records(rows[0], context));
        match spec_classify_input_row(rows[0], context) {
            Result::Ok(Option::Some(v)) => {
                assert(recs == seq![v] + t);
                assert(recs =~= spec_input_row_records(rows[0], context) + rows.drop_first(
                ).map_values(f).flatten());
            },
            Result::Ok(Option::None) => {
                assert(recs == t);
                assert(spec_input_row_records(rows[0], context) =~= Seq::<EvalInputV>::empty());
                assert(recs =~= spec_input_row_records(rows[0], context) + rows.drop_first(
                ).map_values(f).flatten());
            },
            Result::Err(_) => {
                assert(false);
            },
        }
    }
}

/// The singleton rendered field for a present value, or nothing.
pub open spec fn spec_opt_item(rendered: Seq<char>, present: bool) -> Seq<Seq<char>> {
    if present {
        seq![rendered]
    } else {
        Seq::empty()
    }
}

/// The present JSON fields of an input record, in declaration order, with
/// the `type` key for the input type.
pub open spec fn spec_eval_input_fields(v: EvalInputV) -> Seq<Seq<char>> {
    spec_opt_item(
        "\"name\":"@ + spec_json_string(crate::rows::opt_or_empty(v.name)),
        v.name is Some,
    ) + spec_opt_item(
        "\"type\":"@ + spec_json_string(crate::rows::opt_or_empty(v.input_type)),
        v.input_type is Some,
    ) + spec_opt_item(
        "\"value\":"@ + spec_json_string(crate::rows::opt_or_empty(v.value)),
        v.value is Some,
    ) + spec_opt_item(
        "\"revision\":"@ + spec_json_string(crate::rows::opt_or_empty(v.revision)),
        v.revision is Some,
    ) + spec_opt_item(
        "\"store_path\":"@ + spec_json_string(crate::rows::opt_or_empty(v.store_path)),
        v.store_path is Some,
    )
}

/// The JSON rendering of an input record: its present fields, comma
/// separated, inside braces.
pub open spec fn spec_eval_input_json(v: EvalInputV) -> Seq<char> {
    seq!['{'] + spec_json_array_body(spec_eval_input_fields(v)) + seq!['}']
}

fn push_opt_json_field(items: &mut Vec<String>, key_label: &str, v: &Option<String>)
    ensures
        final(items)@.map_values(|s: String| s@) == old(items)@.map_values(|s: String| s@)
            + spec_opt_item(
            key_label@ + spec_json_string(crate::rows::opt_or_empty(opt_view(*v))),
            *v is Some,
        ),
{
    match v {
        Option::None => {
            proof {
                assert(items@.map_values(|s: String| s@) =~= old(items)@.map_values(
                    |s: String| s@,
                ) + Seq::<Seq<char>>::empty());
            }
        },
        Option::Some(x) => {
            let mut rendered = key_label.to_owned();
            append_json_string(&mut rendered, x.as_str());
            let ghost rv = rendered@;
            items.push(rendered);
            proof {
                assert(items@.map_values(|s: String| s@) =~= old(items)@.map_values(
                    |s: String| s@,
                ).push(rv));
                assert(old(items)@.map_values(|s: String| s@).push(rv) =~= old(
                    items,
                )@.map_values(|s: String| s@) + seq![rv]);
            }
        },
    }
}

/// Joins rendered fields with commas, as a JSON object or array body.
pub fn join_comma(items: &Vec<String>) -> (r: String)
    ensures
        r@ == spec_json_array_body(items@.map_values(|s: String| s@)),
{
    let mut out = String::new();
    let mut i: usize = 0;
    proof {
        assert(items@.subrange(0, 0).map_values(|s: String| s@) =~= Seq::<Seq<char>>::empty());
    }
    while i < items.len()
        invariant
            0 <= i <= items@.len(),
            out@ == spec_json_array_body(
                items@.subrange(0, i as int).map_values(|s: String| s@),
            ),
        decreases items@.len() - i,
    {
        if i > 0 {
            out.append(",");
            proof {
                reveal_strlit(",");
                assert(","@ =~= seq![',']);
            }
        }
        out.append(items[i].as_str());
        proof {
            let pre = items@.subrange(0, i as int).map_values(|s: String| s@);
            let cur = items@.subrange(0, i as int + 1).map_values(|s: String| s@);
            assert(cur =~= pre.push(items@[i as int]@));
            lemma_json_array_body_snoc(pre, items@[i as int]@);
            assert(out@ =~= spec_json_array_body(cur));
        }
        i = i + 1;
    }
    proof {
        assert(items@.subrange(0, items@.len() as int) =~= items@);
    }
    out
}

impl EvalInput {
    /// Serialises the record as one compact JSON object, absent fields
    /// omitted and the input type under the `type` key.
    pub fn to_json(&self) -> (r: String)
        ensures
            r@ == spec_eval_input_json(self@),
    {
        let mut items: Vec<String> = Vec::new();
        proof {
            assert(items@.map_values(|s: String| s@) =~= Seq::<Seq<char>>::empty());
        }
        push_opt_json_field(&mut items, "\"name\":", &self.name);
        push_opt_json_field(&mut items, "\"type\":", &self.input_type);
        push_opt_json_field(&mut items, "\"value\":", &self.value);
        push_opt_json_field(&mut items, "\"revision\":", &self.revision);
        push_opt_json_field(&mut items, "\"store_path\":", &self.store_path);
        proof {
            assert(items@.map_values(|s: String| s@) =~= spec_eval_input_fields(self@));
        }
        let body = join_comma(&items);
        let mut out = "{".to_owned();
        out.append(body.as_str());
        out.append("}");
        proof {
            reveal_strlit("{");
            reveal_strlit("}");
            assert("{"@ =~= seq!['{']);
            assert("}"@ =~= seq!['}']);
            assert(out@ =~= spec_eval_input_json(self@));
        }
        out
    }

    /// The present fields as `key: value` lines, with the `input` key for
    /// the name, ready for plain rendering.
    pub fn format_lines(&self) -> (r: Vec<String>)
        ensures
            r@.map_values(|s: String| s@) == spec_eval_input_lines(self@),
    {
        let mut items: Vec<String> = Vec::new();
        proof {
            assert(items@.map_values(|s: String| s@) =~= Seq::<Seq<char>>::empty());
        }
        push_opt_line(&mut items, "input: ", &self.name);
        push_opt_line(&mut items, "type: ", &self.input_type);
        push_opt_line(&mut items, "value: ", &self.value);
        push_opt_line(&mut items, "revision: ", &self.revision);
        push_opt_line(&mut items, "store_path: ", &self.store_path);
        proof {
            assert(items@.map_values(|s: String| s@) =~= spec_eval_input_lines(self@));
        }
        items
    }
}

/// The present `key: value` lines of an input record, the name under the
/// `input` key.
pub open spec fn spec_eval_input_lines(v: EvalInputV) -> Seq<Seq<char>> {
    spec_opt_item("input: "@ + crate::rows::opt_or_empty(v.name), v.name is Some)
        + spec_opt_item("type: "@ + crate::rows::opt_or_empty(v.input_type), v.input_type is Some)
        + spec_opt_item("value: "@ + crate::rows::opt_or_empty(v.value), v.value is Some)
        + spec_opt_item(
        "revision: "@ + crate::rows::opt_or_empty(v.revision),
        v.revision is Some,
    ) + spec_opt_item(
        "store_path: "@ + crate::rows::opt_or_empty(v.store_path),
        v.store_path is Some,
    )
}

fn push_opt_line(items: &mut Vec<String>, label: &str, v: &Option<String>)
    ensures
        final(items)@.map_values(|s: String| s@) == old(items)@.map_values(|s: String| s@)
            + spec_opt_item(
            label@ + crate::rows::opt_or_empty(opt_view(*v)),
            *v is Some,
        ),
{
    match v {
        Option::None => {
            proof {
                assert(items@.map_values(|s: String| s@) =~= old(items)@.map_values(
                    |s: String| s@,
                ) + Seq::<Seq<char>>::empty());
            }
        },
        Option::Some(x) => {
            let mut line = label.to_owned();
            line.append(x.as_str());
            let ghost lv = line@;
            items.push(line);
            proof {
                assert(items@.map_values(|s: String| s@) =~= old(items)@.map_values(
                    |s: String| s@,
                ) + seq![lv]);
            }
        },
    }
}

/// The rendered JSON pair field for a present revision pair, or nothing.
pub open spec fn spec_json_opt_pair_field(
    label: Seq<char>,
    v: Option<(Seq<char>, Seq<char>)>,
) -> Seq<char> {
    match v {
        Option::None => Seq::empty(),
        Option::Some(p) => label + seq!['['] + spec_json_string(p.0) + seq![',']
            + spec_json_string(p.1) + seq![']'],
    }
}

fn append_json_opt_pair_field(out: &mut String, label: &str, v: &Option<(String, String)>)
    ensures
        final(out)@ == old(out)@ + spec_json_opt_pair_field(label@, opt_pair_view(*v)),
{
    match v {
        Option::None => {},
        Option::Some(p) => {
            out.append(label);
            out.append("[");
            append_json_string(out, p.0.as_str());
            out.append(",");
            append_json_string(out, p.1.as_str());
            out.append("]");
            proof {
                reveal_strlit("[");
                reveal_strlit(",");
                reveal_strlit("]");
                assert(out@ =~= old(out)@ + spec_json_opt_pair_field(
                    label@,
                    opt_pair_view(*v),
                ));
            }
        },
    }
}

/// The JSON rendering of one input-changes record: the input and the
/// description always, the URL and the revision pairs only when present.
pub open spec fn spec_input_changes_json(v: EvalInputChangesV) -> Seq<char> {
    "{\"input\":"@ + spec_json_string(v.input) + ",\"description\":"@ + spec_json_string(
        v.description,
    ) + spec_json_opt_field(",\"url\":"@, v.url) + spec_json_opt_pair_field(
        ",\"revs\":"@,
        v.revs,
    ) + spec_json_opt_pair_field(",\"short_revs\":"@, v.short_revs) + seq!['}']
}

/// The `key: value` lines of one input-changes record: the input under
/// `changed_input`, the description under `changes`, the URL and the full
/// revision pair (as `a -> b`) only when present.
pub open spec fn spec_input_changes_lines(v: EvalInputChangesV) -> Seq<Seq<char>> {
    seq!["changed_input: "@ + v.input, "changes: "@ + v.description] + spec_opt_item(
        "url: "@ + crate::rows::opt_or_empty(v.url),
        v.url is Some,
    ) + (match v.revs {
        Option::None => Seq::<Seq<char>>::empty(),
        Option::Some(p) => seq!["revs: "@ + p.0 + " -> "@ + p.1],
    })
}

impl EvalInputChanges {
    /// Serialises the record as one compact JSON object, absent optional
    /// fields omitted and revision pairs as two-element arrays.
    pub fn to_json(&self) -> (r: String)
        ensures
            r@ == spec_input_changes_json(self@),
    {
        let mut out = "{\"input\":".to_owned();
        append_json_string(&mut out, self.input.as_str());
        out.append(",\"description\":");
        append_json_string(&mut out, self.description.as_str());
        append_json_opt_field(&mut out, ",\"url\":", &self.url);
        append_json_opt_pair_field(&mut out, ",\"revs\":", &self.revs);
        append_json_opt_pair_field(&mut out, ",\"short_revs\":", &self.short_revs);
        out.append("}");
        proof {
            reveal_strlit("}");
            assert("}"@ =~= seq!['}']);
            assert(out@ =~= spec_input_changes_json(self@));
        }
        out
    }

    /// The record's `key: value` lines, ready for plain rendering.
    pub fn format_lines(&self) -> (r: Vec<String>)
        ensures
            r@.map_values(|s: String| s@) == spec_input_changes_lines(self@),
    {
        let mut items: Vec<String> = Vec::new();
        let mut input_line = "changed_input: ".to_owned();
        input_line.append(self.input.as_str());
        let ghost l0 = input_line@;
        items.push(input_line);
        let mut desc_line = "changes: ".to_owned();
        desc_line.append(self.description.as_str());
        let ghost l1 = desc_line@;
        items.push(desc_line);
        proof {
            assert(items@.map_values(|s: String| s@) =~= seq![l0, l1]);
        }
        push_opt_line(&mut items, "url: ", &self.url);
        match &self.revs {
            Option::None => {},
            Option::Some(p) => {
                let mut line = "revs: ".to_owned();
                line.append(p.0.as_str());
                line.append(" -> ");
                line.append(p.1.as_str());
                items.push(line);
            },
        }
        proof {
            assert(items@.map_values(|s: String| s@) =~~= spec_input_changes_lines(self@));
        }
        items
    }
}

/// One evaluation to query, as named on the command line.
#[derive(Clone, Debug)]
pub struct Evaluation {
    /// The query as given.
    pub spec_text: String,
    /// The evaluation identifier: the leading number of the query, zero
    /// when it has none.
    pub id: u64,
    /// The job filter after a slash, when one was given.
    pub filter: Option<String>,
}

/// The identifier a query resolves to: the value of everything before the
/// first slash, when that parses as a number, else zero.
pub open spec fn spec_eval_id_of(s: Seq<char>) -> u64 {
    let cut = spec_find_char(s, '/');
    let id_part = s.subrange(0, cut);
    if spec_u64_ok(id_part) {
        (spec_digits_val(spec_u64_body(id_part)) as u64)
    } else {
        0
    }
}

/// The filter a query resolves to: everything after the first slash, when
/// nonempty.
pub open spec fn spec_eval_filter_of(s: Seq<char>) -> Option<Seq<char>> {
    let cut = spec_find_char(s, '/');
    if cut == s.len() || cut + 1 >= s.len() {
        Option::None
    } else {
        Option::Some(s.subrange(cut + 1, s.len() as int))
    }
}

impl Evaluation {
    /// Reads one evaluation query: the leading number names the
    /// evaluation, an optional `/filter` part scopes its jobs.
    pub fn guess_from_spec(s: &str) -> (r: Self)
        ensures
            r.spec_text@ == s@,
            r.id == spec_eval_id_of(s@),
            opt_view(r.filter) == spec_eval_filter_of(s@),
    {
        let len = s.unicode_len();
        let cut = find_char(s, '/');
        let id_part = s.substring_char(0, cut);
        let id = match parse_u64(id_part) {
            Option::Some(v) => v,
            Option::None => 0,
        };
        let filter: Option<String> = if cut == len || cut + 1 >= len {
            Option::None
        } else {
            Option::Some(s.substring_char(cut + 1, len).to_owned())
        };
        Evaluation { spec_text: s.to_owned(), id, filter }
    }
}

/// Everything read for one evaluation: its inputs, the input changes, and
/// the named build-outcome buckets, each bucket empty when its table is
/// absent.
#[derive(Clone, Debug)]
pub struct EvalDetails {
    pub eval: Evaluation,
    pub url: String,
    pub inputs: Vec<EvalInput>,
    pub changes: Vec<EvalInputChanges>,
    pub aborted: Vec<BuildStatus>,
    pub now_fail: Vec<BuildStatus>,
    pub now_succeed: Vec<BuildStatus>,
    pub new: Vec<BuildStatus>,
    pub removed: Vec<BuildStatus>,
    pub still_fail: Vec<BuildStatus>,
    pub still_succeed: Vec<BuildStatus>,
    pub unfinished: Vec<BuildStatus>,
}

/// The single input record a failed evaluation report carries: the
/// warning glyph as the input name, the explanatory message as its value.
pub open spec fn spec_input_warning_record(status: Seq<char>) -> EvalInputV {
    EvalInputV {
        name: Option::Some(crate::icons::spec_glyph(StatusIcon::Warning)),
        input_type: Option::None,
        value: Option::Some(status),
        revision: Option::None,
        store_path: Option::None,
    }
}

/// The URL an evaluation query reads: the evaluation page, filtered when
/// a filter was given.
pub open spec fn spec_eval_url(id: u64, filter: Option<Seq<char>>) -> Seq<char> {
    let base = crate::constants::spec_host_url() + "/eval/"@ + spec_u64_dec(id as nat);
    match filter {
        Option::None => base,
        Option::Some(f) => base + "?filter="@ + f,
    }
}

impl EvalDetails {
    /// Initialises the container for one evaluation query.
    pub fn from_eval(eval: Evaluation) -> (r: Self)
        ensures
            r.eval.spec_text@ == eval.spec_text@,
            r.eval.id == eval.id,
            opt_view(r.eval.filter) == opt_view(eval.filter),
            r.url@ == spec_eval_url(eval.id, opt_view(eval.filter)),
            r.inputs@.len() == 0 && r.changes@.len() == 0,
            r.aborted@.len() == 0 && r.now_fail@.len() == 0 && r.now_succeed@.len() == 0
                && r.new@.len() == 0 && r.removed@.len() == 0 && r.still_fail@.len() == 0
                && r.still_succeed@.len() == 0 && r.unfinished@.len() == 0,
    {
        let mut url = crate::constants::host_url().to_owned();
        url.append("/eval/");
        let dec = u64_to_string(eval.id);
        url.append(dec.as_str());
        match &eval.filter {
            Option::None => {},
            Option::Some(f) => {
                url.append("?filter=");
                url.append(f.as_str());
            },
        }
        proof {
            assert(url@ =~= spec_eval_url(eval.id, opt_view(eval.filter)));
        }
        EvalDetails {
            eval,
            url,
            inputs: Vec::new(),
            changes: Vec::new(),
            aborted: Vec::new(),
            now_fail: Vec::new(),
            now_succeed: Vec::new(),
            new: Vec::new(),
            removed: Vec::new(),
            still_fail: Vec::new(),
            still_succeed: Vec::new(),
            unfinished: Vec::new(),
        }
    }

    /// The evaluation page URL this report reads.
    pub fn get_url(&self) -> (r: &str)
        ensures
            r@ == self.url@,
    {
        self.url.as_str()
    }

    /// Replaces the inputs with the single error placeholder: the warning
    /// glyph as the input name, the message as its value.
    pub fn finish_with_error(self, status: String) -> (r: Self)
        ensures
            input_views_of(r.inputs@) =~= seq![spec_input_warning_record(status@)],
            r.eval == self.eval,
            r.url@ == self.url@,
            r.changes@ == self.changes@,
            r.aborted@ == self.aborted@,
            r.now_fail@ == self.now_fail@,
            r.now_succeed@ == self.now_succeed@,
            r.new@ == self.new@,
            r.removed@ == self.removed@,
            r.still_fail@ == self.still_fail@,
            r.still_succeed@ == self.still_succeed@,
            r.unfinished@ == self.unfinished@,
    {
        let mut inputs: Vec<EvalInput> = Vec::new();
        inputs.push(
            EvalInput {
                name: Option::Some(StatusIcon::Warning.glyph().to_owned()),
                input_type: Option::None,
                value: Option::Some(status),
                revision: Option::None,
                store_path: Option::None,
            },
        );
        proof {
            assert(input_views_of(inputs@) =~= seq![input_views_of(inputs@)[0]]);
        }
        EvalDetails { inputs, ..self }
    }

    /// Reads one named build-outcome bucket: the table under the given
    /// section, classified as a builds table.  Every record of a
    /// successful read respects the build-record invariant.
    fn parse_build_stats(&self, doc: &Html, section: &str) -> (r: Result<
        Vec<BuildStatus>,
        ParseError,
    >)
        ensures
            match r {
                Result::Ok(v) => forall|i: int| 0 <= i < v@.len()
                    ==> spec_build_wf(#[trigger] v@[i]@),
                Result::Err(_) => true,
            },
    {
        match crate::report::find_tbody(doc, section, self.url.as_str()) {
            Result::Err(status) => Result::Err(
                ParseError::Missing { what: section.to_owned(), html: status },
            ),
            Result::Ok(tbody) => {
                let rows = crate::soup::table_rows(&tbody);
                match classify_build_rows(
                    &rows,
                    crate::builds::BuildTableShape::JobScoped,
                    section,
                ) {
                    Result::Err(e) => Result::Err(e),
                    Result::Ok(v) => {
                        proof {
                            lemma_classified_records_wf(
                                rows@,
                                crate::builds::BuildTableShape::JobScoped,
                                section@,
                                views_of(v@),
                            );
                            assert(forall|i: int| 0 <= i < v@.len()
                                ==> spec_build_wf(#[trigger] v@[i]@)) by {
                                assert(forall|i: int| 0 <= i < v@.len()
                                    ==> views_of(v@)[i] == #[trigger] v@[i]@);
                            }
                        }
                        Result::Ok(v)
                    },
                }
            },
        }
    }

    /// Reads the inputs, the input changes and the build-outcome buckets
    /// out of a fetched evaluation page.  The inputs are essential: a page
    /// without their table yields the error placeholder, and a malformed
    /// input row fails the report.  The changes and the buckets are
    /// best-effort: a missing or malformed section leaves its part empty.
    /// Every bucket record of a successful read respects the build-record
    /// invariant; the inputs are either the one placeholder carrying a
    /// locator message — with every other section left empty — or exactly
    /// the classification of some row sequence.  Reading starts from a
    /// freshly initialised report, whose sections are still empty.
    pub fn read_from_html(self, html: &str) -> (r: Result<Self, ParseError>)
        requires
            self.inputs@.len() == 0,
            self.changes@.len() == 0,
            self.aborted@.len() == 0,
            self.now_fail@.len() == 0,
            self.now_succeed@.len() == 0,
            self.new@.len() == 0,
            self.removed@.len() == 0,
            self.still_fail@.len() == 0,
            self.still_succeed@.len() == 0,
            self.unfinished@.len() == 0,
        ensures
            match r {
                Result::Ok(s) => {
                    &&& s.eval == self.eval
                    &&& s.url@ == self.url@
                    &&& ((exists|m: Seq<char>|
                        input_views_of(s.inputs@) == seq![#[trigger] spec_input_warning_record(m)]
                            && crate::report::spec_locator_message(
                            m,
                            crate::report::spec_tbody_selector("div#tabs-inputs"@),
                            self.url@,
                        ) && s.changes@.len() == 0 && s.aborted@.len() == 0
                            && s.now_fail@.len() == 0 && s.now_succeed@.len() == 0
                            && s.new@.len() == 0 && s.removed@.len() == 0
                            && s.still_fail@.len() == 0 && s.still_succeed@.len() == 0
                            && s.unfinished@.len() == 0) || (exists|rows: Seq<RowData>|
                        #[trigger] spec_classify_input_rows(
                            rows,
                            spec_u64_dec(self.eval.id as nat),
                        ) == Result::Ok::<_, ParseErrorV>(input_views_of(s.inputs@))))
                    &&& forall|i: int| 0 <= i < s.aborted@.len()
                        ==> spec_build_wf(#[trigger] s.aborted@[i]@)
                    &&& forall|i: int| 0 <= i < s.now_fail@.len()
                        ==> spec_build_wf(#[trigger] s.now_fail@[i]@)
                    &&& forall|i: int| 0 <= i < s.now_succeed@.len()
                        ==> spec_build_wf(#[trigger] s.now_succeed@[i]@)
                    &&& forall|i: int| 0 <= i < s.new@.len()
                        ==> spec_build_wf(#[trigger] s.new@[i]@)
                    &&& forall|i: int| 0 <= i < s.removed@.len()
                        ==> spec_build_wf(#[trigger] s.removed@[i]@)
                    &&& forall|i: int| 0 <= i < s.still_fail@.len()
                        ==> spec_build_wf(#[trigger] s.still_fail@[i]@)
                    &&& forall|i: int| 0 <= i < s.still_succeed@.len()
                        ==> spec_build_wf(#[trigger] s.still_succeed@[i]@)
                    &&& forall|i: int| 0 <= i < s.unfinished@.len()
                        ==> spec_build_wf(#[trigger] s.unfinished@[i]@)
                },
                Result::Err(_) => true,
            },
    {
        let doc = crate::soup::parse_document(html);
        match crate::report::find_tbody(&doc, "div#tabs-inputs", self.url.as_str()) {
            Result::Err(status) => {
                let ghost m = status@;
                let r = self.finish_with_error(status);
                proof {
                    assert(input_views_of(r.inputs@) == seq![spec_input_warning_record(m)]);
                }
                return Result::Ok(r);
            },
            Result::Ok(tbody) => {
                let rows = crate::soup::table_rows(&tbody);
                let context = u64_to_string(self.eval.id);
                let inputs = match classify_input_rows(&rows, context.as_str()) {
                    Result::Err(e) => {
                        return Result::Err(e);
                    },
                    Result::Ok(v) => v,
                };
                let changes = match input_changes_from_doc(&doc) {
                    Result::Err(_) => Vec::new(),
                    Result::Ok(v) => v,
                };
                let aborted = self.bucket_or_empty(&doc, "div#tabs-aborted");
                let now_fail = self.bucket_or_empty(&doc, "div#tabs-now-fail");
                let now_succeed = self.bucket_or_empty(&doc, "div#tabs-now-succeed");
                let new = self.bucket_or_empty(&doc, "div#tabs-new");
                let removed = self.bucket_or_empty(&doc, "div#tabs-removed");
                let still_fail = self.bucket_or_empty(&doc, "div#tabs-still-fail");
                let still_succeed = self.bucket_or_empty(&doc, "div#tabs-still-succeed");
                let unfinished = self.bucket_or_empty(&doc, "div#tabs-unfinished");
                Result::Ok(
                    EvalDetails {
                        inputs,
                        changes,
                        aborted,
                        now_fail,
                        now_succeed,
                        new,
                        removed,
                        still_fail,
                        still_succeed,
                        unfinished,
                        ..self
                    },
                )
            },
        }
    }

    fn bucket_or_empty(&self, doc: &Html, section: &str) -> (r: Vec<BuildStatus>)
        ensures
            forall|i: int| 0 <= i < r@.len() ==> spec_build_wf(#[trigger] r@[i]@),
    {
        match self.parse_build_stats(doc, section) {
            Result::Err(_) => Vec::new(),
            Result::Ok(v) => v,
        }
    }
}

/// The JSON rendering of a whole inputs list.
pub open spec fn spec_inputs_json(s: Seq<EvalInputV>) -> Seq<char> {
    spec_json_array(s.map_values(|x: EvalInputV| spec_eval_input_json(x)))
}

/// Serialises an inputs list as one compact JSON array.
pub fn inputs_to_json(v: &Vec<EvalInput>) -> (r: String)
    ensures
        r@ == spec_inputs_json(input_views_of(v@)),
{
    let ghost f = |x: EvalInputV| spec_eval_input_json(x);
    let mut items: Vec<String> = Vec::new();
    let mut i: usize = 0;
    proof {
        assert(items@.map_values(|s: String| s@) =~= input_views_of(v@.subrange(0, 0)).map_values(
            f,
        ));
    }
    while i < v.len()
        invariant
            0 <= i <= v@.len(),
            f == (|x: EvalInputV| spec_eval_input_json(x)),
            items@.map_values(|s: String| s@) == input_views_of(
                v@.subrange(0, i as int),
            ).map_values(f),
        decreases v@.len() - i,
    {
        let rendered = v[i].to_json();
        let ghost rv = rendered@;
        items.push(rendered);
        proof {
            let pre = input_views_of(v@.subrange(0, i as int)).map_values(f);
            let cur = input_views_of(v@.subrange(0, i as int + 1)).map_values(f);
            assert(rv == f(v@[i as int]@));
            assert(cur =~= pre.push(f(v@[i as int]@)));
            assert(items@.map_values(|s: String| s@) =~= pre.push(rv));
        }
        i = i + 1;
    }
    let body = join_comma(&items);
    let mut out = "[".to_owned();
    out.append(body.as_str());
    out.append("]");
    proof {
        reveal_strlit("[");
        reveal_strlit("]");
        assert("["@ =~= seq!['[']);
        assert("]"@ =~= seq![']']);
        assert(v@.subrange(0, v@.len() as int) =~= v@);
        assert(out@ =~= spec_inputs_json(input_views_of(v@)));
    }
    out
}

/// The JSON rendering of a whole input-changes list.
pub open spec fn spec_changes_json(s: Seq<EvalInputChangesV>) -> Seq<char> {
    spec_json_array(s.map_values(|x: EvalInputChangesV| spec_input_changes_json(x)))
}

/// The images of a sequence of input-changes records.
pub open spec fn change_views_of(s: Seq<EvalInputChanges>) -> Seq<EvalInputChangesV> {
    s.map_values(|v: EvalInputChanges| v@)
}

/// Serialises an input-changes list as one compact JSON array.
pub fn changes_to_json(v: &Vec<EvalInputChanges>) -> (r: String)
    ensures
        r@ == spec_changes_json(change_views_of(v@)),
{
    let ghost f = |x: EvalInputChangesV| spec_input_changes_json(x);
    let mut items: Vec<String> = Vec::new();
    let mut i: usize = 0;
    proof {
        assert(items@.map_values(|s: String| s@) =~= change_views_of(v@.subrange(0, 0)).map_values(
            f,
        ));
    }
    while i < v.len()
        invariant
            0 <= i <= v@.len(),
            f == (|x: EvalInputChangesV| spec_input_changes_json(x)),
            items@.map_values(|s: String| s@) == change_views_of(
                v@.subrange(0, i as int),
            ).map_values(f),
        decreases v@.len() - i,
    {
        let rendered = v[i].to_json();
        let ghost rv = rendered@;
        items.push(rendered);
        proof {
            let pre = change_views_of(v@.subrange(0, i as int)).map_values(f);
            let cur = change_views_of(v@.subrange(0, i as int + 1)).map_values(f);
            assert(rv == f(v@[i as int]@));
            assert(cur =~= pre.push(f(v@[i as int]@)));
            assert(items@.map_values(|s: String| s@) =~= pre.push(rv));
        }
        i = i + 1;
    }
    let body = join_comma(&items);
    let mut out = "[".to_owned();
    out.append(body.as_str());
    out.append("]");
    proof {
        reveal_strlit("[");
        reveal_strlit("]");
        assert("["@ =~= seq!['[']);
        assert("]"@ =~= seq![']']);
        assert(v@.subrange(0, v@.len() as int) =~= v@);
        assert(out@ =~= spec_changes_json(change_views_of(v@)));
    }
    out
}

/// The JSON rendering of a whole evaluation report: the query fields, the
/// URL, then every section as an array, empty sections included.
pub open spec fn spec_eval_details_json(
    spec_text: Seq<char>,
    id: u64,
    filter: Option<Seq<char>>,
    url: Seq<char>,
    inputs: Seq<EvalInputV>,
    changes: Seq<EvalInputChangesV>,
    aborted: Seq<BuildStatusV>,
    now_fail: Seq<BuildStatusV>,
    now_succeed: Seq<BuildStatusV>,
    new: Seq<BuildStatusV>,
    removed: Seq<BuildStatusV>,
    still_fail: Seq<BuildStatusV>,
    still_succeed: Seq<BuildStatusV>,
    unfinished: Seq<BuildStatusV>,
) -> Seq<char> {
    "{\"spec\":"@ + spec_json_string(spec_text) + ",\"id\":"@ + spec_u64_dec(id as nat)
        + spec_json_opt_field(",\"filter\":"@, filter) + ",\"url\":"@ + spec_json_string(url)
        + ",\"inputs\":"@ + spec_inputs_json(inputs) + ",\"changes\":"@ + spec_changes_json(
        changes,
    ) + ",\"aborted\":"@ + crate::builds::spec_builds_json(aborted) + ",\"now_fail\":"@
        + crate::builds::spec_builds_json(now_fail) + ",\"now_succeed\":"@
        + crate::builds::spec_builds_json(now_succeed) + ",\"new\":"@
        + crate::builds::spec_builds_json(new) + ",\"removed\":"@ + crate::builds::spec_builds_json(
        removed,
    ) + ",\"still_fail\":"@ + crate::builds::spec_builds_json(still_fail) + ",\"still_succeed\":"@
        + crate::builds::spec_builds_json(still_succeed) + ",\"unfinished\":"@
        + crate::builds::spec_builds_json(unfinished) + seq!['}']
}

impl EvalDetails {
    /// Serialises the whole report as one compact JSON object.
    pub fn to_json(&self) -> (r: String)
        ensures
            r@ == spec_eval_details_json(
                self.eval.spec_text@,
                self.eval.id,
                opt_view(self.eval.filter),
                self.url@,
                input_views_of(self.inputs@),
                change_views_of(self.changes@),
                views_of(self.aborted@),
                views_of(self.now_fail@),
                views_of(self.now_succeed@),
                views_of(self.new@),
                views_of(self.removed@),
                views_of(self.still_fail@),
                views_of(self.still_succeed@),
                views_of(self.unfinished@),
            ),
    {
        let mut out = "{\"spec\":".to_owned();
        append_json_string(&mut out, self.eval.spec_text.as_str());
        out.append(",\"id\":");
        append_json_u64(&mut out, self.eval.id);
        append_json_opt_field(&mut out, ",\"filter\":", &self.eval.filter);
        out.append(",\"url\":");
        append_json_string(&mut out, self.url.as_str());
        out.append(",\"inputs\":");
        let inputs = inputs_to_json(&self.inputs);
        out.append(inputs.as_str());
        out.append(",\"changes\":");
        let changes = changes_to_json(&self.changes);
        out.append(changes.as_str());
        out.append(",\"aborted\":");
        let aborted = crate::builds::builds_to_json(&self.aborted);
        out.append(aborted.as_str());
        out.append(",\"now_fail\":");
        let now_fail = crate::builds::builds_to_json(&self.now_fail);
        out.append(now_fail.as_str());
        out.append(",\"now_succeed\":");
        let now_succeed = crate::builds::builds_to_json(&self.now_succeed);
        out.append(now_succeed.as_str());
        out.append(",\"new\":");
        let new = crate::builds::builds_to_json(&self.new);
        out.append(new.as_str());
        out.append(",\"removed\":");
        let removed = crate::builds::builds_to_json(&self.removed);
        out.append(removed.as_str());
        out.append(",\"still_fail\":");
        let still_fail = crate::builds::builds_to_json(&self.still_fail);
        out.append(still_fail.as_str());
        out.append(",\"still_succeed\":");
        let still_succeed = crate::builds::builds_to_json(&self.still_succeed);
        out.append(still_succeed.as_str());
        out.append(",\"unfinished\":");
        let unfinished = crate::builds::builds_to_json(&self.unfinished);
        out.append(unfinished.as_str());
        out.append("}");
        proof {
            reveal_strlit("}");
            assert("}"@ =~= seq!['}']);
            assert(out@ =~= spec_eval_details_json(
                self.eval.spec_text@,
                self.eval.id,
                opt_view(self.eval.filter),
                self.url@,
                input_views_of(self.inputs@),
                change_views_of(self.changes@),
                views_of(self.aborted@),
                views_of(self.now_fail@),
                views_of(self.now_succeed@),
                views_of(self.new@),
                views_of(self.removed@),
                views_of(self.still_fail@),
                views_of(self.still_succeed@),
                views_of(self.unfinished@),
            ));
        }
        out
    }
}

/// Classification of one row of the input-changes table: the first cell
/// names the input, the second describes the change and may carry a diff
/// link; a row with fewer cells is a shape error.
pub open spec fn spec_classify_change_row(r: RowData) -> Result<EvalInputChangesV, ParseErrorV> {
    if r.cells@.len() < 2 {
        Result::Err(ParseErrorV::Shape { context: "input changes"@, html: r.html@ })
    } else {
        Result::Ok(
            spec_input_change(
                r.cells@[0].text@,
                r.cells@[1].text@,
                match r.cells@[1].link {
                    Option::None => Option::None,
                    Option::Some(l) => opt_view(l.href),
                },
            ),
        )
    }
}

/// Classifies one row of the input-changes table.
pub fn classify_change_row(r: &RowData) -> (res: Result<EvalInputChanges, ParseError>)
    ensures
        match res {
            Result::Ok(v) => spec_classify_change_row(*r) == Result::Ok::<_, ParseErrorV>(v@),
            Result::Err(e) => spec_classify_change_row(*r) == Result::Err::<
                EvalInputChangesV,
                _,
            >(e@),
        },
{
    if r.cells.len() < 2 {
        return Result::Err(
            ParseError::Shape { context: "input changes".to_owned(), html: r.html.clone() },
        );
    }
    let url: Option<String> = match &r.cells[1].link {
        Option::None => Option::None,
        Option::Some(l) => match &l.href {
            Option::None => Option::None,
            Option::Some(h) => Option::Some(h.clone()),
        },
    };
    let v = input_change_from_cells(
        r.cells[0].text.as_str(),
        r.cells[1].text.as_str(),
        url,
    );
    Result::Ok(v)
}

/// Classification of the whole input-changes table body, rows in table
/// order: every row contributes its record, the first row with fewer than
/// two cells aborting the table.
pub open spec fn spec_classify_change_rows(rows: Seq<RowData>) -> Result<
    Seq<EvalInputChangesV>,
    ParseErrorV,
>
    decreases rows.len(),
{
    if rows.len() == 0 {
        Result::Ok(Seq::empty())
    } else {
        match spec_classify_change_row(rows[0]) {
            Result::Err(e) => Result::Err(e),
            Result::Ok(v) => match spec_classify_change_rows(rows.drop_first()) {
                Result::Err(e) => Result::Err(e),
                Result::Ok(tail) => Result::Ok(seq![v] + tail),
            },
        }
    }
}

/// Classifies every row of the input-changes table, in table order.
pub fn classify_change_rows(rows: &Vec<RowData>) -> (res: Result<
    Vec<EvalInputChanges>,
    ParseError,
>)
    ensures
        match res {
            Result::Ok(v) => spec_classify_change_rows(rows@) == Result::Ok::<_, ParseErrorV>(
                change_views_of(v@),
            ),
            Result::Err(e) => spec_classify_change_rows(rows@) == Result::Err::<
                Seq<EvalInputChangesV>,
                _,
            >(e@),
        },
{
    let ghost all = rows@;
    let mut out: Vec<EvalInputChanges> = Vec::new();
    let mut i: usize = 0;
    proof {
        assert(all.subrange(0, all.len() as int) =~= all);
        assert(change_views_of(out@) =~= Seq::<EvalInputChangesV>::empty());
        let full = spec_classify_change_rows(all);
        match full {
            Result::Ok(t) => {
                assert(Seq::<EvalInputChangesV>::empty() + t =~= t);
            },
            Result::Err(_) => {},
        }
    }
    while i < rows.len()
        invariant
            0 <= i <= rows.len(),
            all == rows@,
            spec_classify_change_rows(all) == (match spec_classify_change_rows(
                all.subrange(i as int, all.len() as int),
            ) {
                Result::Ok(t) => Result::Ok::<Seq<EvalInputChangesV>, ParseErrorV>(
                    change_views_of(out@) + t,
                ),
                Result::Err(e) => Result::Err(e),
            }),
        decreases rows.len() - i,
    {
        let ghost sub_i = all.subrange(i as int, all.len() as int);
        let ghost sub_i1 = all.subrange(i as int + 1, all.len() as int);
        proof {
            assert(sub_i.len() > 0);
            assert(sub_i[0] == all[i as int]);
            assert(sub_i.drop_first() =~= sub_i1);
        }
        match classify_change_row(&rows[i]) {
            Result::Err(e) => {
                proof {
                    assert(spec_classify_change_rows(sub_i) == Result::Err::<
                        Seq<EvalInputChangesV>,
                        _,
                    >(e@));
                }
                return Result::Err(e);
            },
            Result::Ok(v) => {
                let ghost pre = change_views_of(out@);
                let ghost vv = v@;
                out.push(v);
                proof {
                    assert(change_views_of(out@) =~= pre.push(vv));
                    let tail = spec_classify_change_rows(sub_i1);
                    if tail is Ok {
                        let t = tail->Ok_0;
                        assert(pre + (seq![vv] + t) =~= pre.push(vv) + t);
                    }
                }
            },
        }
        i = i + 1;
    }
    proof {
        assert(all.subrange(i as int, all.len() as int).len() == 0);
        assert(change_views_of(out@) + Seq::<EvalInputChangesV>::empty() =~= change_views_of(
            out@,
        ));
    }
    Result::Ok(out)
}

/// The concatenated markup of the found tables, for diagnosable errors.
fn tables_markup(tables: &Vec<ElementRef<'_>>) -> String {
    let mut out = String::new();
    let mut i: usize = 0;
    while i < tables.len()
        decreases tables.len() - i,
    {
        let html = crate::soup::el_html(&tables[i]);
        out.append(html.as_str());
        i = i + 1;
    }
    out
}

/// Reads the input-changes table out of the document: the second table of
/// the inputs tab, its header checked, each body row classified; any
/// failure leaves the whole section to the caller as an error naming the
/// offending markup.  A successful read is exactly the classification of
/// some row sequence, in table order.
pub fn input_changes_from_doc(doc: &Html) -> (r: Result<Vec<EvalInputChanges>, ParseError>)
    ensures
        match r {
            Result::Ok(v) => exists|rows: Seq<RowData>|
                #[trigger] spec_classify_change_rows(rows) == Result::Ok::<_, ParseErrorV>(
                    change_views_of(v@),
                ),
            Result::Err(_) => true,
        },
{
    let tables = crate::soup::doc_find_all(doc, "div#tabs-inputs table");
    if tables.len() < 2 {
        return Result::Err(
            ParseError::Missing {
                what: "div#tabs-inputs table".to_owned(),
                html: tables_markup(&tables),
            },
        );
    }
    let table = &tables[1];
    let head_row = match crate::soup::find(table, "tr") {
        Option::None => {
            return Result::Err(
                ParseError::Missing { what: "tr".to_owned(), html: crate::soup::el_html(table) },
            );
        },
        Option::Some(tr) => tr,
    };
    let ths = crate::soup::find_all(&head_row, "th");
    let mut k: usize = 0;
    while k < ths.len()
        decreases ths.len() - k,
    {
        let text = crate::soup::el_text(&ths[k]);
        let trimmed = trim(text.as_str());
        if !crate::strutil::contains(trimmed, "Input") && !crate::strutil::contains(
            trimmed,
            "Changes",
        ) {
            return Result::Err(
                ParseError::Shape {
                    context: "input changes".to_owned(),
                    html: crate::soup::el_html(table),
                },
            );
        }
        k = k + 1;
    }
    let row_els = crate::soup::find_all(table, "tr");
    let mut rows: Vec<RowData> = Vec::new();
    let mut i: usize = 1;
    while i < row_els.len()
        decreases row_els.len() - i,
    {
        rows.push(crate::soup::row_data(&row_els[i]));
        i = i + 1;
    }
    classify_change_rows(&rows)
}

} // verus!
