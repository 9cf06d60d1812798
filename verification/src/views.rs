//! The view builder: finished buckets become ordered, formatted rows.
//!
//! Daily and monthly rows are ordered ascending by their key; model rows
//! descending by total tokens; project rows descending by last activity
//! (a missing last activity counts as the empty string). Costs are rendered
//! as fixed four-decimal-place strings here.

use vstd::prelude::*;

use crate::aggregate::aggregate;
use crate::aggregate::aggregate_corpus;
use crate::models::DailyUsage;
use crate::models::DailyUsageView;
use crate::models::DayData;
use crate::models::DayView;
use crate::models::ModelData;
use crate::models::ModelUsage;
use crate::models::ModelUsageView;
use crate::models::ModelView;
use crate::models::MonthData;
use crate::models::MonthView;
use crate::models::MonthlyUsage;
use crate::models::MonthlyUsageView;
use crate::models::ProjectData;
use crate::models::ProjectDataView;
use crate::models::ProjectInternal;
use crate::models::ProjectSource;
use crate::models::ProjectSourceView;
use crate::models::ProjectView;
use crate::models::lemma_rows_step;
use crate::models::lemma_seq_view_insert;
use crate::models::lemma_seq_view_push;
use crate::models::seq_view;
use crate::numbers::fmt_cost4;
use crate::numbers::format_cost4;
use crate::numbers::parse_cost_spec;
use crate::numbers::parse_cost;
use crate::sorting::insert_leq;
use crate::sorting::lemma_insert_leq_split;
use crate::sorting::lemma_sort_sorted;
use crate::sorting::sort_by_leq;
use crate::sorting::sorted_by_leq;
use crate::sorting::total_preorder;
use crate::text::lemma_lex_le_total;
use crate::text::lemma_lex_le_trans;
use crate::text::lex_le;
use crate::text::lower_of;
use crate::text::lowercase;
use crate::text::str_lex_le;

verus! {

/// The finished daily row of one day bucket.
pub open spec fn daily_row_of(d: DayView) -> DailyUsageView {
    DailyUsageView {
        date: d.date,
        input_tokens: d.input_tokens,
        output_tokens: d.output_tokens,
        cached_tokens: d.cached_tokens,
        total_tokens: d.total_tokens,
        cost: fmt_cost4(d.cost_nano),
        sessions: d.sessions.len() as usize,
        new_input_tokens: d.new_input_tokens,
        cache_creation_tokens: d.cache_creation_tokens,
        cache_read_tokens: d.cache_read_tokens,
    }
}

pub open spec fn daily_rows_of(s: Seq<DayView>) -> Seq<DailyUsageView> {
    s.map(|i: int, d: DayView| daily_row_of(d))
}

pub open spec fn monthly_row_of(d: MonthView) -> MonthlyUsageView {
    MonthlyUsageView {
        month: d.month,
        input_tokens: d.input_tokens,
        output_tokens: d.output_tokens,
        cached_tokens: d.cached_tokens,
        total_tokens: d.total_tokens,
        cost: fmt_cost4(d.cost_nano),
        sessions: d.sessions.len() as usize,
        messages: d.messages,
        new_input_tokens: d.new_input_tokens,
        cache_creation_tokens: d.cache_creation_tokens,
        cache_read_tokens: d.cache_read_tokens,
    }
}

pub open spec fn monthly_rows_of(s: Seq<MonthView>) -> Seq<MonthlyUsageView> {
    s.map(|i: int, d: MonthView| monthly_row_of(d))
}

pub open spec fn model_row_of(d: ModelView) -> ModelUsageView {
    ModelUsageView {
        model: d.model,
        input_tokens: d.input_tokens,
        output_tokens: d.output_tokens,
        cached_tokens: d.cached_tokens,
        total_tokens: d.total_tokens,
        cost: fmt_cost4(d.cost_nano),
        sessions: d.sessions.len() as usize,
        messages: d.messages,
        new_input_tokens: d.new_input_tokens,
        cache_creation_tokens: d.cache_creation_tokens,
        cache_read_tokens: d.cache_read_tokens,
    }
}

pub open spec fn model_rows_of(s: Seq<ModelView>) -> Seq<ModelUsageView> {
    s.map(|i: int, d: ModelView| model_row_of(d))
}

/// The serving project row of one project accumulator: it keeps the
/// serving-variant count and last activity.
pub open spec fn project_row_of(p: ProjectView) -> ProjectDataView {
    ProjectDataView {
        name: p.name,
        total_tokens: p.total_tokens,
        total_cost: fmt_cost4(p.cost_nano),
        message_count: p.message_count,
        last_activity: p.last_activity,
    }
}

pub open spec fn project_rows_of(s: Seq<ProjectView>) -> Seq<ProjectDataView> {
    s.map(|i: int, p: ProjectView| project_row_of(p))
}

fn day_to_row(d: DayData) -> (r: DailyUsage)
    ensures
        r@ == daily_row_of(d@),
{
    let DayData {
        date,
        input_tokens,
        output_tokens,
        cached_tokens,
        total_tokens,
        cost_nano,
        sessions,
        new_input_tokens,
        cache_creation_tokens,
        cache_read_tokens,
    } = d;
    let sess = sessions.len();
    DailyUsage {
        date,
        input_tokens,
        output_tokens,
        cached_tokens,
        total_tokens,
        cost: format_cost4(cost_nano),
        sessions: sess,
        new_input_tokens,
        cache_creation_tokens,
        cache_read_tokens,
    }
}

fn month_to_row(d: MonthData) -> (r: MonthlyUsage)
    ensures
        r@ == monthly_row_of(d@),
{
    let MonthData {
        month,
        input_tokens,
        output_tokens,
        cached_tokens,
        total_tokens,
        cost_nano,
        sessions,
        messages,
        new_input_tokens,
        cache_creation_tokens,
        cache_read_tokens,
    } = d;
    let sess = sessions.len();
    MonthlyUsage {
        month,
        input_tokens,
        output_tokens,
        cached_tokens,
        total_tokens,
        cost: format_cost4(cost_nano),
        sessions: sess,
        messages,
        new_input_tokens,
        cache_creation_tokens,
        cache_read_tokens,
    }
}

fn model_to_row(d: ModelData) -> (r: ModelUsage)
    ensures
        r@ == model_row_of(d@),
{
    let ModelData {
        model,
        input_tokens,
        output_tokens,
        cached_tokens,
        total_tokens,
        cost_nano,
        sessions,
        messages,
        new_input_tokens,
        cache_creation_tokens,
        cache_read_tokens,
    } = d;
    let sess = sessions.len();
    ModelUsage {
        model,
        input_tokens,
        output_tokens,
        cached_tokens,
        total_tokens,
        cost: format_cost4(cost_nano),
        sessions: sess,
        messages,
        new_input_tokens,
        cache_creation_tokens,
        cache_read_tokens,
    }
}

fn project_to_row(p: ProjectInternal) -> (r: ProjectData)
    ensures
        r@ == project_row_of(p@),
{
    let ProjectInternal { name, path: _, total_tokens, cost_nano, message_count, parsed_count: _, last_activity, last_seen: _ } =
        p;
    ProjectData {
        name,
        total_tokens,
        total_cost: format_cost4(cost_nano),
        message_count,
        last_activity,
    }
}

/// Daily rows order ascending by date.
pub open spec fn daily_leq() -> spec_fn(DailyUsageView, DailyUsageView) -> bool {
    |a: DailyUsageView, b: DailyUsageView| lex_le(a.date, b.date)
}

/// Monthly rows order ascending by month.
pub open spec fn monthly_leq() -> spec_fn(MonthlyUsageView, MonthlyUsageView) -> bool {
    |a: MonthlyUsageView, b: MonthlyUsageView| lex_le(a.month, b.month)
}

/// The sortable fields of the models view.
#[derive(Clone, Copy)]
pub enum ModelSortKey {
    TotalTokens,
    Cost,
    Messages,
    Sessions,
    Model,
}

/// Ascending order of two model rows under one key. Cost strings compare by
/// their parsed numeric value; model names compare case-insensitively.
pub open spec fn model_key_le(k: ModelSortKey, a: ModelUsageView, b: ModelUsageView) -> bool {
    match k {
        ModelSortKey::TotalTokens => a.total_tokens <= b.total_tokens,
        ModelSortKey::Cost => parse_cost_spec(a.cost) <= parse_cost_spec(b.cost),
        ModelSortKey::Messages => a.messages <= b.messages,
        ModelSortKey::Sessions => a.sessions <= b.sessions,
        ModelSortKey::Model => lex_le(lower_of(a.model), lower_of(b.model)),
    }
}

pub open spec fn models_leq(k: ModelSortKey, asc: bool) -> spec_fn(
    ModelUsageView,
    ModelUsageView,
) -> bool {
    if asc {
        |a: ModelUsageView, b: ModelUsageView| model_key_le(k, a, b)
    } else {
        |a: ModelUsageView, b: ModelUsageView| model_key_le(k, b, a)
    }
}

/// The sortable fields of the projects view.
#[derive(Clone, Copy)]
pub enum ProjectSortKey {
    LastActivity,
    TotalCost,
    TotalTokens,
    MessageCount,
    Name,
}

/// A missing last activity reads as the empty string for ordering.
pub open spec fn opt_str(o: Option<Seq<char>>) -> Seq<char> {
    match o {
        None => Seq::empty(),
        Some(s) => s,
    }
}

/// Ascending order of two project rows under one key.
pub open spec fn project_key_le(k: ProjectSortKey, a: ProjectDataView, b: ProjectDataView) -> bool {
    match k {
        ProjectSortKey::LastActivity => lex_le(opt_str(a.last_activity), opt_str(b.last_activity)),
        ProjectSortKey::TotalCost => parse_cost_spec(a.total_cost) <= parse_cost_spec(b.total_cost),
        ProjectSortKey::TotalTokens => a.total_tokens <= b.total_tokens,
        ProjectSortKey::MessageCount => a.message_count <= b.message_count,
        ProjectSortKey::Name => lex_le(lower_of(a.name), lower_of(b.name)),
    }
}

pub open spec fn projects_leq(k: ProjectSortKey, asc: bool) -> spec_fn(
    ProjectDataView,
    ProjectDataView,
) -> bool {
    if asc {
        |a: ProjectDataView, b: ProjectDataView| project_key_le(k, a, b)
    } else {
        |a: ProjectDataView, b: ProjectDataView| project_key_le(k, b, a)
    }
}

fn le_daily(a: &DailyUsage, b: &DailyUsage) -> (r: bool)
    ensures
        r == (daily_leq())(a@, b@),
{
    str_lex_le(a.date.as_str(), b.date.as_str())
}

fn le_monthly(a: &MonthlyUsage, b: &MonthlyUsage) -> (r: bool)
    ensures
        r == (monthly_leq())(a@, b@),
{
    str_lex_le(a.month.as_str(), b.month.as_str())
}

fn le_models(a: &ModelUsage, b: &ModelUsage, k: ModelSortKey, asc: bool) -> (r: bool)
    ensures
        r == (models_leq(k, asc))(a@, b@),
{
    let (x, y) = if asc {
        (a, b)
    } else {
        (b, a)
    };
    match k {
        ModelSortKey::TotalTokens => x.total_tokens <= y.total_tokens,
        ModelSortKey::Cost => parse_cost(x.cost.as_str()) <= parse_cost(y.cost.as_str()),
        ModelSortKey::Messages => x.messages <= y.messages,
        ModelSortKey::Sessions => x.sessions <= y.sessions,
        ModelSortKey::Model => {
            let lx = lowercase(x.model.as_str());
            let ly = lowercase(y.model.as_str());
            str_lex_le(lx.as_str(), ly.as_str())
        },
    }
}

fn le_projects(a: &ProjectData, b: &ProjectData, k: ProjectSortKey, asc: bool) -> (r: bool)
    ensures
        r == (projects_leq(k, asc))(a@, b@),
{
    let (x, y) = if asc {
        (a, b)
    } else {
        (b, a)
    };
    match k {
        ProjectSortKey::LastActivity => {
            let xa = match &x.last_activity {
                Some(s) => s.as_str(),
                None => "",
            };
            let ya = match &y.last_activity {
                Some(s) => s.as_str(),
                None => "",
            };
            proof {
                reveal_strlit("");
                assert(""@ =~= Seq::<char>::empty());
            }
            str_lex_le(xa, ya)
        },
        ProjectSortKey::TotalCost => parse_cost(x.total_cost.as_str()) <= parse_cost(
            y.total_cost.as_str(),
        ),
        ProjectSortKey::TotalTokens => x.total_tokens <= y.total_tokens,
        ProjectSortKey::MessageCount => x.message_count <= y.message_count,
        ProjectSortKey::Name => {
            let lx = lowercase(x.name.as_str());
            let ly = lowercase(y.name.as_str());
            str_lex_le(lx.as_str(), ly.as_str())
        },
    }
}

fn insert_daily(out: &mut Vec<DailyUsage>, x: DailyUsage)
    ensures
        seq_view(final(out)@) == insert_leq(x@, seq_view(old(out)@), daily_leq()),
{
    let n = out.len();
    let mut j: usize = 0;
    while j < n
        invariant
            j <= n,
            n == out@.len(),
            out@ == old(out)@,
            forall|k: int| 0 <= k < j ==> (daily_leq())(seq_view(out@)[k], x@),
        decreases n - j,
    {
        proof {
            assert(seq_view(out@)[j as int] == out@[j as int]@);
        }
        if !le_daily(&out[j], &x) {
            proof {
                lemma_insert_leq_split(x@, seq_view(out@), daily_leq(), j as int);
            }
            let ghost o0 = out@;
            out.insert(j, x);
            proof {
                lemma_seq_view_insert(o0, out@, x, j as int);
            }
            return ;
        }
        j = j + 1;
    }
    proof {
        lemma_insert_leq_split(x@, seq_view(out@), daily_leq(), j as int);
    }
    let ghost o0 = out@;
    out.insert(j, x);
    proof {
        lemma_seq_view_insert(o0, out@, x, j as int);
    }
}

/// Sorts the daily rows ascending by date; the result is pinned as the
/// stable insertion sort of the input.
pub fn sort_daily(rows: Vec<DailyUsage>) -> (r: Vec<DailyUsage>)
    ensures
        seq_view(r@) == sort_by_leq(seq_view(rows@), daily_leq()),
{
    let ghost orig = seq_view(rows@);
    let mut rest = rows;
    let mut out: Vec<DailyUsage> = Vec::new();
    proof {
        assert(seq_view(rest@) =~= orig.skip(0));
        assert(orig.take(0) =~= Seq::<DailyUsageView>::empty());
        assert(seq_view(out@) =~= sort_by_leq(orig.take(0), daily_leq()));
    }
    while rest.len() > 0
        invariant
            rest@.len() <= orig.len(),
            seq_view(rest@) == orig.skip(orig.len() - rest@.len()),
            seq_view(out@) == sort_by_leq(orig.take(orig.len() - rest@.len()), daily_leq()),
        decreases rest@.len(),
    {
        let ghost i = orig.len() - rest@.len();
        let ghost rest0 = rest@;
        let x = rest.remove(0);
        proof {
            lemma_rows_step(orig, rest0, rest@, x, i);
            assert(orig.take(i + 1).drop_last() =~= orig.take(i));
            assert(orig.take(i + 1).last() == orig[i]);
        }
        insert_daily(&mut out, x);
    }
    proof {
        assert(orig.take(orig.len() as int) =~= orig);
    }
    out
}

fn insert_monthly(out: &mut Vec<MonthlyUsage>, x: MonthlyUsage)
    ensures
        seq_view(final(out)@) == insert_leq(x@, seq_view(old(out)@), monthly_leq()),
{
    let n = out.len();
    let mut j: usize = 0;
    while j < n
        invariant
            j <= n,
            n == out@.len(),
            out@ == old(out)@,
            forall|k: int| 0 <= k < j ==> (monthly_leq())(seq_view(out@)[k], x@),
        decreases n - j,
    {
        proof {
            assert(seq_view(out@)[j as int] == out@[j as int]@);
        }
        if !le_monthly(&out[j], &x) {
            proof {
                lemma_insert_leq_split(x@, seq_view(out@), monthly_leq(), j as int);
            }
            let ghost o0 = out@;
            out.insert(j, x);
            proof {
                lemma_seq_view_insert(o0, out@, x, j as int);
            }
            return ;
        }
        j = j + 1;
    }
    proof {
        lemma_insert_leq_split(x@, seq_view(out@), monthly_leq(), j as int);
    }
    let ghost o0 = out@;
    out.insert(j, x);
    proof {
        lemma_seq_view_insert(o0, out@, x, j as int);
    }
}

/// Sorts the monthly rows ascending by month.
pub fn sort_monthly(rows: Vec<MonthlyUsage>) -> (r: Vec<MonthlyUsage>)
    ensures
        seq_view(r@) == sort_by_leq(seq_view(rows@), monthly_leq()),
{
    let ghost orig = seq_view(rows@);
    let mut rest = rows;
    let mut out: Vec<MonthlyUsage> = Vec::new();
    proof {
        assert(seq_view(rest@) =~= orig.skip(0));
        assert(orig.take(0) =~= Seq::<MonthlyUsageView>::empty());
        assert(seq_view(out@) =~= sort_by_leq(orig.take(0), monthly_leq()));
    }
    while rest.len() > 0
        invariant
            rest@.len() <= orig.len(),
            seq_view(rest@) == orig.skip(orig.len() - rest@.len()),
            seq_view(out@) == sort_by_leq(orig.take(orig.len() - rest@.len()), monthly_leq()),
        decreases rest@.len(),
    {
        let ghost i = orig.len() - rest@.len();
        let ghost rest0 = rest@;
        let x = rest.remove(0);
        proof {
            lemma_rows_step(orig, rest0, rest@, x, i);
            assert(orig.take(i + 1).drop_last() =~= orig.take(i));
            assert(orig.take(i + 1).last() == orig[i]);
        }
        insert_monthly(&mut out, x);
    }
    proof {
        assert(orig.take(orig.len() as int) =~= orig);
    }
    out
}

fn insert_models(out: &mut Vec<ModelUsage>, x: ModelUsage, k: ModelSortKey, asc: bool)
    ensures
        seq_view(final(out)@) == insert_leq(x@, seq_view(old(out)@), models_leq(k, asc)),
{
    let n = out.len();
    let mut j: usize = 0;
    while j < n
        invariant
            j <= n,
            n == out@.len(),
            out@ == old(out)@,
            forall|kk: int| 0 <= kk < j ==> (models_leq(k, asc))(seq_view(out@)[kk], x@),
        decreases n - j,
    {
        proof {
            assert(seq_view(out@)[j as int] == out@[j as int]@);
        }
        if !le_models(&out[j], &x, k, asc) {
            proof {
                lemma_insert_leq_split(x@, seq_view(out@), models_leq(k, asc), j as int);
            }
            let ghost o0 = out@;
            out.insert(j, x);
            proof {
                lemma_seq_view_insert(o0, out@, x, j as int);
            }
            return ;
        }
        j = j + 1;
    }
    proof {
        lemma_insert_leq_split(x@, seq_view(out@), models_leq(k, asc), j as int);
    }
    let ghost o0 = out@;
    out.insert(j, x);
    proof {
        lemma_seq_view_insert(o0, out@, x, j as int);
    }
}

/// Sorts the model rows by the given key and direction.
pub fn sort_models(rows: Vec<ModelUsage>, k: ModelSortKey, asc: bool) -> (r: Vec<ModelUsage>)
    ensures
        seq_view(r@) == sort_by_leq(seq_view(rows@), models_leq(k, asc)),
{
    let ghost orig = seq_view(rows@);
    let mut rest = rows;
    let mut out: Vec<ModelUsage> = Vec::new();
    proof {
        assert(seq_view(rest@) =~= orig.skip(0));
        assert(orig.take(0) =~= Seq::<ModelUsageView>::empty());
        assert(seq_view(out@) =~= sort_by_leq(orig.take(0), models_leq(k, asc)));
    }
    while rest.len() > 0
        invariant
            rest@.len() <= orig.len(),
            seq_view(rest@) == orig.skip(orig.len() - rest@.len()),
            seq_view(out@) == sort_by_leq(orig.take(orig.len() - rest@.len()), models_leq(k, asc)),
        decreases rest@.len(),
    {
        let ghost i = orig.len() - rest@.len();
        let ghost rest0 = rest@;
        let x = rest.remove(0);
        proof {
            lemma_rows_step(orig, rest0, rest@, x, i);
            assert(orig.take(i + 1).drop_last() =~= orig.take(i));
            assert(orig.take(i + 1).last() == orig[i]);
        }
        insert_models(&mut out, x, k, asc);
    }
    proof {
        assert(orig.take(orig.len() as int) =~= orig);
    }
    out
}

fn insert_projects(out: &mut Vec<ProjectData>, x: ProjectData, k: ProjectSortKey, asc: bool)
    ensures
        seq_view(final(out)@) == insert_leq(x@, seq_view(old(out)@), projects_leq(k, asc)),
{
    let n = out.len();
    let mut j: usize = 0;
    while j < n
        invariant
            j <= n,
            n == out@.len(),
            out@ == old(out)@,
            forall|kk: int| 0 <= kk < j ==> (projects_leq(k, asc))(seq_view(out@)[kk], x@),
        decreases n - j,
    {
        proof {
            assert(seq_view(out@)[j as int] == out@[j as int]@);
        }
        if !le_projects(&out[j], &x, k, asc) {
            proof {
                lemma_insert_leq_split(x@, seq_view(out@), projects_leq(k, asc), j as int);
            }
            let ghost o0 = out@;
            out.insert(j, x);
            proof {
                lemma_seq_view_insert(o0, out@, x, j as int);
            }
            return ;
        }
        j = j + 1;
    }
    proof {
        lemma_insert_leq_split(x@, seq_view(out@), projects_leq(k, asc), j as int);
    }
    let ghost o0 = out@;
    out.insert(j, x);
    proof {
        lemma_seq_view_insert(o0, out@, x, j as int);
    }
}

/// Sorts the project rows by the given key and direction.
pub fn sort_projects(rows: Vec<ProjectData>, k: ProjectSortKey, asc: bool) -> (r: Vec<ProjectData>)
    ensures
        seq_view(r@) == sort_by_leq(seq_view(rows@), projects_leq(k, asc)),
{
    let ghost orig = seq_view(rows@);
    let mut rest = rows;
    let mut out: Vec<ProjectData> = Vec::new();
    proof {
        assert(seq_view(rest@) =~= orig.skip(0));
        assert(orig.take(0) =~= Seq::<ProjectDataView>::empty());
        assert(seq_view(out@) =~= sort_by_leq(orig.take(0), projects_leq(k, asc)));
    }
    while rest.len() > 0
        invariant
            rest@.len() <= orig.len(),
            seq_view(rest@) == orig.skip(orig.len() - rest@.len()),
            seq_view(out@) == sort_by_leq(
                orig.take(orig.len() - rest@.len()),
                projects_leq(k, asc),
            ),
        decreases rest@.len(),
    {
        let ghost i = orig.len() - rest@.len();
        let ghost rest0 = rest@;
        let x = rest.remove(0);
        proof {
            lemma_rows_step(orig, rest0, rest@, x, i);
            assert(orig.take(i + 1).drop_last() =~= orig.take(i));
            assert(orig.take(i + 1).last() == orig[i]);
        }
        insert_projects(&mut out, x, k, asc);
    }
    proof {
        assert(orig.take(orig.len() as int) =~= orig);
    }
    out
}

pub(crate) fn days_to_rows(days: Vec<DayData>) -> (r: Vec<DailyUsage>)
    ensures
        seq_view(r@) == daily_rows_of(seq_view(days@)),
{
    let ghost orig = seq_view(days@);
    let mut rest = days;
    let mut out: Vec<DailyUsage> = Vec::new();
    proof {
        assert(seq_view(rest@) =~= orig.skip(0));
        assert(seq_view(out@) =~= daily_rows_of(orig.take(0)));
    }
    while rest.len() > 0
        invariant
            rest@.len() <= orig.len(),
            seq_view(rest@) == orig.skip(orig.len() - rest@.len()),
            seq_view(out@) == daily_rows_of(orig.take(orig.len() - rest@.len())),
        decreases rest@.len(),
    {
        let ghost i = orig.len() - rest@.len();
        let ghost rest0 = rest@;
        let d = rest.remove(0);
        proof {
            lemma_rows_step(orig, rest0, rest@, d, i);
        }
        let row = day_to_row(d);
        let ghost out0 = out@;
        out.push(row);
        proof {
            lemma_seq_view_push(out0, out@, row);
            assert(daily_rows_of(orig.take(i + 1)) =~= daily_rows_of(orig.take(i)).push(
                daily_row_of(orig[i]),
            ));
        }
    }
    proof {
        assert(orig.take(orig.len() as int) =~= orig);
    }
    out
}

pub(crate) fn months_to_rows(months: Vec<MonthData>) -> (r: Vec<MonthlyUsage>)
    ensures
        seq_view(r@) == monthly_rows_of(seq_view(months@)),
{
    let ghost orig = seq_view(months@);
    let mut rest = months;
    let mut out: Vec<MonthlyUsage> = Vec::new();
    proof {
        assert(seq_view(rest@) =~= orig.skip(0));
        assert(seq_view(out@) =~= monthly_rows_of(orig.take(0)));
    }
    while rest.len() > 0
        invariant
            rest@.len() <= orig.len(),
            seq_view(rest@) == orig.skip(orig.len() - rest@.len()),
            seq_view(out@) == monthly_rows_of(orig.take(orig.len() - rest@.len())),
        decreases rest@.len(),
    {
        let ghost i = orig.len() - rest@.len();
        let ghost rest0 = rest@;
        let d = rest.remove(0);
        proof {
            lemma_rows_step(orig, rest0, rest@, d, i);
        }
        let row = month_to_row(d);
        let ghost out0 = out@;
        out.push(row);
        proof {
            lemma_seq_view_push(out0, out@, row);
            assert(monthly_rows_of(orig.take(i + 1)) =~= monthly_rows_of(orig.take(i)).push(
                monthly_row_of(orig[i]),
            ));
        }
    }
    proof {
        assert(orig.take(orig.len() as int) =~= orig);
    }
    out
}

pub(crate) fn models_to_rows(models: Vec<ModelData>) -> (r: Vec<ModelUsage>)
    ensures
        seq_view(r@) == model_rows_of(seq_view(models@)),
{
    let ghost orig = seq_view(models@);
    let mut rest = models;
    let mut out: Vec<ModelUsage> = Vec::new();
    proof {
        assert(seq_view(rest@) =~= orig.skip(0));
        assert(seq_view(out@) =~= model_rows_of(orig.take(0)));
    }
    while rest.len() > 0
        invariant
            rest@.len() <= orig.len(),
            seq_view(rest@) == orig.skip(orig.len() - rest@.len()),
            seq_view(out@) == model_rows_of(orig.take(orig.len() - rest@.len())),
        decreases rest@.len(),
    {
        let ghost i = orig.len() - rest@.len();
        let ghost rest0 = rest@;
        let d = rest.remove(0);
        proof {
            lemma_rows_step(orig, rest0, rest@, d, i);
        }
        let row = model_to_row(d);
        let ghost out0 = out@;
        out.push(row);
        proof {
            lemma_seq_view_push(out0, out@, row);
            assert(model_rows_of(orig.take(i + 1)) =~= model_rows_of(orig.take(i)).push(
                model_row_of(orig[i]),
            ));
        }
    }
    proof {
        assert(orig.take(orig.len() as int) =~= orig);
    }
    out
}

pub(crate) fn projects_to_rows(projects: Vec<ProjectInternal>) -> (r: Vec<ProjectData>)
    ensures
        seq_view(r@) == project_rows_of(seq_view(projects@)),
{
    let ghost orig = seq_view(projects@);
    let mut rest = projects;
    let mut out: Vec<ProjectData> = Vec::new();
    proof {
        assert(seq_view(rest@) =~= orig.skip(0));
        assert(seq_view(out@) =~= project_rows_of(orig.take(0)));
    }
    while rest.len() > 0
        invariant
            rest@.len() <= orig.len(),
            seq_view(rest@) == orig.skip(orig.len() - rest@.len()),
            seq_view(out@) == project_rows_of(orig.take(orig.len() - rest@.len())),
        decreases rest@.len(),
    {
        let ghost i = orig.len() - rest@.len();
        let ghost rest0 = rest@;
        let d = rest.remove(0);
        proof {
            lemma_rows_step(orig, rest0, rest@, d, i);
        }
        let row = project_to_row(d);
        let ghost out0 = out@;
        out.push(row);
        proof {
            lemma_seq_view_push(out0, out@, row);
            assert(project_rows_of(orig.take(i + 1)) =~= project_rows_of(orig.take(i)).push(
                project_row_of(orig[i]),
            ));
        }
    }
    proof {
        assert(orig.take(orig.len() as int) =~= orig);
    }
    out
}

/// The four finished views of one report.
pub struct AllProjectData {
    pub daily_usage: Vec<DailyUsage>,
    pub monthly_usage: Vec<MonthlyUsage>,
    pub model_usage: Vec<ModelUsage>,
    pub projects: Vec<ProjectData>,
}

pub struct AllDataView {
    pub daily_usage: Seq<DailyUsageView>,
    pub monthly_usage: Seq<MonthlyUsageView>,
    pub model_usage: Seq<ModelUsageView>,
    pub projects: Seq<ProjectDataView>,
}

impl View for AllProjectData {
    type V = AllDataView;

    open spec fn view(&self) -> AllDataView {
        AllDataView {
            daily_usage: seq_view(self.daily_usage@),
            monthly_usage: seq_view(self.monthly_usage@),
            model_usage: seq_view(self.model_usage@),
            projects: seq_view(self.projects@),
        }
    }
}

/// The whole report of a corpus: every bucket of the aggregation pass,
/// rendered and ordered by each view's default order.
pub open spec fn spec_all_project_data(corpus: Seq<ProjectSourceView>) -> AllDataView {
    let agg = aggregate_corpus(corpus);
    AllDataView {
        daily_usage: sort_by_leq(daily_rows_of(agg.0.days), daily_leq()),
        monthly_usage: sort_by_leq(monthly_rows_of(agg.0.months), monthly_leq()),
        model_usage: sort_by_leq(
            model_rows_of(agg.0.models),
            models_leq(ModelSortKey::TotalTokens, false),
        ),
        projects: sort_by_leq(
            project_rows_of(agg.1),
            projects_leq(ProjectSortKey::LastActivity, false),
        ),
    }
}

/// Builds the whole report fresh from the corpus. The result is a function
/// of the corpus views alone, so re-running over an unchanged corpus gives
/// an identical report.
pub fn process_all_project_data(corpus: &Vec<ProjectSource>) -> (r: AllProjectData)
    ensures
        r@ == spec_all_project_data(seq_view(corpus@)),
{
    let (days, months, models, projects, detailed) = aggregate(corpus);
    let _ = detailed;
    let daily_usage = sort_daily(days_to_rows(days));
    let monthly_usage = sort_monthly(months_to_rows(months));
    let model_usage = sort_models(models_to_rows(models), ModelSortKey::TotalTokens, false);
    let project_rows = projects_to_rows(projects);
    let projects_sorted = sort_projects(project_rows, ProjectSortKey::LastActivity, false);
    AllProjectData {
        daily_usage,
        monthly_usage,
        model_usage,
        projects: projects_sorted,
    }
}

/// The daily view of the corpus, ascending by date.
pub fn process_daily_usage(corpus: &Vec<ProjectSource>) -> (r: Vec<DailyUsage>)
    ensures
        seq_view(r@) == spec_all_project_data(seq_view(corpus@)).daily_usage,
{
    let all = process_all_project_data(corpus);
    all.daily_usage
}

/// The monthly view of the corpus, ascending by month.
pub fn process_monthly_usage(corpus: &Vec<ProjectSource>) -> (r: Vec<MonthlyUsage>)
    ensures
        seq_view(r@) == spec_all_project_data(seq_view(corpus@)).monthly_usage,
{
    let all = process_all_project_data(corpus);
    all.monthly_usage
}

/// The models view of the corpus, descending by total tokens.
pub fn process_model_usage(corpus: &Vec<ProjectSource>) -> (r: Vec<ModelUsage>)
    ensures
        seq_view(r@) == spec_all_project_data(seq_view(corpus@)).model_usage,
{
    let all = process_all_project_data(corpus);
    all.model_usage
}

/// The projects view of the corpus, descending by last activity.
pub fn process_projects(corpus: &Vec<ProjectSource>) -> (r: Vec<ProjectData>)
    ensures
        seq_view(r@) == spec_all_project_data(seq_view(corpus@)).projects,
{
    let all = process_all_project_data(corpus);
    all.projects
}

/// Date order on daily rows is total and transitive.
pub proof fn lemma_daily_leq_total_preorder()
    ensures
        total_preorder(daily_leq()),
{
    let leq = daily_leq();
    assert forall|a: DailyUsageView, b: DailyUsageView| #[trigger] leq(a, b) || #[trigger] leq(
        b,
        a,
    ) by {
        lemma_lex_le_total(a.date, b.date);
    }
    assert forall|a: DailyUsageView, b: DailyUsageView, c: DailyUsageView|
        #[trigger] leq(a, b) && #[trigger] leq(b, c) implies leq(a, c) by {
        lemma_lex_le_trans(a.date, b.date, c.date);
    }
}

/// Month order on monthly rows is total and transitive.
pub proof fn lemma_monthly_leq_total_preorder()
    ensures
        total_preorder(monthly_leq()),
{
    let leq = monthly_leq();
    assert forall|a: MonthlyUsageView, b: MonthlyUsageView| #[trigger] leq(a, b) || #[trigger] leq(
        b,
        a,
    ) by {
        lemma_lex_le_total(a.month, b.month);
    }
    assert forall|a: MonthlyUsageView, b: MonthlyUsageView, c: MonthlyUsageView|
        #[trigger] leq(a, b) && #[trigger] leq(b, c) implies leq(a, c) by {
        lemma_lex_le_trans(a.month, b.month, c.month);
    }
}

/// Every model sort relation is total and transitive.
pub proof fn lemma_models_leq_total_preorder(k: ModelSortKey, asc: bool)
    ensures
        total_preorder(models_leq(k, asc)),
{
    let leq = models_leq(k, asc);
    assert forall|a: ModelUsageView, b: ModelUsageView| #[trigger] leq(a, b) || #[trigger] leq(
        b,
        a,
    ) by {
        if k is Model {
            lemma_lex_le_total(lower_of(a.model), lower_of(b.model));
        }
    }
    assert forall|a: ModelUsageView, b: ModelUsageView, c: ModelUsageView|
        #[trigger] leq(a, b) && #[trigger] leq(b, c) implies leq(a, c) by {
        if k is Model {
            if asc {
                lemma_lex_le_trans(lower_of(a.model), lower_of(b.model), lower_of(c.model));
            } else {
                lemma_lex_le_trans(lower_of(c.model), lower_of(b.model), lower_of(a.model));
            }
        }
    }
}

/// Every project sort relation is total and transitive.
pub proof fn lemma_projects_leq_total_preorder(k: ProjectSortKey, asc: bool)
    ensures
        total_preorder(projects_leq(k, asc)),
{
    let leq = projects_leq(k, asc);
    assert forall|a: ProjectDataView, b: ProjectDataView| #[trigger] leq(a, b) || #[trigger] leq(
        b,
        a,
    ) by {
        if k is LastActivity {
            lemma_lex_le_total(opt_str(a.last_activity), opt_str(b.last_activity));
        }
        if k is Name {
            lemma_lex_le_total(lower_of(a.name), lower_of(b.name));
        }
    }
    assert forall|a: ProjectDataView, b: ProjectDataView, c: ProjectDataView|
        #[trigger] leq(a, b) && #[trigger] leq(b, c) implies leq(a, c) by {
        if k is LastActivity {
            if asc {
                lemma_lex_le_trans(
                    opt_str(a.last_activity),
                    opt_str(b.last_activity),
                    opt_str(c.last_activity),
                );
            } else {
                lemma_lex_le_trans(
                    opt_str(c.last_activity),
                    opt_str(b.last_activity),
                    opt_str(a.last_activity),
                );
            }
        }
        if k is Name {
            if asc {
                lemma_lex_le_trans(lower_of(a.name), lower_of(b.name), lower_of(c.name));
            } else {
                lemma_lex_le_trans(lower_of(c.name), lower_of(b.name), lower_of(a.name));
            }
        }
    }
}

/// The daily view comes out ordered ascending by date.
pub proof fn lemma_daily_view_sorted(corpus: Seq<ProjectSourceView>)
    ensures
        sorted_by_leq(spec_all_project_data(corpus).daily_usage, daily_leq()),
{
    lemma_daily_leq_total_preorder();
    lemma_sort_sorted(daily_rows_of(aggregate_corpus(corpus).0.days), daily_leq());
}

/// The monthly view comes out ordered ascending by month.
pub proof fn lemma_monthly_view_sorted(corpus: Seq<ProjectSourceView>)
    ensures
        sorted_by_leq(spec_all_project_data(corpus).monthly_usage, monthly_leq()),
{
    lemma_monthly_leq_total_preorder();
    lemma_sort_sorted(monthly_rows_of(aggregate_corpus(corpus).0.months), monthly_leq());
}

/// The models view comes out ordered descending by total tokens.
pub proof fn lemma_models_view_sorted(corpus: Seq<ProjectSourceView>)
    ensures
        sorted_by_leq(
            spec_all_project_data(corpus).model_usage,
            models_leq(ModelSortKey::TotalTokens, false),
        ),
{
    lemma_models_leq_total_preorder(ModelSortKey::TotalTokens, false);
    lemma_sort_sorted(
        model_rows_of(aggregate_corpus(corpus).0.models),
        models_leq(ModelSortKey::TotalTokens, false),
    );
}

/// The projects view comes out ordered descending by last activity.
pub proof fn lemma_projects_view_sorted(corpus: Seq<ProjectSourceView>)
    ensures
        sorted_by_leq(
            spec_all_project_data(corpus).projects,
            projects_leq(ProjectSortKey::LastActivity, false),
        ),
{
    lemma_projects_leq_total_preorder(ProjectSortKey::LastActivity, false);
    lemma_sort_sorted(
        project_rows_of(aggregate_corpus(corpus).1),
        projects_leq(ProjectSortKey::LastActivity, false),
    );
}

} // verus!
