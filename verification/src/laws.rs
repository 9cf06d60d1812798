//! Conservation and determinism laws of the aggregation engine.
//!
//! The central law: folding a corpus into buckets neither loses nor double
//! counts tokens. For each dimension (day, month, model, project) the sum of
//! the buckets' total-token fields equals the sum of the per-event totals of
//! the events contributing to that dimension, whenever that sum fits in
//! `u64` (the accumulators saturate there).

use vstd::prelude::*;

use crate::aggregate::AggState;
use crate::aggregate::aggregate_corpus;
use crate::aggregate::corpus_fold;
use crate::aggregate::day_index;
use crate::aggregate::day_upsert;
use crate::aggregate::month_index;
use crate::aggregate::month_upsert;
use crate::aggregate::model_index;
use crate::aggregate::model_upsert;
use crate::aggregate::line_step;
use crate::aggregate::lines_fold;
use crate::aggregate::proj_init;
use crate::models::DayView;
use crate::models::MonthView;
use crate::models::ModelView;
use crate::models::ProjectSourceView;
use crate::models::ProjectView;
use crate::models::UsageMetrics;
use crate::models::metrics_of;
use crate::parse::parsed_line;
use crate::text::date_of;
use crate::text::month_of;

verus! {

/// Sum of the total-token fields of the day buckets.
pub open spec fn days_total_sum(s: Seq<DayView>) -> int
    decreases s.len(),
{
    if s.len() == 0 {
        0
    } else {
        days_total_sum(s.drop_last()) + s.last().total_tokens
    }
}

/// The total tokens one log line contributes to the day and model
/// dimensions: the derived total of its usage record, when the line decodes
/// with a payload, a timestamp and a usage record; otherwise nothing.
pub open spec fn line_usage_total(line: Seq<char>) -> int {
    match parsed_line(line) {
        None => 0,
        Some(m) => match (m.message, m.timestamp) {
            (Some(c), Some(ts)) => match c.usage {
                None => 0,
                Some(u) => metrics_of(u).total_tokens as int,
            },
            _ => 0,
        },
    }
}

pub open spec fn lines_usage_total(lines: Seq<Seq<char>>) -> int
    decreases lines.len(),
{
    if lines.len() == 0 {
        0
    } else {
        lines_usage_total(lines.drop_last()) + line_usage_total(lines.last())
    }
}

pub open spec fn corpus_usage_total(corpus: Seq<ProjectSourceView>) -> int
    decreases corpus.len(),
{
    if corpus.len() == 0 {
        0
    } else {
        corpus_usage_total(corpus.drop_last()) + lines_usage_total(corpus.last().lines)
    }
}

proof fn lemma_lines_usage_total_nonneg(lines: Seq<Seq<char>>)
    ensures
        lines_usage_total(lines) >= 0,
    decreases lines.len(),
{
    if lines.len() > 0 {
        lemma_lines_usage_total_nonneg(lines.drop_last());
    }
}

proof fn lemma_corpus_usage_total_nonneg(corpus: Seq<ProjectSourceView>)
    ensures
        corpus_usage_total(corpus) >= 0,
    decreases corpus.len(),
{
    if corpus.len() > 0 {
        lemma_corpus_usage_total_nonneg(corpus.drop_last());
        lemma_lines_usage_total_nonneg(corpus.last().lines);
    }
}

proof fn lemma_days_total_sum_nonneg(s: Seq<DayView>)
    ensures
        days_total_sum(s) >= 0,
    decreases s.len(),
{
    if s.len() > 0 {
        lemma_days_total_sum_nonneg(s.drop_last());
    }
}

proof fn lemma_days_sum_elem(s: Seq<DayView>, i: int)
    requires
        0 <= i < s.len(),
    ensures
        s[i].total_tokens <= days_total_sum(s),
    decreases s.len(),
{
    lemma_days_total_sum_nonneg(s.drop_last());
    if i < s.len() - 1 {
        lemma_days_sum_elem(s.drop_last(), i);
    }
}

proof fn lemma_days_sum_update(s: Seq<DayView>, i: int, v: DayView)
    requires
        0 <= i < s.len(),
    ensures
        days_total_sum(s.update(i, v)) == days_total_sum(s) - s[i].total_tokens + v.total_tokens,
    decreases s.len(),
{
    let t = s.update(i, v);
    if i == s.len() - 1 {
        assert(t.drop_last() =~= s.drop_last());
        assert(t.last() == v);
    } else {
        assert(t.drop_last() =~= s.drop_last().update(i, v));
        assert(t.last() == s.last());
        lemma_days_sum_update(s.drop_last(), i, v);
    }
}

proof fn lemma_day_index_range(s: Seq<DayView>, date: Seq<char>)
    ensures
        match day_index(s, date) {
            None => true,
            Some(i) => 0 <= i < s.len(),
        },
    decreases s.len(),
{
    if s.len() > 0 && s[0].date != date {
        lemma_day_index_range(s.drop_first(), date);
    }
}

proof fn lemma_day_upsert_sum(s: Seq<DayView>, date: Seq<char>, m: UsageMetrics, sid: Option<Seq<char>>)
    requires
        days_total_sum(s) + m.total_tokens <= u64::MAX,
    ensures
        days_total_sum(day_upsert(s, date, m, sid)) == days_total_sum(s) + m.total_tokens,
{
    lemma_day_index_range(s, date);
    lemma_days_total_sum_nonneg(s);
    match day_index(s, date) {
        None => {
            let d = crate::aggregate::day_add(crate::aggregate::day_zero(date), m, sid);
            assert(d.total_tokens == m.total_tokens);
            assert(s.push(d).drop_last() =~= s);
            assert(s.push(d).last() == d);
        },
        Some(i) => {
            lemma_days_sum_elem(s, i);
            let d = crate::aggregate::day_add(s[i], m, sid);
            assert(d.total_tokens == s[i].total_tokens + m.total_tokens);
            lemma_days_sum_update(s, i, d);
        },
    }
}

proof fn lemma_line_step_day_sum(st: AggState, p: ProjectView, line: Seq<char>)
    requires
        days_total_sum(st.days) + line_usage_total(line) <= u64::MAX,
    ensures
        days_total_sum(line_step(st, p, line).0.days) == days_total_sum(st.days)
            + line_usage_total(line),
{
    match parsed_line(line) {
        None => {},
        Some(m) => match (m.message, m.timestamp) {
            (Some(c), Some(ts)) => match c.usage {
                None => {},
                Some(u) => {
                    lemma_day_upsert_sum(st.days, date_of(ts), metrics_of(u), m.session_id);
                },
            },
            _ => {},
        },
    }
}

proof fn lemma_lines_fold_day_sum(st: AggState, p: ProjectView, lines: Seq<Seq<char>>)
    requires
        days_total_sum(st.days) + lines_usage_total(lines) <= u64::MAX,
        days_total_sum(st.days) >= 0,
    ensures
        days_total_sum(lines_fold(st, p, lines).0.days) == days_total_sum(st.days)
            + lines_usage_total(lines),
    decreases lines.len(),
{
    if lines.len() > 0 {
        lemma_lines_usage_total_nonneg(lines.drop_last());
        lemma_lines_fold_day_sum(st, p, lines.drop_last());
        let prev = lines_fold(st, p, lines.drop_last());
        lemma_line_step_day_sum(prev.0, prev.1, lines.last());
    }
}

proof fn lemma_corpus_fold_day_sum(st: AggState, ps: Seq<ProjectView>, corpus: Seq<ProjectSourceView>)
    requires
        days_total_sum(st.days) + corpus_usage_total(corpus) <= u64::MAX,
        days_total_sum(st.days) >= 0,
    ensures
        days_total_sum(corpus_fold(st, ps, corpus).0.days) == days_total_sum(st.days)
            + corpus_usage_total(corpus),
    decreases corpus.len(),
{
    if corpus.len() > 0 {
        lemma_corpus_usage_total_nonneg(corpus.drop_last());
        lemma_lines_usage_total_nonneg(corpus.last().lines);
        lemma_corpus_fold_day_sum(st, ps, corpus.drop_last());
        let prev = corpus_fold(st, ps, corpus.drop_last());
        lemma_days_total_sum_nonneg(prev.0.days);
        lemma_lines_fold_day_sum(
            prev.0,
            proj_init(corpus.last().name, corpus.last().path),
            corpus.last().lines,
        );
    }
}

/// Conservation across the day dimension: the day buckets' total tokens sum
/// to the sum of the per-event totals of every contributing event, as long
/// as that sum fits in `u64`.
pub proof fn lemma_day_totals(corpus: Seq<ProjectSourceView>)
    requires
        corpus_usage_total(corpus) <= u64::MAX,
    ensures
        days_total_sum(aggregate_corpus(corpus).0.days) == corpus_usage_total(corpus),
{
    lemma_corpus_fold_day_sum(crate::aggregate::init_state(), Seq::empty(), corpus);
}

/// Sum of the total-token fields of the month buckets.
pub open spec fn months_total_sum(s: Seq<MonthView>) -> int
    decreases s.len(),
{
    if s.len() == 0 {
        0
    } else {
        months_total_sum(s.drop_last()) + s.last().total_tokens
    }
}

/// The total tokens one line contributes to the month dimension: as for the
/// day dimension, but only when the event's date yields a month key.
pub open spec fn line_month_total(line: Seq<char>) -> int {
    match parsed_line(line) {
        None => 0,
        Some(m) => match (m.message, m.timestamp) {
            (Some(c), Some(ts)) => match c.usage {
                None => 0,
                Some(u) => match month_of(date_of(ts)) {
                    None => 0,
                    Some(mo) => metrics_of(u).total_tokens as int,
                },
            },
            _ => 0,
        },
    }
}

pub open spec fn lines_month_total(lines: Seq<Seq<char>>) -> int
    decreases lines.len(),
{
    if lines.len() == 0 {
        0
    } else {
        lines_month_total(lines.drop_last()) + line_month_total(lines.last())
    }
}

pub open spec fn corpus_month_total(corpus: Seq<ProjectSourceView>) -> int
    decreases corpus.len(),
{
    if corpus.len() == 0 {
        0
    } else {
        corpus_month_total(corpus.drop_last()) + lines_month_total(corpus.last().lines)
    }
}

proof fn lemma_lines_month_total_nonneg(lines: Seq<Seq<char>>)
    ensures
        lines_month_total(lines) >= 0,
    decreases lines.len(),
{
    if lines.len() > 0 {
        lemma_lines_month_total_nonneg(lines.drop_last());
    }
}

proof fn lemma_months_total_sum_nonneg(s: Seq<MonthView>)
    ensures
        months_total_sum(s) >= 0,
    decreases s.len(),
{
    if s.len() > 0 {
        lemma_months_total_sum_nonneg(s.drop_last());
    }
}

proof fn lemma_months_sum_elem(s: Seq<MonthView>, i: int)
    requires
        0 <= i < s.len(),
    ensures
        s[i].total_tokens <= months_total_sum(s),
    decreases s.len(),
{
    lemma_months_total_sum_nonneg(s.drop_last());
    if i < s.len() - 1 {
        lemma_months_sum_elem(s.drop_last(), i);
    }
}

proof fn lemma_months_sum_update(s: Seq<MonthView>, i: int, v: MonthView)
    requires
        0 <= i < s.len(),
    ensures
        months_total_sum(s.update(i, v)) == months_total_sum(s) - s[i].total_tokens
            + v.total_tokens,
    decreases s.len(),
{
    let t = s.update(i, v);
    if i == s.len() - 1 {
        assert(t.drop_last() =~= s.drop_last());
        assert(t.last() == v);
    } else {
        assert(t.drop_last() =~= s.drop_last().update(i, v));
        assert(t.last() == s.last());
        lemma_months_sum_update(s.drop_last(), i, v);
    }
}

proof fn lemma_month_index_range(s: Seq<MonthView>, month: Seq<char>)
    ensures
        match month_index(s, month) {
            None => true,
            Some(i) => 0 <= i < s.len(),
        },
    decreases s.len(),
{
    if s.len() > 0 && s[0].month != month {
        lemma_month_index_range(s.drop_first(), month);
    }
}

proof fn lemma_month_upsert_sum(
    s: Seq<MonthView>,
    month: Seq<char>,
    m: UsageMetrics,
    sid: Option<Seq<char>>,
)
    requires
        months_total_sum(s) + m.total_tokens <= u64::MAX,
    ensures
        months_total_sum(month_upsert(s, month, m, sid)) == months_total_sum(s) + m.total_tokens,
{
    lemma_month_index_range(s, month);
    lemma_months_total_sum_nonneg(s);
    match month_index(s, month) {
        None => {
            let d = crate::aggregate::month_add(crate::aggregate::month_zero(month), m, sid);
            assert(d.total_tokens == m.total_tokens);
            assert(s.push(d).drop_last() =~= s);
            assert(s.push(d).last() == d);
        },
        Some(i) => {
            lemma_months_sum_elem(s, i);
            let d = crate::aggregate::month_add(s[i], m, sid);
            assert(d.total_tokens == s[i].total_tokens + m.total_tokens);
            lemma_months_sum_update(s, i, d);
        },
    }
}

proof fn lemma_line_step_month_sum(st: AggState, p: ProjectView, line: Seq<char>)
    requires
        months_total_sum(st.months) + line_month_total(line) <= u64::MAX,
    ensures
        months_total_sum(line_step(st, p, line).0.months) == months_total_sum(st.months)
            + line_month_total(line),
{
    match parsed_line(line) {
        None => {},
        Some(m) => match (m.message, m.timestamp) {
            (Some(c), Some(ts)) => match c.usage {
                None => {},
                Some(u) => match month_of(date_of(ts)) {
                    None => {},
                    Some(mo) => {
                        lemma_month_upsert_sum(st.months, mo, metrics_of(u), m.session_id);
                    },
                },
            },
            _ => {},
        },
    }
}

proof fn lemma_lines_fold_month_sum(st: AggState, p: ProjectView, lines: Seq<Seq<char>>)
    requires
        months_total_sum(st.months) + lines_month_total(lines) <= u64::MAX,
        months_total_sum(st.months) >= 0,
    ensures
        months_total_sum(lines_fold(st, p, lines).0.months) == months_total_sum(st.months)
            + lines_month_total(lines),
    decreases lines.len(),
{
    if lines.len() > 0 {
        lemma_lines_month_total_nonneg(lines.drop_last());
        lemma_lines_fold_month_sum(st, p, lines.drop_last());
        let prev = lines_fold(st, p, lines.drop_last());
        lemma_line_step_month_sum(prev.0, prev.1, lines.last());
    }
}

proof fn lemma_corpus_fold_month_sum(
    st: AggState,
    ps: Seq<ProjectView>,
    corpus: Seq<ProjectSourceView>,
)
    requires
        months_total_sum(st.months) + corpus_month_total(corpus) <= u64::MAX,
        months_total_sum(st.months) >= 0,
    ensures
        months_total_sum(corpus_fold(st, ps, corpus).0.months) == months_total_sum(st.months)
            + corpus_month_total(corpus),
    decreases corpus.len(),
{
    if corpus.len() > 0 {
        assert(corpus_month_total(corpus.drop_last()) >= 0) by {
            lemma_corpus_month_total_nonneg(corpus.drop_last());
        }
        lemma_lines_month_total_nonneg(corpus.last().lines);
        lemma_corpus_fold_month_sum(st, ps, corpus.drop_last());
        let prev = corpus_fold(st, ps, corpus.drop_last());
        lemma_months_total_sum_nonneg(prev.0.months);
        lemma_lines_fold_month_sum(
            prev.0,
            proj_init(corpus.last().name, corpus.last().path),
            corpus.last().lines,
        );
    }
}

proof fn lemma_corpus_month_total_nonneg(corpus: Seq<ProjectSourceView>)
    ensures
        corpus_month_total(corpus) >= 0,
    decreases corpus.len(),
{
    if corpus.len() > 0 {
        lemma_corpus_month_total_nonneg(corpus.drop_last());
        lemma_lines_month_total_nonneg(corpus.last().lines);
    }
}

/// Conservation across the month dimension.
pub proof fn lemma_month_totals(corpus: Seq<ProjectSourceView>)
    requires
        corpus_month_total(corpus) <= u64::MAX,
    ensures
        months_total_sum(aggregate_corpus(corpus).0.months) == corpus_month_total(corpus),
{
    lemma_corpus_fold_month_sum(crate::aggregate::init_state(), Seq::empty(), corpus);
}

/// Sum of the total-token fields of the model buckets.
pub open spec fn models_total_sum(s: Seq<ModelView>) -> int
    decreases s.len(),
{
    if s.len() == 0 {
        0
    } else {
        models_total_sum(s.drop_last()) + s.last().total_tokens
    }
}

proof fn lemma_models_total_sum_nonneg(s: Seq<ModelView>)
    ensures
        models_total_sum(s) >= 0,
    decreases s.len(),
{
    if s.len() > 0 {
        lemma_models_total_sum_nonneg(s.drop_last());
    }
}

proof fn lemma_models_sum_elem(s: Seq<ModelView>, i: int)
    requires
        0 <= i < s.len(),
    ensures
        s[i].total_tokens <= models_total_sum(s),
    decreases s.len(),
{
    lemma_models_total_sum_nonneg(s.drop_last());
    if i < s.len() - 1 {
        lemma_models_sum_elem(s.drop_last(), i);
    }
}

proof fn lemma_models_sum_update(s: Seq<ModelView>, i: int, v: ModelView)
    requires
        0 <= i < s.len(),
    ensures
        models_total_sum(s.update(i, v)) == models_total_sum(s) - s[i].total_tokens
            + v.total_tokens,
    decreases s.len(),
{
    let t = s.update(i, v);
    if i == s.len() - 1 {
        assert(t.drop_last() =~= s.drop_last());
        assert(t.last() == v);
    } else {
        assert(t.drop_last() =~= s.drop_last().update(i, v));
        assert(t.last() == s.last());
        lemma_models_sum_update(s.drop_last(), i, v);
    }
}

proof fn lemma_model_index_range(s: Seq<ModelView>, model: Seq<char>)
    ensures
        match model_index(s, model) {
            None => true,
            Some(i) => 0 <= i < s.len(),
        },
    decreases s.len(),
{
    if s.len() > 0 && s[0].model != model {
        lemma_model_index_range(s.drop_first(), model);
    }
}

proof fn lemma_model_upsert_sum(
    s: Seq<ModelView>,
    model: Seq<char>,
    m: UsageMetrics,
    sid: Option<Seq<char>>,
)
    requires
        models_total_sum(s) + m.total_tokens <= u64::MAX,
    ensures
        models_total_sum(model_upsert(s, model, m, sid)) == models_total_sum(s) + m.total_tokens,
{
    lemma_model_index_range(s, model);
    lemma_models_total_sum_nonneg(s);
    match model_index(s, model) {
        None => {
            let d = crate::aggregate::model_add(crate::aggregate::model_zero(model), m, sid);
            assert(d.total_tokens == m.total_tokens);
            assert(s.push(d).drop_last() =~= s);
            assert(s.push(d).last() == d);
        },
        Some(i) => {
            lemma_models_sum_elem(s, i);
            let d = crate::aggregate::model_add(s[i], m, sid);
            assert(d.total_tokens == s[i].total_tokens + m.total_tokens);
            lemma_models_sum_update(s, i, d);
        },
    }
}

proof fn lemma_line_step_model_sum(st: AggState, p: ProjectView, line: Seq<char>)
    requires
        models_total_sum(st.models) + line_usage_total(line) <= u64::MAX,
    ensures
        models_total_sum(line_step(st, p, line).0.models) == models_total_sum(st.models)
            + line_usage_total(line),
{
    match parsed_line(line) {
        None => {},
        Some(m) => match (m.message, m.timestamp) {
            (Some(c), Some(ts)) => match c.usage {
                None => {},
                Some(u) => {
                    let model = match c.model {
                        None => "unknown"@,
                        Some(md) => md,
                    };
                    lemma_model_upsert_sum(st.models, model, metrics_of(u), m.session_id);
                },
            },
            _ => {},
        },
    }
}

proof fn lemma_lines_fold_model_sum(st: AggState, p: ProjectView, lines: Seq<Seq<char>>)
    requires
        models_total_sum(st.models) + lines_usage_total(lines) <= u64::MAX,
        models_total_sum(st.models) >= 0,
    ensures
        models_total_sum(lines_fold(st, p, lines).0.models) == models_total_sum(st.models)
            + lines_usage_total(lines),
    decreases lines.len(),
{
    if lines.len() > 0 {
        lemma_lines_usage_total_nonneg(lines.drop_last());
        lemma_lines_fold_model_sum(st, p, lines.drop_last());
        let prev = lines_fold(st, p, lines.drop_last());
        lemma_line_step_model_sum(prev.0, prev.1, lines.last());
    }
}

proof fn lemma_corpus_fold_model_sum(
    st: AggState,
    ps: Seq<ProjectView>,
    corpus: Seq<ProjectSourceView>,
)
    requires
        models_total_sum(st.models) + corpus_usage_total(corpus) <= u64::MAX,
        models_total_sum(st.models) >= 0,
    ensures
        models_total_sum(corpus_fold(st, ps, corpus).0.models) == models_total_sum(st.models)
            + corpus_usage_total(corpus),
    decreases corpus.len(),
{
    if corpus.len() > 0 {
        lemma_corpus_usage_total_nonneg(corpus.drop_last());
        lemma_lines_usage_total_nonneg(corpus.last().lines);
        lemma_corpus_fold_model_sum(st, ps, corpus.drop_last());
        let prev = corpus_fold(st, ps, corpus.drop_last());
        lemma_models_total_sum_nonneg(prev.0.models);
        lemma_lines_fold_model_sum(
            prev.0,
            proj_init(corpus.last().name, corpus.last().path),
            corpus.last().lines,
        );
    }
}

/// Conservation across the model dimension.
pub proof fn lemma_model_totals(corpus: Seq<ProjectSourceView>)
    requires
        corpus_usage_total(corpus) <= u64::MAX,
    ensures
        models_total_sum(aggregate_corpus(corpus).0.models) == corpus_usage_total(corpus),
{
    lemma_corpus_fold_model_sum(crate::aggregate::init_state(), Seq::empty(), corpus);
}

/// Sum of the total-token fields of the project accumulators.
pub open spec fn projects_total_sum(s: Seq<ProjectView>) -> int
    decreases s.len(),
{
    if s.len() == 0 {
        0
    } else {
        projects_total_sum(s.drop_last()) + s.last().total_tokens
    }
}

proof fn lemma_line_step_proj_sum(st: AggState, p: ProjectView, line: Seq<char>)
    requires
        p.total_tokens + line_usage_total(line) <= u64::MAX,
    ensures
        line_step(st, p, line).1.total_tokens == p.total_tokens + line_usage_total(line),
{
}

proof fn lemma_lines_fold_proj_sum(st: AggState, p: ProjectView, lines: Seq<Seq<char>>)
    requires
        p.total_tokens + lines_usage_total(lines) <= u64::MAX,
    ensures
        lines_fold(st, p, lines).1.total_tokens == p.total_tokens + lines_usage_total(lines),
    decreases lines.len(),
{
    if lines.len() > 0 {
        lemma_lines_usage_total_nonneg(lines.drop_last());
        lemma_lines_fold_proj_sum(st, p, lines.drop_last());
        let prev = lines_fold(st, p, lines.drop_last());
        lemma_line_step_proj_sum(prev.0, prev.1, lines.last());
    }
}

proof fn lemma_corpus_fold_proj_sum(
    st: AggState,
    ps: Seq<ProjectView>,
    corpus: Seq<ProjectSourceView>,
)
    requires
        corpus_usage_total(corpus) <= u64::MAX,
    ensures
        projects_total_sum(corpus_fold(st, ps, corpus).1) == projects_total_sum(ps)
            + corpus_usage_total(corpus),
    decreases corpus.len(),
{
    if corpus.len() > 0 {
        lemma_corpus_usage_total_nonneg(corpus.drop_last());
        lemma_lines_usage_total_nonneg(corpus.last().lines);
        lemma_corpus_fold_proj_sum(st, ps, corpus.drop_last());
        let prev = corpus_fold(st, ps, corpus.drop_last());
        lemma_lines_fold_proj_sum(
            prev.0,
            proj_init(corpus.last().name, corpus.last().path),
            corpus.last().lines,
        );
        let done = lines_fold(
            prev.0,
            proj_init(corpus.last().name, corpus.last().path),
            corpus.last().lines,
        );
        assert(prev.1.push(done.1).drop_last() =~= prev.1);
        assert(prev.1.push(done.1).last() == done.1);
    }
}

/// Conservation across the project dimension: each event lands in exactly
/// its own project's totals.
pub proof fn lemma_project_totals(corpus: Seq<ProjectSourceView>)
    requires
        corpus_usage_total(corpus) <= u64::MAX,
    ensures
        projects_total_sum(aggregate_corpus(corpus).1) == corpus_usage_total(corpus),
{
    lemma_corpus_fold_proj_sum(crate::aggregate::init_state(), Seq::empty(), corpus);
}

/// The report is a function of the corpus alone: aggregating two corpora
/// with equal views yields equal reports, so re-running over an unchanged
/// corpus reproduces the report exactly.
pub proof fn lemma_aggregation_deterministic(c1: Seq<ProjectSourceView>, c2: Seq<ProjectSourceView>)
    requires
        c1 == c2,
    ensures
        crate::views::spec_all_project_data(c1) == crate::views::spec_all_project_data(c2),
        crate::batch::spec_processed_data(c1) == crate::batch::spec_processed_data(c2),
{
}

} // verus!
