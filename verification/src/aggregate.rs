//! The aggregation engine: one pass over every log line of every project,
//! folding each decoded event into the day, month and model buckets, the
//! owning project's running totals, and the flat detailed-event list.
//!
//! The whole pass is specified as a fold ([`aggregate_corpus`]) over the
//! corpus view; the executable code mirrors it step for step, so the
//! accumulated buckets are pinned exactly by the corpus alone.

use vstd::prelude::*;

use crate::models::DayData;
use crate::models::DayView;
use crate::models::DetailedUsage;
use crate::models::DetailedView;
use crate::models::Message;
use crate::models::ModelData;
use crate::models::ModelView;
use crate::models::MonthData;
use crate::models::MonthView;
use crate::models::ProjectInternal;
use crate::models::ProjectSource;
use crate::models::ProjectSourceView;
use crate::models::ProjectView;
use crate::models::UsageMetrics;
use crate::models::metrics_of;
use crate::models::seq_view;
use crate::models::view_opt_str;
use crate::numbers::sat64;
use crate::numbers::sat_usize;
use crate::numbers::sat_add;
use crate::numbers::sat_add_usize;
use crate::parse::parse_line;
use crate::parse::parsed_line;
use crate::text::date_of;
use crate::text::date_of_timestamp;
use crate::text::lex_le;
use crate::text::month_of;
use crate::text::month_of_date;
use crate::text::str_lex_le;

verus! {

/// Inserts a session identifier into a distinct-session list: absent
/// identifiers change nothing, known ones are kept once.
pub open spec fn sess_insert(s: Seq<Seq<char>>, sid: Option<Seq<char>>) -> Seq<Seq<char>> {
    match sid {
        None => s,
        Some(x) => if s.contains(x) {
            s
        } else {
            s.push(x)
        },
    }
}

/// Whether the list holds the given session identifier.
fn contains_string(v: &Vec<String>, x: &String) -> (r: bool)
    ensures
        r == v.deep_view().contains(x@),
{
    let n = v.len();
    let mut i: usize = 0;
    while i < n
        invariant
            i <= n,
            n == v@.len(),
            forall|k: int| 0 <= k < i ==> v.deep_view()[k] != x@,
        decreases n - i,
    {
        proof {
            assert(v.deep_view()[i as int] == v@[i as int]@);
        }
        if v[i] == *x {
            return true;
        }
        i = i + 1;
    }
    false
}

/// Adds a session identifier (when present and new) to the list.
pub(crate) fn sess_insert_exec(s: &mut Vec<String>, sid: &Option<String>)
    ensures
        final(s).deep_view() == sess_insert(old(s).deep_view(), view_opt_str(*sid)),
{
    match sid {
        None => {},
        Some(x) => {
            if !contains_string(s, x) {
                s.push(x.clone());
                proof {
                    assert(s.deep_view() =~= old(s).deep_view().push(x@));
                }
            }
        },
    }
}

/// The lexicographically larger of the running maximum and a new timestamp:
/// the newcomer wins only when it is strictly greater, so the earliest of
/// equal strings is kept.
pub open spec fn upd_last(cur: Option<Seq<char>>, ts: Seq<char>) -> Option<Seq<char>> {
    match cur {
        None => Some(ts),
        Some(o) => if !lex_le(ts, o) {
            Some(ts)
        } else {
            Some(o)
        },
    }
}

/// Moves the running last-activity maximum forward.
fn upd_last_exec(slot: &mut Option<String>, ts: &String)
    ensures
        view_opt_str(*final(slot)) == upd_last(view_opt_str(*old(slot)), ts@),
{
    let replace = match &*slot {
        None => true,
        Some(o) => !str_lex_le(ts.as_str(), o.as_str()),
    };
    if replace {
        *slot = Some(ts.clone());
    }
}

/// A zeroed day bucket for a new date key.
pub open spec fn day_zero(date: Seq<char>) -> DayView {
    DayView {
        date,
        input_tokens: 0,
        output_tokens: 0,
        cached_tokens: 0,
        total_tokens: 0,
        cost_nano: 0,
        sessions: Seq::empty(),
        new_input_tokens: 0,
        cache_creation_tokens: 0,
        cache_read_tokens: 0,
    }
}

/// One event folded into a day bucket: all token and cost fields grow by
/// the event's metrics (saturating) and its session joins the session set.
pub open spec fn day_add(d: DayView, m: UsageMetrics, sid: Option<Seq<char>>) -> DayView {
    DayView {
        date: d.date,
        input_tokens: sat64(d.input_tokens + m.input_tokens),
        output_tokens: sat64(d.output_tokens + m.output_tokens),
        cached_tokens: sat64(d.cached_tokens + m.cached_tokens),
        total_tokens: sat64(d.total_tokens + m.total_tokens),
        cost_nano: sat64(d.cost_nano + m.cost_nano),
        sessions: sess_insert(d.sessions, sid),
        new_input_tokens: sat64(d.new_input_tokens + m.new_input_tokens),
        cache_creation_tokens: sat64(d.cache_creation_tokens + m.cache_creation_tokens),
        cache_read_tokens: sat64(d.cache_read_tokens + m.cache_read_tokens),
    }
}

/// Position of the bucket with the given date key.
pub open spec fn day_index(s: Seq<DayView>, date: Seq<char>) -> Option<int>
    decreases s.len(),
{
    if s.len() == 0 {
        None
    } else if s[0].date == date {
        Some(0int)
    } else {
        match day_index(s.drop_first(), date) {
            None => None,
            Some(i) => Some(i + 1),
        }
    }
}

proof fn lemma_day_index_found(s: Seq<DayView>, date: Seq<char>, i: int)
    requires
        0 <= i < s.len(),
        s[i].date == date,
        forall|k: int| 0 <= k < i ==> s[k].date != date,
    ensures
        day_index(s, date) == Some(i),
    decreases i,
{
    if i > 0 {
        lemma_day_index_found(s.drop_first(), date, i - 1);
    }
}

proof fn lemma_day_index_none(s: Seq<DayView>, date: Seq<char>)
    requires
        forall|k: int| 0 <= k < s.len() ==> s[k].date != date,
    ensures
        day_index(s, date) is None,
    decreases s.len(),
{
    if s.len() > 0 {
        lemma_day_index_none(s.drop_first(), date);
    }
}

/// The event lands in the existing bucket of its date, or opens a new one
/// at the end.
pub open spec fn day_upsert(
    s: Seq<DayView>,
    date: Seq<char>,
    m: UsageMetrics,
    sid: Option<Seq<char>>,
) -> Seq<DayView> {
    match day_index(s, date) {
        None => s.push(day_add(day_zero(date), m, sid)),
        Some(i) => s.update(i, day_add(s[i], m, sid)),
    }
}

fn day_add_exec(d: DayData, m: UsageMetrics, sid: &Option<String>) -> (r: DayData)
    ensures
        r@ == day_add(d@, m, view_opt_str(*sid)),
{
    let DayData {
        date,
        input_tokens,
        output_tokens,
        cached_tokens,
        total_tokens,
        cost_nano,
        mut sessions,
        new_input_tokens,
        cache_creation_tokens,
        cache_read_tokens,
    } = d;
    sess_insert_exec(&mut sessions, sid);
    DayData {
        date,
        input_tokens: sat_add(input_tokens, m.input_tokens),
        output_tokens: sat_add(output_tokens, m.output_tokens),
        cached_tokens: sat_add(cached_tokens, m.cached_tokens),
        total_tokens: sat_add(total_tokens, m.total_tokens),
        cost_nano: sat_add(cost_nano, m.cost_nano),
        sessions,
        new_input_tokens: sat_add(new_input_tokens, m.new_input_tokens),
        cache_creation_tokens: sat_add(cache_creation_tokens, m.cache_creation_tokens),
        cache_read_tokens: sat_add(cache_read_tokens, m.cache_read_tokens),
    }
}

fn upsert_day(days: &mut Vec<DayData>, date: String, m: UsageMetrics, sid: &Option<String>)
    ensures
        seq_view(final(days)@) == day_upsert(seq_view(old(days)@), date@, m, view_opt_str(*sid)),
{
    let ghost s0 = seq_view(days@);
    let n = days.len();
    let mut j: usize = 0;
    while j < n
        invariant
            j <= n,
            n == days@.len(),
            days@ == old(days)@,
            s0 == seq_view(days@),
            forall|k: int| 0 <= k < j ==> s0[k].date != date@,
        decreases n - j,
    {
        if days[j].date == date {
            proof {
                assert(s0[j as int].date == date@);
                lemma_day_index_found(s0, date@, j as int);
            }
            let row = days.remove(j);
            let row2 = day_add_exec(row, m, sid);
            days.insert(j, row2);
            proof {
                assert(seq_view(days@) =~= s0.update(
                    j as int,
                    day_add(s0[j as int], m, view_opt_str(*sid)),
                ));
            }
            return ;
        }
        j = j + 1;
    }
    proof {
        lemma_day_index_none(s0, date@);
    }
    let mut sessions: Vec<String> = Vec::new();
    proof {
        assert(sessions.deep_view() =~= Seq::<Seq<char>>::empty());
    }
    sess_insert_exec(&mut sessions, sid);
    let row = DayData {
        date,
        input_tokens: sat_add(0, m.input_tokens),
        output_tokens: sat_add(0, m.output_tokens),
        cached_tokens: sat_add(0, m.cached_tokens),
        total_tokens: sat_add(0, m.total_tokens),
        cost_nano: sat_add(0, m.cost_nano),
        sessions,
        new_input_tokens: sat_add(0, m.new_input_tokens),
        cache_creation_tokens: sat_add(0, m.cache_creation_tokens),
        cache_read_tokens: sat_add(0, m.cache_read_tokens),
    };
    days.push(row);
    proof {
        assert(seq_view(days@) =~= s0.push(day_add(day_zero(date@), m, view_opt_str(*sid))));
    }
}

/// A zeroed month bucket for a new month key.
pub open spec fn month_zero(month: Seq<char>) -> MonthView {
    MonthView {
        month,
        input_tokens: 0,
        output_tokens: 0,
        cached_tokens: 0,
        total_tokens: 0,
        cost_nano: 0,
        sessions: Seq::empty(),
        messages: 0,
        new_input_tokens: 0,
        cache_creation_tokens: 0,
        cache_read_tokens: 0,
    }
}

/// One event folded into a month bucket; the message count grows by one.
pub open spec fn month_add(d: MonthView, m: UsageMetrics, sid: Option<Seq<char>>) -> MonthView {
    MonthView {
        month: d.month,
        input_tokens: sat64(d.input_tokens + m.input_tokens),
        output_tokens: sat64(d.output_tokens + m.output_tokens),
        cached_tokens: sat64(d.cached_tokens + m.cached_tokens),
        total_tokens: sat64(d.total_tokens + m.total_tokens),
        cost_nano: sat64(d.cost_nano + m.cost_nano),
        sessions: sess_insert(d.sessions, sid),
        messages: sat_usize(d.messages + 1),
        new_input_tokens: sat64(d.new_input_tokens + m.new_input_tokens),
        cache_creation_tokens: sat64(d.cache_creation_tokens + m.cache_creation_tokens),
        cache_read_tokens: sat64(d.cache_read_tokens + m.cache_read_tokens),
    }
}

/// Position of the bucket with the given month key.
pub open spec fn month_index(s: Seq<MonthView>, month: Seq<char>) -> Option<int>
    decreases s.len(),
{
    if s.len() == 0 {
        None
    } else if s[0].month == month {
        Some(0int)
    } else {
        match month_index(s.drop_first(), month) {
            None => None,
            Some(i) => Some(i + 1),
        }
    }
}

proof fn lemma_month_index_found(s: Seq<MonthView>, month: Seq<char>, i: int)
    requires
        0 <= i < s.len(),
        s[i].month == month,
        forall|k: int| 0 <= k < i ==> s[k].month != month,
    ensures
        month_index(s, month) == Some(i),
    decreases i,
{
    if i > 0 {
        lemma_month_index_found(s.drop_first(), month, i - 1);
    }
}

proof fn lemma_month_index_none(s: Seq<MonthView>, month: Seq<char>)
    requires
        forall|k: int| 0 <= k < s.len() ==> s[k].month != month,
    ensures
        month_index(s, month) is None,
    decreases s.len(),
{
    if s.len() > 0 {
        lemma_month_index_none(s.drop_first(), month);
    }
}

pub open spec fn month_upsert(
    s: Seq<MonthView>,
    month: Seq<char>,
    m: UsageMetrics,
    sid: Option<Seq<char>>,
) -> Seq<MonthView> {
    match month_index(s, month) {
        None => s.push(month_add(month_zero(month), m, sid)),
        Some(i) => s.update(i, month_add(s[i], m, sid)),
    }
}

fn month_add_exec(d: MonthData, m: UsageMetrics, sid: &Option<String>) -> (r: MonthData)
    ensures
        r@ == month_add(d@, m, view_opt_str(*sid)),
{
    let MonthData {
        month,
        input_tokens,
        output_tokens,
        cached_tokens,
        total_tokens,
        cost_nano,
        mut sessions,
        messages,
        new_input_tokens,
        cache_creation_tokens,
        cache_read_tokens,
    } = d;
    sess_insert_exec(&mut sessions, sid);
    MonthData {
        month,
        input_tokens: sat_add(input_tokens, m.input_tokens),
        output_tokens: sat_add(output_tokens, m.output_tokens),
        cached_tokens: sat_add(cached_tokens, m.cached_tokens),
        total_tokens: sat_add(total_tokens, m.total_tokens),
        cost_nano: sat_add(cost_nano, m.cost_nano),
        sessions,
        messages: sat_add_usize(messages, 1),
        new_input_tokens: sat_add(new_input_tokens, m.new_input_tokens),
        cache_creation_tokens: sat_add(cache_creation_tokens, m.cache_creation_tokens),
        cache_read_tokens: sat_add(cache_read_tokens, m.cache_read_tokens),
    }
}

fn upsert_month(months: &mut Vec<MonthData>, month: String, m: UsageMetrics, sid: &Option<String>)
    ensures
        seq_view(final(months)@) == month_upsert(
            seq_view(old(months)@),
            month@,
            m,
            view_opt_str(*sid),
        ),
{
    let ghost s0 = seq_view(months@);
    let n = months.len();
    let mut j: usize = 0;
    while j < n
        invariant
            j <= n,
            n == months@.len(),
            months@ == old(months)@,
            s0 == seq_view(months@),
            forall|k: int| 0 <= k < j ==> s0[k].month != month@,
        decreases n - j,
    {
        if months[j].month == month {
            proof {
                assert(s0[j as int].month == month@);
                lemma_month_index_found(s0, month@, j as int);
            }
            let row = months.remove(j);
            let row2 = month_add_exec(row, m, sid);
            months.insert(j, row2);
            proof {
                assert(seq_view(months@) =~= s0.update(
                    j as int,
                    month_add(s0[j as int], m, view_opt_str(*sid)),
                ));
            }
            return ;
        }
        j = j + 1;
    }
    proof {
        lemma_month_index_none(s0, month@);
    }
    let mut sessions: Vec<String> = Vec::new();
    proof {
        assert(sessions.deep_view() =~= Seq::<Seq<char>>::empty());
    }
    sess_insert_exec(&mut sessions, sid);
    let row = MonthData {
        month,
        input_tokens: sat_add(0, m.input_tokens),
        output_tokens: sat_add(0, m.output_tokens),
        cached_tokens: sat_add(0, m.cached_tokens),
        total_tokens: sat_add(0, m.total_tokens),
        cost_nano: sat_add(0, m.cost_nano),
        sessions,
        messages: sat_add_usize(0, 1),
        new_input_tokens: sat_add(0, m.new_input_tokens),
        cache_creation_tokens: sat_add(0, m.cache_creation_tokens),
        cache_read_tokens: sat_add(0, m.cache_read_tokens),
    };
    months.push(row);
    proof {
        assert(seq_view(months@) =~= s0.push(month_add(month_zero(month@), m, view_opt_str(*sid))));
    }
}

/// A zeroed model bucket for a new model key.
pub open spec fn model_zero(model: Seq<char>) -> ModelView {
    ModelView {
        model,
        input_tokens: 0,
        output_tokens: 0,
        cached_tokens: 0,
        total_tokens: 0,
        cost_nano: 0,
        sessions: Seq::empty(),
        messages: 0,
        new_input_tokens: 0,
        cache_creation_tokens: 0,
        cache_read_tokens: 0,
    }
}

/// One event folded into a model bucket; the message count grows by one.
pub open spec fn model_add(d: ModelView, m: UsageMetrics, sid: Option<Seq<char>>) -> ModelView {
    ModelView {
        model: d.model,
        input_tokens: sat64(d.input_tokens + m.input_tokens),
        output_tokens: sat64(d.output_tokens + m.output_tokens),
        cached_tokens: sat64(d.cached_tokens + m.cached_tokens),
        total_tokens: sat64(d.total_tokens + m.total_tokens),
        cost_nano: sat64(d.cost_nano + m.cost_nano),
        sessions: sess_insert(d.sessions, sid),
        messages: sat_usize(d.messages + 1),
        new_input_tokens: sat64(d.new_input_tokens + m.new_input_tokens),
        cache_creation_tokens: sat64(d.cache_creation_tokens + m.cache_creation_tokens),
        cache_read_tokens: sat64(d.cache_read_tokens + m.cache_read_tokens),
    }
}

/// Position of the bucket with the given model key.
pub open spec fn model_index(s: Seq<ModelView>, model: Seq<char>) -> Option<int>
    decreases s.len(),
{
    if s.len() == 0 {
        None
    } else if s[0].model == model {
        Some(0int)
    } else {
        match model_index(s.drop_first(), model) {
            None => None,
            Some(i) => Some(i + 1),
        }
    }
}

proof fn lemma_model_index_found(s: Seq<ModelView>, model: Seq<char>, i: int)
    requires
        0 <= i < s.len(),
        s[i].model == model,
        forall|k: int| 0 <= k < i ==> s[k].model != model,
    ensures
        model_index(s, model) == Some(i),
    decreases i,
{
    if i > 0 {
        lemma_model_index_found(s.drop_first(), model, i - 1);
    }
}

proof fn lemma_model_index_none(s: Seq<ModelView>, model: Seq<char>)
    requires
        forall|k: int| 0 <= k < s.len() ==> s[k].model != model,
    ensures
        model_index(s, model) is None,
    decreases s.len(),
{
    if s.len() > 0 {
        lemma_model_index_none(s.drop_first(), model);
    }
}

pub open spec fn model_upsert(
    s: Seq<ModelView>,
    model: Seq<char>,
    m: UsageMetrics,
    sid: Option<Seq<char>>,
) -> Seq<ModelView> {
    match model_index(s, model) {
        None => s.push(model_add(model_zero(model), m, sid)),
        Some(i) => s.update(i, model_add(s[i], m, sid)),
    }
}

fn model_add_exec(d: ModelData, m: UsageMetrics, sid: &Option<String>) -> (r: ModelData)
    ensures
        r@ == model_add(d@, m, view_opt_str(*sid)),
{
    let ModelData {
        model,
        input_tokens,
        output_tokens,
        cached_tokens,
        total_tokens,
        cost_nano,
        mut sessions,
        messages,
        new_input_tokens,
        cache_creation_tokens,
        cache_read_tokens,
    } = d;
    sess_insert_exec(&mut sessions, sid);
    ModelData {
        model,
        input_tokens: sat_add(input_tokens, m.input_tokens),
        output_tokens: sat_add(output_tokens, m.output_tokens),
        cached_tokens: sat_add(cached_tokens, m.cached_tokens),
        total_tokens: sat_add(total_tokens, m.total_tokens),
        cost_nano: sat_add(cost_nano, m.cost_nano),
        sessions,
        messages: sat_add_usize(messages, 1),
        new_input_tokens: sat_add(new_input_tokens, m.new_input_tokens),
        cache_creation_tokens: sat_add(cache_creation_tokens, m.cache_creation_tokens),
        cache_read_tokens: sat_add(cache_read_tokens, m.cache_read_tokens),
    }
}

fn upsert_model(models: &mut Vec<ModelData>, model: String, m: UsageMetrics, sid: &Option<String>)
    ensures
        seq_view(final(models)@) == model_upsert(
            seq_view(old(models)@),
            model@,
            m,
            view_opt_str(*sid),
        ),
{
    let ghost s0 = seq_view(models@);
    let n = models.len();
    let mut j: usize = 0;
    while j < n
        invariant
            j <= n,
            n == models@.len(),
            models@ == old(models)@,
            s0 == seq_view(models@),
            forall|k: int| 0 <= k < j ==> s0[k].model != model@,
        decreases n - j,
    {
        if models[j].model == model {
            proof {
                assert(s0[j as int].model == model@);
                lemma_model_index_found(s0, model@, j as int);
            }
            let row = models.remove(j);
            let row2 = model_add_exec(row, m, sid);
            models.insert(j, row2);
            proof {
                assert(seq_view(models@) =~= s0.update(
                    j as int,
                    model_add(s0[j as int], m, view_opt_str(*sid)),
                ));
            }
            return ;
        }
        j = j + 1;
    }
    proof {
        lemma_model_index_none(s0, model@);
    }
    let mut sessions: Vec<String> = Vec::new();
    proof {
        assert(sessions.deep_view() =~= Seq::<Seq<char>>::empty());
    }
    sess_insert_exec(&mut sessions, sid);
    let row = ModelData {
        model,
        input_tokens: sat_add(0, m.input_tokens),
        output_tokens: sat_add(0, m.output_tokens),
        cached_tokens: sat_add(0, m.cached_tokens),
        total_tokens: sat_add(0, m.total_tokens),
        cost_nano: sat_add(0, m.cost_nano),
        sessions,
        messages: sat_add_usize(0, 1),
        new_input_tokens: sat_add(0, m.new_input_tokens),
        cache_creation_tokens: sat_add(0, m.cache_creation_tokens),
        cache_read_tokens: sat_add(0, m.cache_read_tokens),
    };
    models.push(row);
    proof {
        assert(seq_view(models@) =~= s0.push(model_add(model_zero(model@), m, view_opt_str(*sid))));
    }
}

/// The global accumulation state while log lines are folded in.
pub struct AggState {
    pub days: Seq<DayView>,
    pub months: Seq<MonthView>,
    pub models: Seq<ModelView>,
    pub detailed: Seq<DetailedView>,
}

pub open spec fn init_state() -> AggState {
    AggState {
        days: Seq::empty(),
        months: Seq::empty(),
        models: Seq::empty(),
        detailed: Seq::empty(),
    }
}

/// A fresh project accumulator.
pub open spec fn proj_init(name: Seq<char>, path: Seq<char>) -> ProjectView {
    ProjectView {
        name,
        path,
        total_tokens: 0,
        cost_nano: 0,
        message_count: 0,
        parsed_count: 0,
        last_activity: None,
        last_seen: None,
    }
}

/// The flat detailed-usage row of one event.
pub open spec fn detailed_of(
    ts: Seq<char>,
    sid: Seq<char>,
    model: Seq<char>,
    m: UsageMetrics,
) -> DetailedView {
    DetailedView {
        timestamp: ts,
        session_id: sid,
        model,
        input_tokens: m.input_tokens,
        output_tokens: m.output_tokens,
        cached_tokens: m.cached_tokens,
        total_tokens: m.total_tokens,
        cost_nano: m.cost_nano,
        new_input_tokens: m.new_input_tokens,
        cache_creation_tokens: m.cache_creation_tokens,
        cache_read_tokens: m.cache_read_tokens,
    }
}

pub open spec fn opt_upd_last(cur: Option<Seq<char>>, ts: Option<Seq<char>>) -> Option<Seq<char>> {
    match ts {
        None => cur,
        Some(t) => upd_last(cur, t),
    }
}

/// One log line folded into the global state and the current project
/// accumulator. A line that does not decode changes nothing. Every decoded
/// line counts toward the batch tallies (`parsed_count`, `last_seen`); a
/// line with both a payload and a timestamp counts toward the serving
/// tallies; one that also carries a usage record lands in the day, month
/// and model buckets, the project totals, and (when it names a session)
/// the detailed list.
pub open spec fn line_step(st: AggState, p: ProjectView, line: Seq<char>) -> (AggState, ProjectView) {
    match parsed_line(line) {
        None => (st, p),
        Some(msg) => {
            let p1 = ProjectView {
                parsed_count: sat_usize(p.parsed_count + 1),
                last_seen: opt_upd_last(p.last_seen, msg.timestamp),
                ..p
            };
            match (msg.message, msg.timestamp) {
                (Some(content), Some(ts)) => {
                    let p2 = ProjectView {
                        message_count: sat_usize(p1.message_count + 1),
                        last_activity: upd_last(p1.last_activity, ts),
                        ..p1
                    };
                    match content.usage {
                        None => (st, p2),
                        Some(u) => {
                            let m = metrics_of(u);
                            let model = match content.model {
                                None => "unknown"@,
                                Some(md) => md,
                            };
                            let p3 = ProjectView {
                                total_tokens: sat64(p2.total_tokens + m.total_tokens),
                                cost_nano: sat64(p2.cost_nano + m.cost_nano),
                                ..p2
                            };
                            let date = date_of(ts);
                            let days = day_upsert(st.days, date, m, msg.session_id);
                            let months = match month_of(date) {
                                None => st.months,
                                Some(mo) => month_upsert(st.months, mo, m, msg.session_id),
                            };
                            let models = model_upsert(st.models, model, m, msg.session_id);
                            let detailed = match msg.session_id {
                                None => st.detailed,
                                Some(sid) => st.detailed.push(detailed_of(ts, sid, model, m)),
                            };
                            (AggState { days, months, models, detailed }, p3)
                        },
                    }
                },
                _ => (st, p1),
            }
        },
    }
}

/// All lines of one project folded in, left to right.
pub open spec fn lines_fold(st: AggState, p: ProjectView, lines: Seq<Seq<char>>) -> (
    AggState,
    ProjectView,
)
    decreases lines.len(),
{
    if lines.len() == 0 {
        (st, p)
    } else {
        let prev = lines_fold(st, p, lines.drop_last());
        line_step(prev.0, prev.1, lines.last())
    }
}

/// All projects folded in, left to right; each contributes one finished
/// project accumulator.
pub open spec fn corpus_fold(
    st: AggState,
    ps: Seq<ProjectView>,
    corpus: Seq<ProjectSourceView>,
) -> (AggState, Seq<ProjectView>)
    decreases corpus.len(),
{
    if corpus.len() == 0 {
        (st, ps)
    } else {
        let prev = corpus_fold(st, ps, corpus.drop_last());
        let src = corpus.last();
        let done = lines_fold(prev.0, proj_init(src.name, src.path), src.lines);
        (done.0, prev.1.push(done.1))
    }
}

/// The buckets and project accumulators of a whole corpus.
pub open spec fn aggregate_corpus(corpus: Seq<ProjectSourceView>) -> (AggState, Seq<ProjectView>) {
    corpus_fold(init_state(), Seq::empty(), corpus)
}

/// One pass over every line of every project: the executable mirror of
/// [`aggregate_corpus`].
pub(crate) fn aggregate(corpus: &Vec<ProjectSource>) -> (r: (
    Vec<DayData>,
    Vec<MonthData>,
    Vec<ModelData>,
    Vec<ProjectInternal>,
    Vec<DetailedUsage>,
))
    ensures
        seq_view(r.0@) == aggregate_corpus(seq_view(corpus@)).0.days,
        seq_view(r.1@) == aggregate_corpus(seq_view(corpus@)).0.months,
        seq_view(r.2@) == aggregate_corpus(seq_view(corpus@)).0.models,
        seq_view(r.3@) == aggregate_corpus(seq_view(corpus@)).1,
        seq_view(r.4@) == aggregate_corpus(seq_view(corpus@)).0.detailed,
{
    let mut days: Vec<DayData> = Vec::new();
    let mut months: Vec<MonthData> = Vec::new();
    let mut models: Vec<ModelData> = Vec::new();
    let mut projects: Vec<ProjectInternal> = Vec::new();
    let mut detailed: Vec<DetailedUsage> = Vec::new();
    proof {
        assert(seq_view(corpus@).take(0) =~= Seq::<ProjectSourceView>::empty());
        assert(seq_view(days@) =~= Seq::<DayView>::empty());
        assert(seq_view(months@) =~= Seq::<MonthView>::empty());
        assert(seq_view(models@) =~= Seq::<ModelView>::empty());
        assert(seq_view(projects@) =~= Seq::<ProjectView>::empty());
        assert(seq_view(detailed@) =~= Seq::<DetailedView>::empty());
    }
    let n = corpus.len();
    let mut pi: usize = 0;
    while pi < n
        invariant
            pi <= n,
            n == corpus@.len(),
            seq_view(days@) == corpus_fold(
                init_state(),
                Seq::empty(),
                seq_view(corpus@).take(pi as int),
            ).0.days,
            seq_view(months@) == corpus_fold(
                init_state(),
                Seq::empty(),
                seq_view(corpus@).take(pi as int),
            ).0.months,
            seq_view(models@) == corpus_fold(
                init_state(),
                Seq::empty(),
                seq_view(corpus@).take(pi as int),
            ).0.models,
            seq_view(detailed@) == corpus_fold(
                init_state(),
                Seq::empty(),
                seq_view(corpus@).take(pi as int),
            ).0.detailed,
            seq_view(projects@) == corpus_fold(
                init_state(),
                Seq::empty(),
                seq_view(corpus@).take(pi as int),
            ).1,
        decreases n - pi,
    {
        let src = &corpus[pi];
        let ghost st0 = corpus_fold(init_state(), Seq::empty(), seq_view(corpus@).take(pi as int)).0;
        proof {
            assert(st0 == AggState {
                days: seq_view(days@),
                months: seq_view(months@),
                models: seq_view(models@),
                detailed: seq_view(detailed@),
            });
        }
        let mut cur = ProjectInternal {
            name: src.name.clone(),
            path: src.path.clone(),
            total_tokens: 0,
            cost_nano: 0,
            message_count: 0,
            parsed_count: 0,
            last_activity: None,
            last_seen: None,
        };
        proof {
            assert(cur@ == proj_init(src@.name, src@.path));
            assert(src@.lines.take(0) =~= Seq::<Seq<char>>::empty());
        }
        let ln = src.lines.len();
        let mut li: usize = 0;
        while li < ln
            invariant
                li <= ln,
                ln == src@.lines.len(),
                src == &corpus@[pi as int],
                0 <= pi < corpus@.len(),
                lines_fold(st0, proj_init(src@.name, src@.path), src@.lines.take(li as int)).0
                    == (AggState {
                    days: seq_view(days@),
                    months: seq_view(months@),
                    models: seq_view(models@),
                    detailed: seq_view(detailed@),
                }),
                lines_fold(st0, proj_init(src@.name, src@.path), src@.lines.take(li as int)).1
                    == cur@,
            decreases ln - li,
        {
            let ghost pre = lines_fold(
                st0,
                proj_init(src@.name, src@.path),
                src@.lines.take(li as int),
            );
            proof {
                assert(src@.lines.take(li as int + 1).drop_last() =~= src@.lines.take(li as int));
                assert(src@.lines.take(li as int + 1).last() == src@.lines[li as int]);
                assert(src@.lines[li as int] == src.lines@[li as int]@);
            }
            let line = &src.lines[li];
            match parse_line(line.as_str()) {
                None => {},
                Some(msg) => {
                    cur.parsed_count = sat_add_usize(cur.parsed_count, 1);
                    match &msg.timestamp {
                        Some(t) => upd_last_exec(&mut cur.last_seen, t),
                        None => {},
                    }
                    let Message { timestamp, session_id, message } = msg;
                    match (message, timestamp) {
                        (Some(content), Some(ts)) => {
                            cur.message_count = sat_add_usize(cur.message_count, 1);
                            upd_last_exec(&mut cur.last_activity, &ts);
                            match content.usage {
                                Some(u) => {
                                    let m = UsageMetrics::from_usage(&u);
                                    let model: String = match content.model {
                                        Some(md) => md,
                                        None => "unknown".to_owned(),
                                    };
                                    cur.total_tokens = sat_add(cur.total_tokens, m.total_tokens);
                                    cur.cost_nano = sat_add(cur.cost_nano, m.cost_nano);
                                    let date = date_of_timestamp(ts.as_str());
                                    let month_opt = month_of_date(date.as_str());
                                    upsert_day(&mut days, date, m, &session_id);
                                    match month_opt {
                                        Some(mo) => upsert_month(&mut months, mo, m, &session_id),
                                        None => {},
                                    }
                                    match &session_id {
                                        Some(sid) => {
                                            let ghost d0 = seq_view(detailed@);
                                            detailed.push(
                                                DetailedUsage {
                                                    timestamp: ts.clone(),
                                                    session_id: sid.clone(),
                                                    model: model.clone(),
                                                    input_tokens: m.input_tokens,
                                                    output_tokens: m.output_tokens,
                                                    cached_tokens: m.cached_tokens,
                                                    total_tokens: m.total_tokens,
                                                    cost_nano: m.cost_nano,
                                                    new_input_tokens: m.new_input_tokens,
                                                    cache_creation_tokens: m.cache_creation_tokens,
                                                    cache_read_tokens: m.cache_read_tokens,
                                                },
                                            );
                                            proof {
                                                assert(seq_view(detailed@) =~= d0.push(
                                                    detailed_of(ts@, sid@, model@, m),
                                                ));
                                            }
                                        },
                                        None => {},
                                    }
                                    upsert_model(&mut models, model, m, &session_id);
                                },
                                None => {},
                            }
                        },
                        _ => {},
                    }
                },
            }
            li = li + 1;
        }
        proof {
            assert(src@.lines.take(ln as int) =~= src@.lines);
            assert(seq_view(corpus@).take(pi as int + 1).drop_last() =~= seq_view(corpus@).take(
                pi as int,
            ));
            assert(seq_view(corpus@).take(pi as int + 1).last() == src@);
        }
        projects.push(cur);
        proof {
            assert(seq_view(projects@) =~= corpus_fold(
                init_state(),
                Seq::empty(),
                seq_view(corpus@).take(pi as int + 1),
            ).1);
        }
        pi = pi + 1;
    }
    proof {
        assert(seq_view(corpus@).take(n as int) =~= seq_view(corpus@));
    }
    (days, months, models, projects, detailed)
}

} // verus!
