//! The batch report: all four views, a flat chronologically ordered list of
//! every detailed event, and the global distinct-session count, produced in
//! one pass for an embedding program to write out whole.
//!
//! Project rows here follow the batch counting rules: every parsed line
//! counts toward the message count, and any timestamp seen moves the last
//! activity, whether or not the line carried a payload.

use vstd::prelude::*;

use crate::aggregate::aggregate;
use crate::aggregate::sess_insert;
use crate::aggregate::sess_insert_exec;
use crate::models::DailyUsage;
use crate::models::DailyUsageView;
use crate::models::DetailedUsage;
use crate::models::DetailedView;
use crate::models::ModelUsage;
use crate::models::ModelUsageView;
use crate::models::MonthlyUsage;
use crate::models::MonthlyUsageView;
use crate::models::Project;
use crate::models::BatchProjectView;
use crate::models::ProjectInternal;
use crate::models::ProjectSource;
use crate::models::ProjectSourceView;
use crate::models::ProjectView;
use crate::models::lemma_rows_step;
use crate::models::lemma_seq_view_insert;
use crate::models::lemma_seq_view_push;
use crate::models::seq_view;
use crate::numbers::fmt_cost4;
use crate::numbers::format_cost4;
use crate::sorting::insert_leq;
use crate::sorting::lemma_insert_leq_split;
use crate::sorting::sort_by_leq;
use crate::text::lex_le;
use crate::text::str_lex_le;
use crate::views::ModelSortKey;
use crate::views::spec_all_project_data;

verus! {

/// The batch row of one project accumulator: batch counting rules, and the
/// directory path carried along.
pub open spec fn batch_project_row_of(p: ProjectView) -> BatchProjectView {
    BatchProjectView {
        name: p.name,
        path: p.path,
        total_tokens: p.total_tokens,
        total_cost: fmt_cost4(p.cost_nano),
        message_count: p.parsed_count,
        last_activity: p.last_seen,
    }
}

pub open spec fn batch_project_rows_of(s: Seq<ProjectView>) -> Seq<BatchProjectView> {
    s.map(|i: int, p: ProjectView| batch_project_row_of(p))
}

fn batch_project_to_row(p: ProjectInternal) -> (r: Project)
    ensures
        r@ == batch_project_row_of(p@),
{
    let ProjectInternal {
        name,
        path,
        total_tokens,
        cost_nano,
        message_count: _,
        parsed_count,
        last_activity: _,
        last_seen,
    } = p;
    Project {
        name,
        path,
        total_tokens,
        total_cost: format_cost4(cost_nano),
        message_count: parsed_count,
        last_activity: last_seen,
    }
}

fn batch_projects_to_rows(projects: Vec<ProjectInternal>) -> (r: Vec<Project>)
    ensures
        seq_view(r@) == batch_project_rows_of(seq_view(projects@)),
{
    let ghost orig = seq_view(projects@);
    let mut rest = projects;
    let mut out: Vec<Project> = Vec::new();
    proof {
        assert(seq_view(rest@) =~= orig.skip(0));
        assert(seq_view(out@) =~= batch_project_rows_of(orig.take(0)));
    }
    while rest.len() > 0
        invariant
            rest@.len() <= orig.len(),
            seq_view(rest@) == orig.skip(orig.len() - rest@.len()),
            seq_view(out@) == batch_project_rows_of(orig.take(orig.len() - rest@.len())),
        decreases rest@.len(),
    {
        let ghost i = orig.len() - rest@.len();
        let ghost rest0 = rest@;
        let d = rest.remove(0);
        proof {
            lemma_rows_step(orig, rest0, rest@, d, i);
        }
        let row = batch_project_to_row(d);
        let ghost out0 = out@;
        out.push(row);
        proof {
            lemma_seq_view_push(out0, out@, row);
            assert(batch_project_rows_of(orig.take(i + 1)) =~= batch_project_rows_of(
                orig.take(i),
            ).push(batch_project_row_of(orig[i])));
        }
    }
    proof {
        assert(orig.take(orig.len() as int) =~= orig);
    }
    out
}

/// Options order with absence first, presence by the string inside: the
/// order of optional timestamps.
pub open spec fn opt_lex_le(a: Option<Seq<char>>, b: Option<Seq<char>>) -> bool {
    match (a, b) {
        (None, _) => true,
        (Some(_), None) => false,
        (Some(x), Some(y)) => lex_le(x, y),
    }
}

/// Batch project rows order descending by last activity, absent last.
pub open spec fn batch_projects_leq() -> spec_fn(BatchProjectView, BatchProjectView) -> bool {
    |a: BatchProjectView, b: BatchProjectView| opt_lex_le(b.last_activity, a.last_activity)
}

fn le_batch_projects(a: &Project, b: &Project) -> (r: bool)
    ensures
        r == (batch_projects_leq())(a@, b@),
{
    match (&b.last_activity, &a.last_activity) {
        (None, _) => true,
        (Some(_), None) => false,
        (Some(x), Some(y)) => str_lex_le(x.as_str(), y.as_str()),
    }
}

fn insert_batch_project(out: &mut Vec<Project>, x: Project)
    ensures
        seq_view(final(out)@) == insert_leq(x@, seq_view(old(out)@), batch_projects_leq()),
{
    let n = out.len();
    let mut j: usize = 0;
    while j < n
        invariant
            j <= n,
            n == out@.len(),
            out@ == old(out)@,
            forall|k: int| 0 <= k < j ==> (batch_projects_leq())(seq_view(out@)[k], x@),
        decreases n - j,
    {
        proof {
            assert(seq_view(out@)[j as int] == out@[j as int]@);
        }
        if !le_batch_projects(&out[j], &x) {
            proof {
                lemma_insert_leq_split(x@, seq_view(out@), batch_projects_leq(), j as int);
            }
            let ghost o0 = out@;
            out.insert(j, x);
            proof {
                lemma_seq_view_insert(o0, out@, x, j as int);
            }
            return ;
        }
        j = j + 1;
    }
    proof {
        lemma_insert_leq_split(x@, seq_view(out@), batch_projects_leq(), j as int);
    }
    let ghost o0 = out@;
    out.insert(j, x);
    proof {
        lemma_seq_view_insert(o0, out@, x, j as int);
    }
}

fn sort_batch_projects(rows: Vec<Project>) -> (r: Vec<Project>)
    ensures
        seq_view(r@) == sort_by_leq(seq_view(rows@), batch_projects_leq()),
{
    let ghost orig = seq_view(rows@);
    let mut rest = rows;
    let mut out: Vec<Project> = Vec::new();
    proof {
        assert(seq_view(rest@) =~= orig.skip(0));
        assert(orig.take(0) =~= Seq::<BatchProjectView>::empty());
        assert(seq_view(out@) =~= sort_by_leq(orig.take(0), batch_projects_leq()));
    }
    while rest.len() > 0
        invariant
            rest@.len() <= orig.len(),
            seq_view(rest@) == orig.skip(orig.len() - rest@.len()),
            seq_view(out@) == sort_by_leq(orig.take(orig.len() - rest@.len()), batch_projects_leq()),
        decreases rest@.len(),
    {
        let ghost i = orig.len() - rest@.len();
        let ghost rest0 = rest@;
        let x = rest.remove(0);
        proof {
            lemma_rows_step(orig, rest0, rest@, x, i);
            assert(orig.take(i + 1).drop_last() =~= orig.take(i));
            assert(orig.take(i + 1).last() == orig[i]);
        }
        insert_batch_project(&mut out, x);
    }
    proof {
        assert(orig.take(orig.len() as int) =~= orig);
    }
    out
}

/// Detailed rows order ascending by timestamp.
pub open spec fn detailed_leq() -> spec_fn(DetailedView, DetailedView) -> bool {
    |a: DetailedView, b: DetailedView| lex_le(a.timestamp, b.timestamp)
}

fn le_detailed(a: &DetailedUsage, b: &DetailedUsage) -> (r: bool)
    ensures
        r == (detailed_leq())(a@, b@),
{
    str_lex_le(a.timestamp.as_str(), b.timestamp.as_str())
}

fn insert_detailed(out: &mut Vec<DetailedUsage>, x: DetailedUsage)
    ensures
        seq_view(final(out)@) == insert_leq(x@, seq_view(old(out)@), detailed_leq()),
{
    let n = out.len();
    let mut j: usize = 0;
    while j < n
        invariant
            j <= n,
            n == out@.len(),
            out@ == old(out)@,
            forall|k: int| 0 <= k < j ==> (detailed_leq())(seq_view(out@)[k], x@),
        decreases n - j,
    {
        proof {
            assert(seq_view(out@)[j as int] == out@[j as int]@);
        }
        if !le_detailed(&out[j], &x) {
            proof {
                lemma_insert_leq_split(x@, seq_view(out@), detailed_leq(), j as int);
            }
            let ghost o0 = out@;
            out.insert(j, x);
            proof {
                lemma_seq_view_insert(o0, out@, x, j as int);
            }
            return ;
        }
        j = j + 1;
    }
    proof {
        lemma_insert_leq_split(x@, seq_view(out@), detailed_leq(), j as int);
    }
    let ghost o0 = out@;
    out.insert(j, x);
    proof {
        lemma_seq_view_insert(o0, out@, x, j as int);
    }
}

fn sort_detailed(rows: Vec<DetailedUsage>) -> (r: Vec<DetailedUsage>)
    ensures
        seq_view(r@) == sort_by_leq(seq_view(rows@), detailed_leq()),
{
    let ghost orig = seq_view(rows@);
    let mut rest = rows;
    let mut out: Vec<DetailedUsage> = Vec::new();
    proof {
        assert(seq_view(rest@) =~= orig.skip(0));
        assert(orig.take(0) =~= Seq::<DetailedView>::empty());
        assert(seq_view(out@) =~= sort_by_leq(orig.take(0), detailed_leq()));
    }
    while rest.len() > 0
        invariant
            rest@.len() <= orig.len(),
            seq_view(rest@) == orig.skip(orig.len() - rest@.len()),
            seq_view(out@) == sort_by_leq(orig.take(orig.len() - rest@.len()), detailed_leq()),
        decreases rest@.len(),
    {
        let ghost i = orig.len() - rest@.len();
        let ghost rest0 = rest@;
        let x = rest.remove(0);
        proof {
            lemma_rows_step(orig, rest0, rest@, x, i);
            assert(orig.take(i + 1).drop_last() =~= orig.take(i));
            assert(orig.take(i + 1).last() == orig[i]);
        }
        insert_detailed(&mut out, x);
    }
    proof {
        assert(orig.take(orig.len() as int) =~= orig);
    }
    out
}

/// The distinct session identifiers of the detailed rows, in first-seen
/// order.
pub open spec fn sessions_of_detailed(s: Seq<DetailedView>) -> Seq<Seq<char>>
    decreases s.len(),
{
    if s.len() == 0 {
        Seq::empty()
    } else {
        sess_insert(sessions_of_detailed(s.drop_last()), Some(s.last().session_id))
    }
}

fn count_sessions(rows: &Vec<DetailedUsage>) -> (r: usize)
    ensures
        r == sessions_of_detailed(seq_view(rows@)).len(),
{
    let n = rows.len();
    let mut acc: Vec<String> = Vec::new();
    let mut i: usize = 0;
    proof {
        assert(acc.deep_view() =~= Seq::<Seq<char>>::empty());
        assert(seq_view(rows@).take(0) =~= Seq::<DetailedView>::empty());
    }
    while i < n
        invariant
            i <= n,
            n == rows@.len(),
            acc.deep_view() == sessions_of_detailed(seq_view(rows@).take(i as int)),
        decreases n - i,
    {
        proof {
            assert(seq_view(rows@)[i as int] == rows@[i as int]@);
            assert(seq_view(rows@).take(i + 1).drop_last() =~= seq_view(rows@).take(i as int));
            assert(seq_view(rows@).take(i + 1).last() == seq_view(rows@)[i as int]);
        }
        let sid: Option<String> = Some(rows[i].session_id.clone());
        sess_insert_exec(&mut acc, &sid);
        i = i + 1;
    }
    proof {
        assert(seq_view(rows@).take(n as int) =~= seq_view(rows@));
    }
    acc.len()
}

/// The whole batch report.
pub struct ProcessedData {
    pub daily_usage: Vec<DailyUsage>,
    pub monthly_usage: Vec<MonthlyUsage>,
    pub model_usage: Vec<ModelUsage>,
    pub projects: Vec<Project>,
    pub detailed_usage: Vec<DetailedUsage>,
    pub total_sessions: usize,
}

pub struct ProcessedDataView {
    pub daily_usage: Seq<DailyUsageView>,
    pub monthly_usage: Seq<MonthlyUsageView>,
    pub model_usage: Seq<ModelUsageView>,
    pub projects: Seq<BatchProjectView>,
    pub detailed_usage: Seq<DetailedView>,
    pub total_sessions: usize,
}

impl View for ProcessedData {
    type V = ProcessedDataView;

    open spec fn view(&self) -> ProcessedDataView {
        ProcessedDataView {
            daily_usage: seq_view(self.daily_usage@),
            monthly_usage: seq_view(self.monthly_usage@),
            model_usage: seq_view(self.model_usage@),
            projects: seq_view(self.projects@),
            detailed_usage: seq_view(self.detailed_usage@),
            total_sessions: self.total_sessions,
        }
    }
}

/// The batch report of a corpus: the three shared views, the batch project
/// rows descending by last activity, the detailed events ascending by
/// timestamp, and the count of distinct sessions among them.
pub open spec fn spec_processed_data(corpus: Seq<ProjectSourceView>) -> ProcessedDataView {
    let all = spec_all_project_data(corpus);
    let agg = crate::aggregate::aggregate_corpus(corpus);
    let detailed_sorted = sort_by_leq(agg.0.detailed, detailed_leq());
    ProcessedDataView {
        daily_usage: all.daily_usage,
        monthly_usage: all.monthly_usage,
        model_usage: all.model_usage,
        projects: sort_by_leq(batch_project_rows_of(agg.1), batch_projects_leq()),
        detailed_usage: detailed_sorted,
        total_sessions: sessions_of_detailed(detailed_sorted).len() as usize,
    }
}

/// Builds the whole batch report fresh from the corpus.
pub fn process_project_data(corpus: &Vec<ProjectSource>) -> (r: ProcessedData)
    ensures
        r@ == spec_processed_data(seq_view(corpus@)),
{
    let (days, months, models, projects, detailed) = aggregate(corpus);
    let daily_usage = crate::views::sort_daily(crate::views::days_to_rows(days));
    let monthly_usage = crate::views::sort_monthly(crate::views::months_to_rows(months));
    let model_usage = crate::views::sort_models(
        crate::views::models_to_rows(models),
        ModelSortKey::TotalTokens,
        false,
    );
    let batch_rows = batch_projects_to_rows(projects);
    let projects_sorted = sort_batch_projects(batch_rows);
    let detailed_sorted = sort_detailed(detailed);
    let total_sessions = count_sessions(&detailed_sorted);
    ProcessedData {
        daily_usage,
        monthly_usage,
        model_usage,
        projects: projects_sorted,
        detailed_usage: detailed_sorted,
        total_sessions,
    }
}

} // verus!
