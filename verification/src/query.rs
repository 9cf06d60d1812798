//! The query layer: caller-supplied filter, sort and pagination parameters
//! applied to one finished view, plus the aggregate summary statistics over
//! the filtered, unpaginated row set.

use vstd::prelude::*;

use crate::models::ModelUsage;
use crate::models::ModelUsageView;
use crate::models::MonthlyUsage;
use crate::models::MonthlyUsageView;
use crate::models::Pagination;
use crate::models::ProjectData;
use crate::models::ProjectDataView;
use crate::models::lemma_rows_step;
use crate::models::lemma_seq_view_push;
use crate::models::seq_view;
use crate::models::view_opt_str;
use crate::numbers::fmt_cost2;
use crate::numbers::format_cost2;
use crate::numbers::parse_cost;
use crate::numbers::parse_cost_spec;
use crate::numbers::sat64;
use crate::numbers::sat_usize;
use crate::numbers::sat_add;
use crate::numbers::sat_add_usize;
use crate::text::contains_seq;
use crate::text::is_prefix;
use crate::text::lower_of;
use crate::text::lowercase;
use crate::text::str_contains;
use crate::text::str_starts_with;
use crate::views::ModelSortKey;
use crate::views::ProjectSortKey;
use crate::sorting::sort_by_leq;
use crate::views::models_leq;
use crate::views::projects_leq;
use crate::views::sort_models;
use crate::views::sort_projects;

verus! {

/// Pages are 1-based; a page below 1 reads as 1.
pub open spec fn clamp_page(page: usize) -> usize {
    if page < 1 {
        1
    } else {
        page
    }
}

/// Ceiling division: how many pages the items fill.
pub open spec fn total_pages_of(total: int, ipp: int) -> int {
    total / ipp + if total % ipp != 0 {
        1int
    } else {
        0int
    }
}

/// The page metadata of a query over `total` items.
pub open spec fn spec_pagination(total: int, page: usize, ipp: usize) -> Pagination {
    let cp = clamp_page(page);
    let tp = total_pages_of(total, ipp as int);
    Pagination {
        current_page: cp,
        total_pages: tp as usize,
        total_items: total as usize,
        items_per_page: ipp,
        has_next: (cp as int) < tp,
        has_prev: cp > 1,
    }
}

/// The half-open index range `[(page-1)*size, min((page-1)*size+size, total))`
/// of the returned slice; a start at or past the end yields the empty range.
pub open spec fn slice_start(total: int, page: usize, ipp: int) -> int {
    (clamp_page(page) - 1) * ipp
}

pub open spec fn slice_end(total: int, page: usize, ipp: int) -> int {
    let start = slice_start(total, page, ipp);
    if start + ipp > total {
        total
    } else {
        start + ipp
    }
}

/// The paginated slice of a view: rows `[(page-1)*size, min(...+size, total))`,
/// or nothing when the page starts past the end.
pub open spec fn spec_slice<T>(rows: Seq<T>, page: usize, ipp: int) -> Seq<T> {
    let start = slice_start(rows.len() as int, page, ipp);
    if start >= rows.len() {
        Seq::empty()
    } else {
        rows.subrange(start, slice_end(rows.len() as int, page, ipp))
    }
}

/// Taking views commutes with slicing a page.
pub proof fn lemma_seq_view_slice<T: View>(s: Seq<T>, page: usize, ipp: int)
    requires
        ipp >= 1,
    ensures
        seq_view(spec_slice(s, page, ipp)) =~= spec_slice(seq_view(s), page, ipp),
{
    let t = s.len() as int;
    let start = slice_start(t, page, ipp);
    if start >= t {
        assert(seq_view(spec_slice(s, page, ipp)) =~= Seq::<T::V>::empty());
    } else {
        let end = slice_end(t, page, ipp);
        assert forall|k: int| 0 <= k < end - start implies seq_view(s.subrange(start, end))[k]
            == seq_view(s).subrange(start, end)[k] by {
            assert(s.subrange(start, end)[k] == s[start + k]);
            assert(seq_view(s)[start + k] == s[start + k]@);
        }
    }
}

/// Slices one page out of the rows and describes the whole set.
/// An empty view yields no pages and no rows; a page past the last yields
/// no rows but accurate totals, with `has_next` false.
pub fn paginate<T>(rows: Vec<T>, page: usize, limit: usize) -> (r: (Vec<T>, Pagination))
    requires
        limit >= 1,
    ensures
        r.1 == spec_pagination(rows@.len() as int, page, limit),
        r.0@ == spec_slice(rows@, page, limit as int),
        rows@.len() == 0 ==> r.1.total_pages == 0 && r.0@.len() == 0 && !r.1.has_next && (page <= 1
            ==> !r.1.has_prev),
        (r.1.current_page as int) > (r.1.total_pages as int) ==> r.0@.len() == 0,
{
    let total = rows.len();
    let cp = if page < 1 {
        1
    } else {
        page
    };
    proof {
        vstd::arithmetic::div_mod::lemma_fundamental_div_mod(total as int, limit as int);
        if total % limit != 0 {
            assert(limit >= 2);
            vstd::arithmetic::div_mod::lemma_div_is_ordered_by_denominator(
                total as int,
                2,
                limit as int,
            );
            assert(total as int / 2 < total as int || total == 0);
        }
    }
    let tp = total / limit + if total % limit != 0 {
        1
    } else {
        0
    };
    proof {
        assert((cp as int - 1) * (limit as int) <= (usize::MAX as int) * (usize::MAX as int))
            by (nonlinear_arith)
            requires
                1 <= cp as int <= usize::MAX as int,
                0 <= limit as int <= usize::MAX as int,
        ;
        assert((usize::MAX as int) * (usize::MAX as int)
            < 0x100000000000000000000000000000000) by (nonlinear_arith)
            requires
                usize::MAX as int <= 0xffffffffffffffff,
        ;
    }
    let start128: u128 = (cp as u128 - 1) * (limit as u128);
    let pagination = Pagination {
        current_page: cp,
        total_pages: tp,
        total_items: total,
        items_per_page: limit,
        has_next: cp < tp,
        has_prev: cp > 1,
    };
    proof {
        assert(start128 == (cp as int - 1) * (limit as int)) by (nonlinear_arith)
            requires
                start128 == (cp as u128 - 1) * (limit as u128),
                cp >= 1,
        ;
        if (cp as int) > (tp as int) {
            assert((cp as int - 1) * (limit as int) >= (tp as int) * (limit as int))
                by (nonlinear_arith)
                requires
                    cp as int - 1 >= tp as int,
                    limit as int >= 1,
            ;
            vstd::arithmetic::div_mod::lemma_fundamental_div_mod(total as int, limit as int);
            assert((tp as int) * (limit as int) >= total as int) by (nonlinear_arith)
                requires
                    total as int == (limit as int) * (total as int / limit as int) + (total as int
                        % limit as int),
                    0 <= (total as int % limit as int),
                    (total as int % limit as int) < (limit as int),
                    tp as int == total as int / limit as int + (
                    if total as int % limit as int != 0 {
                        1int
                    } else {
                        0int
                    }),
            ;
        }
    }
    if start128 >= total as u128 {
        let data: Vec<T> = Vec::new();
        proof {
            assert(data@ =~= spec_slice(rows@, page, limit as int));
        }
        (data, pagination)
    } else {
        let start = start128 as usize;
        let end = if limit > total - start {
            total
        } else {
            start + limit
        };
        let mut v = rows;
        v.truncate(end);
        let data = v.split_off(start);
        proof {
            assert(data@ =~= spec_slice(rows@, page, limit as int));
        }
        (data, pagination)
    }
}

/// Whether a monthly row passes the year-prefix filter.
pub open spec fn month_keep(year: Option<Seq<char>>, m: MonthlyUsageView) -> bool {
    match year {
        None => true,
        Some(y) => is_prefix(y, m.month),
    }
}

/// Monthly rows whose month starts with the requested year, in order.
pub open spec fn filter_months(rows: Seq<MonthlyUsageView>, year: Option<Seq<char>>) -> Seq<
    MonthlyUsageView,
>
    decreases rows.len(),
{
    if rows.len() == 0 {
        Seq::empty()
    } else {
        let rest = filter_months(rows.drop_last(), year);
        if month_keep(year, rows.last()) {
            rest.push(rows.last())
        } else {
            rest
        }
    }
}

fn filter_months_exec(rows: Vec<MonthlyUsage>, year: &Option<String>) -> (r: Vec<MonthlyUsage>)
    ensures
        seq_view(r@) == filter_months(seq_view(rows@), view_opt_str(*year)),
{
    let ghost orig = seq_view(rows@);
    let ghost yv = view_opt_str(*year);
    let mut rest = rows;
    let mut out: Vec<MonthlyUsage> = Vec::new();
    proof {
        assert(seq_view(rest@) =~= orig.skip(0));
        assert(orig.take(0) =~= Seq::<MonthlyUsageView>::empty());
        assert(seq_view(out@) =~= filter_months(orig.take(0), yv));
    }
    while rest.len() > 0
        invariant
            rest@.len() <= orig.len(),
            yv == view_opt_str(*year),
            seq_view(rest@) == orig.skip(orig.len() - rest@.len()),
            seq_view(out@) == filter_months(orig.take(orig.len() - rest@.len()), yv),
        decreases rest@.len(),
    {
        let ghost i = orig.len() - rest@.len();
        let ghost rest0 = rest@;
        let x = rest.remove(0);
        proof {
            lemma_rows_step(orig, rest0, rest@, x, i);
            assert(orig.take(i + 1).drop_last() =~= orig.take(i));
            assert(orig.take(i + 1).last() == orig[i]);
        }
        let keep = match year {
            None => true,
            Some(y) => str_starts_with(x.month.as_str(), y.as_str()),
        };
        if keep {
            let ghost out0 = out@;
            out.push(x);
            proof {
                lemma_seq_view_push(out0, out@, x);
            }
        }
    }
    proof {
        assert(orig.take(orig.len() as int) =~= orig);
    }
    out
}

/// Whether a project row passes the minimum-cost filter (its cost string is
/// re-parsed; a string that fails to parse counts as 0).
pub open spec fn project_cost_keep(mc: Option<u64>, p: ProjectDataView) -> bool {
    match mc {
        None => true,
        Some(m) => parse_cost_spec(p.total_cost) >= m,
    }
}

/// Whether a project row passes the case-insensitive name-substring filter.
pub open spec fn project_search_keep(search: Option<Seq<char>>, p: ProjectDataView) -> bool {
    match search {
        None => true,
        Some(s) => contains_seq(lower_of(p.name), lower_of(s)),
    }
}

pub open spec fn filter_projects_cost(rows: Seq<ProjectDataView>, mc: Option<u64>) -> Seq<
    ProjectDataView,
>
    decreases rows.len(),
{
    if rows.len() == 0 {
        Seq::empty()
    } else {
        let rest = filter_projects_cost(rows.drop_last(), mc);
        if project_cost_keep(mc, rows.last()) {
            rest.push(rows.last())
        } else {
            rest
        }
    }
}

pub open spec fn filter_projects_search(rows: Seq<ProjectDataView>, search: Option<Seq<char>>) -> Seq<
    ProjectDataView,
>
    decreases rows.len(),
{
    if rows.len() == 0 {
        Seq::empty()
    } else {
        let rest = filter_projects_search(rows.drop_last(), search);
        if project_search_keep(search, rows.last()) {
            rest.push(rows.last())
        } else {
            rest
        }
    }
}

fn filter_projects_cost_exec(rows: Vec<ProjectData>, mc: &Option<u64>) -> (r: Vec<ProjectData>)
    ensures
        seq_view(r@) == filter_projects_cost(seq_view(rows@), *mc),
{
    let ghost orig = seq_view(rows@);
    let mut rest = rows;
    let mut out: Vec<ProjectData> = Vec::new();
    proof {
        assert(seq_view(rest@) =~= orig.skip(0));
        assert(orig.take(0) =~= Seq::<ProjectDataView>::empty());
        assert(seq_view(out@) =~= filter_projects_cost(orig.take(0), *mc));
    }
    while rest.len() > 0
        invariant
            rest@.len() <= orig.len(),
            seq_view(rest@) == orig.skip(orig.len() - rest@.len()),
            seq_view(out@) == filter_projects_cost(orig.take(orig.len() - rest@.len()), *mc),
        decreases rest@.len(),
    {
        let ghost i = orig.len() - rest@.len();
        let ghost rest0 = rest@;
        let x = rest.remove(0);
        proof {
            lemma_rows_step(orig, rest0, rest@, x, i);
            assert(orig.take(i + 1).drop_last() =~= orig.take(i));
            assert(orig.take(i + 1).last() == orig[i]);
        }
        let keep = match mc {
            None => true,
            Some(m) => parse_cost(x.total_cost.as_str()) >= *m,
        };
        if keep {
            let ghost out0 = out@;
            out.push(x);
            proof {
                lemma_seq_view_push(out0, out@, x);
            }
        }
    }
    proof {
        assert(orig.take(orig.len() as int) =~= orig);
    }
    out
}

fn filter_projects_search_exec(rows: Vec<ProjectData>, search: &Option<String>) -> (r: Vec<
    ProjectData,
>)
    ensures
        seq_view(r@) == filter_projects_search(seq_view(rows@), view_opt_str(*search)),
{
    let ghost orig = seq_view(rows@);
    let ghost sv = view_opt_str(*search);
    let mut rest = rows;
    let mut out: Vec<ProjectData> = Vec::new();
    proof {
        assert(seq_view(rest@) =~= orig.skip(0));
        assert(orig.take(0) =~= Seq::<ProjectDataView>::empty());
        assert(seq_view(out@) =~= filter_projects_search(orig.take(0), sv));
    }
    while rest.len() > 0
        invariant
            rest@.len() <= orig.len(),
            sv == view_opt_str(*search),
            seq_view(rest@) == orig.skip(orig.len() - rest@.len()),
            seq_view(out@) == filter_projects_search(orig.take(orig.len() - rest@.len()), sv),
        decreases rest@.len(),
    {
        let ghost i = orig.len() - rest@.len();
        let ghost rest0 = rest@;
        let x = rest.remove(0);
        proof {
            lemma_rows_step(orig, rest0, rest@, x, i);
            assert(orig.take(i + 1).drop_last() =~= orig.take(i));
            assert(orig.take(i + 1).last() == orig[i]);
        }
        let keep = match search {
            None => true,
            Some(s) => {
                let ln = lowercase(x.name.as_str());
                let ls = lowercase(s.as_str());
                str_contains(ln.as_str(), ls.as_str())
            },
        };
        if keep {
            let ghost out0 = out@;
            out.push(x);
            proof {
                lemma_seq_view_push(out0, out@, x);
            }
        }
    }
    proof {
        assert(orig.take(orig.len() as int) =~= orig);
    }
    out
}

/// Saturating sum of the parsed cost strings of project rows.
pub open spec fn projects_cost_sum(s: Seq<ProjectDataView>) -> u64
    decreases s.len(),
{
    if s.len() == 0 {
        0
    } else {
        sat64(projects_cost_sum(s.drop_last()) + parse_cost_spec(s.last().total_cost))
    }
}

pub open spec fn projects_tokens_sum(s: Seq<ProjectDataView>) -> u64
    decreases s.len(),
{
    if s.len() == 0 {
        0
    } else {
        sat64(projects_tokens_sum(s.drop_last()) + s.last().total_tokens)
    }
}

pub open spec fn projects_msgs_sum(s: Seq<ProjectDataView>) -> usize
    decreases s.len(),
{
    if s.len() == 0 {
        0
    } else {
        sat_usize(projects_msgs_sum(s.drop_last()) + s.last().message_count)
    }
}

/// Summary statistics over the filtered, unpaginated projects view.
pub struct ProjectsStats {
    pub total_projects: usize,
    pub total_cost: String,
    pub total_tokens: u64,
    pub total_messages: usize,
}

pub struct ProjectsStatsView {
    pub total_projects: usize,
    pub total_cost: Seq<char>,
    pub total_tokens: u64,
    pub total_messages: usize,
}

impl View for ProjectsStats {
    type V = ProjectsStatsView;

    open spec fn view(&self) -> ProjectsStatsView {
        ProjectsStatsView {
            total_projects: self.total_projects,
            total_cost: self.total_cost@,
            total_tokens: self.total_tokens,
            total_messages: self.total_messages,
        }
    }
}

/// The project statistics of a row set: its size and its cost, token and
/// message sums, the cost rendered with two decimal places.
pub open spec fn spec_projects_stats(rows: Seq<ProjectDataView>) -> ProjectsStatsView {
    ProjectsStatsView {
        total_projects: rows.len() as usize,
        total_cost: fmt_cost2(projects_cost_sum(rows)),
        total_tokens: projects_tokens_sum(rows),
        total_messages: projects_msgs_sum(rows),
    }
}

fn projects_stats_exec(rows: &Vec<ProjectData>) -> (r: ProjectsStats)
    ensures
        r@ == spec_projects_stats(seq_view(rows@)),
{
    let n = rows.len();
    let mut cost: u64 = 0;
    let mut tokens: u64 = 0;
    let mut msgs: usize = 0;
    let mut i: usize = 0;
    proof {
        assert(seq_view(rows@).take(0) =~= Seq::<ProjectDataView>::empty());
    }
    while i < n
        invariant
            i <= n,
            n == rows@.len(),
            cost == projects_cost_sum(seq_view(rows@).take(i as int)),
            tokens == projects_tokens_sum(seq_view(rows@).take(i as int)),
            msgs == projects_msgs_sum(seq_view(rows@).take(i as int)),
        decreases n - i,
    {
        proof {
            assert(seq_view(rows@)[i as int] == rows@[i as int]@);
            assert(seq_view(rows@).take(i + 1).drop_last() =~= seq_view(rows@).take(i as int));
            assert(seq_view(rows@).take(i + 1).last() == seq_view(rows@)[i as int]);
        }
        let c = parse_cost(rows[i].total_cost.as_str());
        cost = sat_add(cost, c);
        tokens = sat_add(tokens, rows[i].total_tokens);
        msgs = sat_add_usize(msgs, rows[i].message_count);
        i = i + 1;
    }
    proof {
        assert(seq_view(rows@).take(n as int) =~= seq_view(rows@));
    }
    ProjectsStats {
        total_projects: n,
        total_cost: format_cost2(cost),
        total_tokens: tokens,
        total_messages: msgs,
    }
}

pub open spec fn models_tokens_sum(s: Seq<ModelUsageView>) -> u64
    decreases s.len(),
{
    if s.len() == 0 {
        0
    } else {
        sat64(models_tokens_sum(s.drop_last()) + s.last().total_tokens)
    }
}

pub open spec fn models_cost_sum(s: Seq<ModelUsageView>) -> u64
    decreases s.len(),
{
    if s.len() == 0 {
        0
    } else {
        sat64(models_cost_sum(s.drop_last()) + parse_cost_spec(s.last().cost))
    }
}

pub open spec fn models_msgs_sum(s: Seq<ModelUsageView>) -> usize
    decreases s.len(),
{
    if s.len() == 0 {
        0
    } else {
        sat_usize(models_msgs_sum(s.drop_last()) + s.last().messages)
    }
}

pub open spec fn models_sessions_sum(s: Seq<ModelUsageView>) -> usize
    decreases s.len(),
{
    if s.len() == 0 {
        0
    } else {
        sat_usize(models_sessions_sum(s.drop_last()) + s.last().sessions)
    }
}

/// Summary statistics of the models view; the most-used model is the first
/// row of the view's default order (descending total tokens), independent
/// of any caller-supplied sort.
pub struct ModelsStats {
    pub total_models: usize,
    pub total_tokens: u64,
    pub total_cost: String,
    pub total_messages: usize,
    pub total_sessions: usize,
    pub most_used_model: Option<String>,
}

pub struct ModelsStatsView {
    pub total_models: usize,
    pub total_tokens: u64,
    pub total_cost: Seq<char>,
    pub total_messages: usize,
    pub total_sessions: usize,
    pub most_used_model: Option<Seq<char>>,
}

impl View for ModelsStats {
    type V = ModelsStatsView;

    open spec fn view(&self) -> ModelsStatsView {
        ModelsStatsView {
            total_models: self.total_models,
            total_tokens: self.total_tokens,
            total_cost: self.total_cost@,
            total_messages: self.total_messages,
            total_sessions: self.total_sessions,
            most_used_model: view_opt_str(self.most_used_model),
        }
    }
}

pub open spec fn spec_models_stats(rows: Seq<ModelUsageView>, most: Option<Seq<char>>) -> ModelsStatsView {
    ModelsStatsView {
        total_models: rows.len() as usize,
        total_tokens: models_tokens_sum(rows),
        total_cost: fmt_cost2(models_cost_sum(rows)),
        total_messages: models_msgs_sum(rows),
        total_sessions: models_sessions_sum(rows),
        most_used_model: most,
    }
}

fn models_stats_exec(rows: &Vec<ModelUsage>, most_used: Option<String>) -> (r: ModelsStats)
    ensures
        r@ == spec_models_stats(seq_view(rows@), view_opt_str(most_used)),
{
    let n = rows.len();
    let mut tokens: u64 = 0;
    let mut cost: u64 = 0;
    let mut msgs: usize = 0;
    let mut sess: usize = 0;
    let mut i: usize = 0;
    proof {
        assert(seq_view(rows@).take(0) =~= Seq::<ModelUsageView>::empty());
    }
    while i < n
        invariant
            i <= n,
            n == rows@.len(),
            tokens == models_tokens_sum(seq_view(rows@).take(i as int)),
            cost == models_cost_sum(seq_view(rows@).take(i as int)),
            msgs == models_msgs_sum(seq_view(rows@).take(i as int)),
            sess == models_sessions_sum(seq_view(rows@).take(i as int)),
        decreases n - i,
    {
        proof {
            assert(seq_view(rows@)[i as int] == rows@[i as int]@);
            assert(seq_view(rows@).take(i + 1).drop_last() =~= seq_view(rows@).take(i as int));
            assert(seq_view(rows@).take(i + 1).last() == seq_view(rows@)[i as int]);
        }
        let c = parse_cost(rows[i].cost.as_str());
        tokens = sat_add(tokens, rows[i].total_tokens);
        cost = sat_add(cost, c);
        msgs = sat_add_usize(msgs, rows[i].messages);
        sess = sat_add_usize(sess, rows[i].sessions);
        i = i + 1;
    }
    proof {
        assert(seq_view(rows@).take(n as int) =~= seq_view(rows@));
    }
    ModelsStats {
        total_models: n,
        total_tokens: tokens,
        total_cost: format_cost2(cost),
        total_messages: msgs,
        total_sessions: sess,
        most_used_model: most_used,
    }
}

/// The model sort key a caller names, if recognized.
pub open spec fn model_key_of(s: Seq<char>) -> Option<ModelSortKey> {
    if s == "totalTokens"@ {
        Some(ModelSortKey::TotalTokens)
    } else if s == "cost"@ {
        Some(ModelSortKey::Cost)
    } else if s == "messages"@ {
        Some(ModelSortKey::Messages)
    } else if s == "sessions"@ {
        Some(ModelSortKey::Sessions)
    } else if s == "model"@ {
        Some(ModelSortKey::Model)
    } else {
        None
    }
}

fn parse_model_key(s: &String) -> (r: Option<ModelSortKey>)
    ensures
        r == model_key_of(s@),
{
    if *s == "totalTokens".to_owned() {
        Some(ModelSortKey::TotalTokens)
    } else if *s == "cost".to_owned() {
        Some(ModelSortKey::Cost)
    } else if *s == "messages".to_owned() {
        Some(ModelSortKey::Messages)
    } else if *s == "sessions".to_owned() {
        Some(ModelSortKey::Sessions)
    } else if *s == "model".to_owned() {
        Some(ModelSortKey::Model)
    } else {
        None
    }
}

/// The project sort key a caller names, if recognized.
pub open spec fn project_key_of(s: Seq<char>) -> Option<ProjectSortKey> {
    if s == "lastActivity"@ {
        Some(ProjectSortKey::LastActivity)
    } else if s == "totalCost"@ {
        Some(ProjectSortKey::TotalCost)
    } else if s == "totalTokens"@ {
        Some(ProjectSortKey::TotalTokens)
    } else if s == "messageCount"@ {
        Some(ProjectSortKey::MessageCount)
    } else if s == "name"@ {
        Some(ProjectSortKey::Name)
    } else {
        None
    }
}

fn parse_project_key(s: &String) -> (r: Option<ProjectSortKey>)
    ensures
        r == project_key_of(s@),
{
    if *s == "lastActivity".to_owned() {
        Some(ProjectSortKey::LastActivity)
    } else if *s == "totalCost".to_owned() {
        Some(ProjectSortKey::TotalCost)
    } else if *s == "totalTokens".to_owned() {
        Some(ProjectSortKey::TotalTokens)
    } else if *s == "messageCount".to_owned() {
        Some(ProjectSortKey::MessageCount)
    } else if *s == "name".to_owned() {
        Some(ProjectSortKey::Name)
    } else {
        None
    }
}

/// A sort runs ascending exactly when the caller says `"asc"`.
pub open spec fn ord_asc(s: Seq<char>) -> bool {
    s == "asc"@
}

fn parse_asc(s: &String) -> (r: bool)
    ensures
        r == ord_asc(s@),
{
    *s == "asc".to_owned()
}

/// The models view under a caller sort: the named key ascending or
/// descending, or the rows unchanged when the key is not recognized.
pub open spec fn models_sorted_by(rows: Seq<ModelUsageView>, key: Seq<char>, asc: bool) -> Seq<
    ModelUsageView,
> {
    match model_key_of(key) {
        None => rows,
        Some(k) => sort_by_leq(rows, models_leq(k, asc)),
    }
}

/// Sorts model rows by a caller-named key; an unrecognized key leaves the
/// rows in the order they came.
pub fn sort_models_by(rows: Vec<ModelUsage>, sort_by: &String, sort_order: &String) -> (r: Vec<
    ModelUsage,
>)
    ensures
        seq_view(r@) == models_sorted_by(seq_view(rows@), sort_by@, ord_asc(sort_order@)),
        model_key_of(sort_by@) is None ==> seq_view(r@) == seq_view(rows@),
{
    let asc = parse_asc(sort_order);
    match parse_model_key(sort_by) {
        None => rows,
        Some(k) => sort_models(rows, k, asc),
    }
}

pub open spec fn projects_sorted_by(rows: Seq<ProjectDataView>, key: Seq<char>, asc: bool) -> Seq<
    ProjectDataView,
> {
    match project_key_of(key) {
        None => rows,
        Some(k) => sort_by_leq(rows, projects_leq(k, asc)),
    }
}

/// Sorts project rows by a caller-named key; an unrecognized key leaves the
/// rows in the order they came.
pub fn sort_projects_by(rows: Vec<ProjectData>, sort_by: &String, sort_order: &String) -> (r: Vec<
    ProjectData,
>)
    ensures
        seq_view(r@) == projects_sorted_by(seq_view(rows@), sort_by@, ord_asc(sort_order@)),
        project_key_of(sort_by@) is None ==> seq_view(r@) == seq_view(rows@),
{
    let asc = parse_asc(sort_order);
    match parse_project_key(sort_by) {
        None => rows,
        Some(k) => sort_projects(rows, k, asc),
    }
}

/// Query parameters of the daily view: a 1-based page and a page size.
pub struct DailyParams {
    pub page: usize,
    pub limit: usize,
}

impl Default for DailyParams {
    /// Page 1, 50 rows per page.
    fn default() -> (d: Self)
        ensures
            d.page == 1,
            d.limit == 50,
    {
        DailyParams { page: 1, limit: 50 }
    }
}

/// Query parameters of the monthly view: page, page size, and an optional
/// year prefix to filter by.
pub struct MonthlyParams {
    pub page: usize,
    pub limit: usize,
    pub year: Option<String>,
}

impl Default for MonthlyParams {
    /// Page 1, 12 rows per page, no year filter.
    fn default() -> (d: Self)
        ensures
            d.page == 1,
            d.limit == 12,
            d.year is None,
    {
        MonthlyParams { page: 1, limit: 12, year: None }
    }
}

/// Query parameters of the models view: a sort key and a direction.
pub struct ModelsParams {
    pub sort_by: String,
    pub sort_order: String,
}

impl Default for ModelsParams {
    /// Total tokens, descending.
    fn default() -> (d: Self)
        ensures
            d.sort_by@ == "totalTokens"@,
            d.sort_order@ == "desc"@,
    {
        ModelsParams { sort_by: "totalTokens".to_owned(), sort_order: "desc".to_owned() }
    }
}

/// Query parameters of the projects view: page, page size, sort key and
/// direction, an optional minimum cost in nanodollars, and an optional
/// case-insensitive name-substring search.
pub struct ProjectsParams {
    pub page: usize,
    pub limit: usize,
    pub sort_by: String,
    pub sort_order: String,
    pub min_cost: Option<u64>,
    pub search: Option<String>,
}

impl Default for ProjectsParams {
    /// Page 1, 20 rows per page, last activity descending, no filters.
    fn default() -> (d: Self)
        ensures
            d.page == 1,
            d.limit == 20,
            d.sort_by@ == "lastActivity"@,
            d.sort_order@ == "desc"@,
            d.min_cost is None,
            d.search is None,
    {
        ProjectsParams {
            page: 1,
            limit: 20,
            sort_by: "lastActivity".to_owned(),
            sort_order: "desc".to_owned(),
            min_cost: None,
            search: None,
        }
    }
}

/// A page size clamped into `[1, hi]`.
pub open spec fn clamp_limit(limit: usize, hi: usize) -> usize {
    if limit < 1 {
        1
    } else if limit > hi {
        hi
    } else {
        limit
    }
}

/// The daily view's response: one page of rows and the page metadata.
pub struct DailyResponse {
    pub data: Vec<crate::models::DailyUsage>,
    pub pagination: Pagination,
}

pub struct DailyResponseView {
    pub data: Seq<crate::models::DailyUsageView>,
    pub pagination: Pagination,
}

impl View for DailyResponse {
    type V = DailyResponseView;

    open spec fn view(&self) -> DailyResponseView {
        DailyResponseView { data: seq_view(self.data@), pagination: self.pagination }
    }
}

/// What the daily endpoint answers: the requested page of the date-ascending
/// daily view, unclamped page size.
pub open spec fn spec_get_daily(
    corpus: Seq<crate::models::ProjectSourceView>,
    page: usize,
    limit: usize,
) -> DailyResponseView {
    let rows = crate::views::spec_all_project_data(corpus).daily_usage;
    DailyResponseView {
        data: spec_slice(rows, page, limit as int),
        pagination: spec_pagination(rows.len() as int, page, limit),
    }
}

/// Serves the daily view: a fresh aggregation of the corpus, paginated.
/// The page size is taken as given, with no clamp beyond its default, and
/// must be positive; the embedding layer rejects a zero limit.
pub fn get_daily(corpus: &Vec<crate::models::ProjectSource>, params: &DailyParams) -> (r:
    DailyResponse)
    requires
        params.limit >= 1,
    ensures
        r@ == spec_get_daily(seq_view(corpus@), params.page, params.limit),
{
    let rows = crate::views::process_daily_usage(corpus);
    let ghost rv = rows@;
    let (data, pagination) = paginate(rows, params.page, params.limit);
    proof {
        lemma_seq_view_slice(rv, params.page, params.limit as int);
    }
    DailyResponse { data, pagination }
}

/// The monthly view's response.
pub struct MonthlyResponse {
    pub data: Vec<MonthlyUsage>,
    pub pagination: Pagination,
}

pub struct MonthlyResponseView {
    pub data: Seq<MonthlyUsageView>,
    pub pagination: Pagination,
}

impl View for MonthlyResponse {
    type V = MonthlyResponseView;

    open spec fn view(&self) -> MonthlyResponseView {
        MonthlyResponseView { data: seq_view(self.data@), pagination: self.pagination }
    }
}

/// What the monthly endpoint answers: the month-ascending monthly view,
/// filtered to the requested year prefix, page size clamped into `[1, 120]`.
pub open spec fn spec_get_monthly(
    corpus: Seq<crate::models::ProjectSourceView>,
    page: usize,
    limit: usize,
    year: Option<Seq<char>>,
) -> MonthlyResponseView {
    let rows = filter_months(crate::views::spec_all_project_data(corpus).monthly_usage, year);
    let ipp = clamp_limit(limit, 120);
    MonthlyResponseView {
        data: spec_slice(rows, page, ipp as int),
        pagination: spec_pagination(rows.len() as int, page, ipp),
    }
}

/// Serves the monthly view: aggregation, year filter, pagination.
pub fn get_monthly(corpus: &Vec<crate::models::ProjectSource>, params: &MonthlyParams) -> (r:
    MonthlyResponse)
    ensures
        r@ == spec_get_monthly(
            seq_view(corpus@),
            params.page,
            params.limit,
            view_opt_str(params.year),
        ),
{
    let rows = crate::views::process_monthly_usage(corpus);
    let filtered = filter_months_exec(rows, &params.year);
    let ipp = if params.limit < 1 {
        1
    } else if params.limit > 120 {
        120
    } else {
        params.limit
    };
    let ghost rv = filtered@;
    let (data, pagination) = paginate(filtered, params.page, ipp);
    proof {
        lemma_seq_view_slice(rv, params.page, ipp as int);
    }
    MonthlyResponse { data, pagination }
}

/// The models view's response: the full sorted list with its statistics;
/// this view is not paginated.
pub struct ModelsResponse {
    pub data: Vec<ModelUsage>,
    pub stats: ModelsStats,
}

pub struct ModelsResponseView {
    pub data: Seq<ModelUsageView>,
    pub stats: ModelsStatsView,
}

impl View for ModelsResponse {
    type V = ModelsResponseView;

    open spec fn view(&self) -> ModelsResponseView {
        ModelsResponseView { data: seq_view(self.data@), stats: self.stats@ }
    }
}

/// What the models endpoint answers: the models view under the caller sort,
/// with statistics over the whole list; the most-used model is the first
/// row of the default order, whatever sort the caller asked for.
pub open spec fn spec_get_models(
    corpus: Seq<crate::models::ProjectSourceView>,
    sort_by: Seq<char>,
    sort_order: Seq<char>,
) -> ModelsResponseView {
    let rows = crate::views::spec_all_project_data(corpus).model_usage;
    let sorted = models_sorted_by(rows, sort_by, ord_asc(sort_order));
    let most = if rows.len() == 0 {
        None
    } else {
        Some(rows[0].model)
    };
    ModelsResponseView { data: sorted, stats: spec_models_stats(sorted, most) }
}

/// Serves the models view: aggregation, caller sort, statistics.
pub fn get_models(corpus: &Vec<crate::models::ProjectSource>, params: &ModelsParams) -> (r:
    ModelsResponse)
    ensures
        r@ == spec_get_models(seq_view(corpus@), params.sort_by@, params.sort_order@),
{
    let rows = crate::views::process_model_usage(corpus);
    let most_used: Option<String> = if rows.len() > 0 {
        proof {
            assert(seq_view(rows@)[0] == rows@[0]@);
        }
        Some(rows[0].model.clone())
    } else {
        None
    };
    let sorted = sort_models_by(rows, &params.sort_by, &params.sort_order);
    let stats = models_stats_exec(&sorted, most_used);
    ModelsResponse { data: sorted, stats }
}

/// The projects view's response.
pub struct ProjectsResponse {
    pub data: Vec<ProjectData>,
    pub pagination: Pagination,
    pub stats: ProjectsStats,
}

pub struct ProjectsResponseView {
    pub data: Seq<ProjectDataView>,
    pub pagination: Pagination,
    pub stats: ProjectsStatsView,
}

impl View for ProjectsResponse {
    type V = ProjectsResponseView;

    open spec fn view(&self) -> ProjectsResponseView {
        ProjectsResponseView {
            data: seq_view(self.data@),
            pagination: self.pagination,
            stats: self.stats@,
        }
    }
}

/// What the projects endpoint answers: the projects view filtered by
/// minimum cost and name search, under the caller sort, with statistics
/// over the filtered set and a page clamped into `[1, 200]`.
pub open spec fn spec_get_projects(
    corpus: Seq<crate::models::ProjectSourceView>,
    page: usize,
    limit: usize,
    sort_by: Seq<char>,
    sort_order: Seq<char>,
    min_cost: Option<u64>,
    search: Option<Seq<char>>,
) -> ProjectsResponseView {
    let rows = crate::views::spec_all_project_data(corpus).projects;
    let by_cost = filter_projects_cost(rows, min_cost);
    let by_search = filter_projects_search(by_cost, search);
    let sorted = projects_sorted_by(by_search, sort_by, ord_asc(sort_order));
    let ipp = clamp_limit(limit, 200);
    ProjectsResponseView {
        data: spec_slice(sorted, page, ipp as int),
        pagination: spec_pagination(sorted.len() as int, page, ipp),
        stats: spec_projects_stats(sorted),
    }
}

/// Serves the projects view: aggregation, filters, caller sort, statistics,
/// pagination.
pub fn get_projects(corpus: &Vec<crate::models::ProjectSource>, params: &ProjectsParams) -> (r:
    ProjectsResponse)
    ensures
        r@ == spec_get_projects(
            seq_view(corpus@),
            params.page,
            params.limit,
            params.sort_by@,
            params.sort_order@,
            params.min_cost,
            view_opt_str(params.search),
        ),
{
    let rows = crate::views::process_projects(corpus);
    let by_cost = filter_projects_cost_exec(rows, &params.min_cost);
    let by_search = filter_projects_search_exec(by_cost, &params.search);
    let sorted = sort_projects_by(by_search, &params.sort_by, &params.sort_order);
    let stats = projects_stats_exec(&sorted);
    let ipp = if params.limit < 1 {
        1
    } else if params.limit > 200 {
        200
    } else {
        params.limit
    };
    let ghost rv = sorted@;
    let (data, pagination) = paginate(sorted, params.page, ipp);
    proof {
        lemma_seq_view_slice(rv, params.page, ipp as int);
    }
    ProjectsResponse { data, pagination, stats }
}

} // verus!
