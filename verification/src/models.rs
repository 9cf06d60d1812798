//! The data model: decoded log records, per-event derived metrics, the
//! accumulation buckets of the four dimensions, and the finished output rows.
//!
//! Every type that carries strings has a mathematical view struct over
//! `Seq<char>`; contracts are stated over those views.

use vstd::prelude::*;

use crate::numbers::cost_nano;
use crate::numbers::cost_nano_of;
use crate::numbers::sat64;
use crate::numbers::sat_add;

verus! {

/// One decoded log line: an optional timestamp, an optional session
/// identifier, and an optional message payload.
pub struct Message {
    pub timestamp: Option<String>,
    pub session_id: Option<String>,
    pub message: Option<MessageContent>,
}

/// The message payload of a log line: an optional model name and an
/// optional token-usage record.
pub struct MessageContent {
    pub model: Option<String>,
    pub usage: Option<Usage>,
}

/// Raw token counters of one event; absent counters default to 0.
#[derive(Clone, Copy)]
pub struct Usage {
    pub input_tokens: Option<u64>,
    pub output_tokens: Option<u64>,
    pub cache_creation_tokens: Option<u64>,
    pub cache_read_tokens: Option<u64>,
}

pub struct MessageContentView {
    pub model: Option<Seq<char>>,
    pub usage: Option<Usage>,
}

pub struct MessageView {
    pub timestamp: Option<Seq<char>>,
    pub session_id: Option<Seq<char>>,
    pub message: Option<MessageContentView>,
}

pub open spec fn view_opt_str(o: Option<String>) -> Option<Seq<char>> {
    match o {
        None => None,
        Some(s) => Some(s@),
    }
}

impl View for MessageContent {
    type V = MessageContentView;

    open spec fn view(&self) -> MessageContentView {
        MessageContentView { model: view_opt_str(self.model), usage: self.usage }
    }
}

impl View for Message {
    type V = MessageView;

    open spec fn view(&self) -> MessageView {
        MessageView {
            timestamp: view_opt_str(self.timestamp),
            session_id: view_opt_str(self.session_id),
            message: match self.message {
                None => None,
                Some(c) => Some(c@),
            },
        }
    }
}

/// An absent counter counts as 0.
pub open spec fn opt0(o: Option<u64>) -> u64 {
    match o {
        None => 0,
        Some(v) => v,
    }
}

/// Metrics derived from one usage record. Token sums saturate at
/// `u64::MAX`; the cost is held in integer nanodollars.
#[derive(Clone, Copy, PartialEq, Eq, Structural)]
pub struct UsageMetrics {
    pub input_tokens: u64,
    pub output_tokens: u64,
    pub cached_tokens: u64,
    pub total_tokens: u64,
    pub cost_nano: u64,
    pub new_input_tokens: u64,
    pub cache_creation_tokens: u64,
    pub cache_read_tokens: u64,
}

/// The derived metrics of one usage record:
/// `cached = cache_creation + cache_read`, `total = input + output + cached`,
/// `new_input = max(0, input - cache_creation)`, and the flat-rate cost.
pub open spec fn metrics_of(u: Usage) -> UsageMetrics {
    let input = opt0(u.input_tokens);
    let output = opt0(u.output_tokens);
    let cc = opt0(u.cache_creation_tokens);
    let cr = opt0(u.cache_read_tokens);
    UsageMetrics {
        input_tokens: input,
        output_tokens: output,
        cached_tokens: sat64(cc + cr),
        total_tokens: sat64(input + output + sat64(cc + cr)),
        cost_nano: cost_nano_of(input, output, cc, cr),
        new_input_tokens: if input >= cc {
            (input - cc) as u64
        } else {
            0
        },
        cache_creation_tokens: cc,
        cache_read_tokens: cr,
    }
}

impl UsageMetrics {
    /// Derives the metrics of one event. For every event the cached count
    /// is the sum of the two cache counters and the total is the sum of all
    /// four counters (exactly, whenever those sums fit in `u64`), and the
    /// new-input count is `input - cache_creation` floored at 0.
    pub fn from_usage(usage: &Usage) -> (m: UsageMetrics)
        ensures
            m == metrics_of(*usage),
            m.new_input_tokens == if opt0(usage.input_tokens) >= opt0(
                usage.cache_creation_tokens,
            ) {
                opt0(usage.input_tokens) - opt0(usage.cache_creation_tokens)
            } else {
                0
            },
            opt0(usage.cache_creation_tokens) + opt0(usage.cache_read_tokens) <= u64::MAX
                ==> m.cached_tokens == opt0(usage.cache_creation_tokens) + opt0(
                usage.cache_read_tokens,
            ),
            opt0(usage.input_tokens) + opt0(usage.output_tokens) + opt0(
                usage.cache_creation_tokens,
            ) + opt0(usage.cache_read_tokens) <= u64::MAX ==> m.total_tokens == opt0(
                usage.input_tokens,
            ) + opt0(usage.output_tokens) + opt0(usage.cache_creation_tokens) + opt0(
                usage.cache_read_tokens,
            ),
    {
        let input = match usage.input_tokens {
            Some(v) => v,
            None => 0,
        };
        let output = match usage.output_tokens {
            Some(v) => v,
            None => 0,
        };
        let cc = match usage.cache_creation_tokens {
            Some(v) => v,
            None => 0,
        };
        let cr = match usage.cache_read_tokens {
            Some(v) => v,
            None => 0,
        };
        let new_input = if input >= cc {
            input - cc
        } else {
            0
        };
        let cached = sat_add(cc, cr);
        let total = sat_add(sat_add(input, output), cached);
        UsageMetrics {
            input_tokens: input,
            output_tokens: output,
            cached_tokens: cached,
            total_tokens: total,
            cost_nano: cost_nano(input, output, cc, cr),
            new_input_tokens: new_input,
            cache_creation_tokens: cc,
            cache_read_tokens: cr,
        }
    }
}

/// Accumulator of one day bucket. The session list replaces a hash set:
/// it holds each distinct session identifier once, in first-seen order.
#[derive(Debug, PartialEq, Eq)]
pub struct DayData {
    pub date: String,
    pub input_tokens: u64,
    pub output_tokens: u64,
    pub cached_tokens: u64,
    pub total_tokens: u64,
    pub cost_nano: u64,
    pub sessions: Vec<String>,
    pub new_input_tokens: u64,
    pub cache_creation_tokens: u64,
    pub cache_read_tokens: u64,
}

pub struct DayView {
    pub date: Seq<char>,
    pub input_tokens: u64,
    pub output_tokens: u64,
    pub cached_tokens: u64,
    pub total_tokens: u64,
    pub cost_nano: u64,
    pub sessions: Seq<Seq<char>>,
    pub new_input_tokens: u64,
    pub cache_creation_tokens: u64,
    pub cache_read_tokens: u64,
}

impl View for DayData {
    type V = DayView;

    open spec fn view(&self) -> DayView {
        DayView {
            date: self.date@,
            input_tokens: self.input_tokens,
            output_tokens: self.output_tokens,
            cached_tokens: self.cached_tokens,
            total_tokens: self.total_tokens,
            cost_nano: self.cost_nano,
            sessions: self.sessions.deep_view(),
            new_input_tokens: self.new_input_tokens,
            cache_creation_tokens: self.cache_creation_tokens,
            cache_read_tokens: self.cache_read_tokens,
        }
    }
}

/// Accumulator of one month bucket.
#[derive(Debug, PartialEq, Eq)]
pub struct MonthData {
    pub month: String,
    pub input_tokens: u64,
    pub output_tokens: u64,
    pub cached_tokens: u64,
    pub total_tokens: u64,
    pub cost_nano: u64,
    pub sessions: Vec<String>,
    pub messages: usize,
    pub new_input_tokens: u64,
    pub cache_creation_tokens: u64,
    pub cache_read_tokens: u64,
}

pub struct MonthView {
    pub month: Seq<char>,
    pub input_tokens: u64,
    pub output_tokens: u64,
    pub cached_tokens: u64,
    pub total_tokens: u64,
    pub cost_nano: u64,
    pub sessions: Seq<Seq<char>>,
    pub messages: usize,
    pub new_input_tokens: u64,
    pub cache_creation_tokens: u64,
    pub cache_read_tokens: u64,
}

impl View for MonthData {
    type V = MonthView;

    open spec fn view(&self) -> MonthView {
        MonthView {
            month: self.month@,
            input_tokens: self.input_tokens,
            output_tokens: self.output_tokens,
            cached_tokens: self.cached_tokens,
            total_tokens: self.total_tokens,
            cost_nano: self.cost_nano,
            sessions: self.sessions.deep_view(),
            messages: self.messages,
            new_input_tokens: self.new_input_tokens,
            cache_creation_tokens: self.cache_creation_tokens,
            cache_read_tokens: self.cache_read_tokens,
        }
    }
}

/// Accumulator of one model bucket.
#[derive(Debug, PartialEq, Eq)]
pub struct ModelData {
    pub model: String,
    pub input_tokens: u64,
    pub output_tokens: u64,
    pub cached_tokens: u64,
    pub total_tokens: u64,
    pub cost_nano: u64,
    pub sessions: Vec<String>,
    pub messages: usize,
    pub new_input_tokens: u64,
    pub cache_creation_tokens: u64,
    pub cache_read_tokens: u64,
}

pub struct ModelView {
    pub model: Seq<char>,
    pub input_tokens: u64,
    pub output_tokens: u64,
    pub cached_tokens: u64,
    pub total_tokens: u64,
    pub cost_nano: u64,
    pub sessions: Seq<Seq<char>>,
    pub messages: usize,
    pub new_input_tokens: u64,
    pub cache_creation_tokens: u64,
    pub cache_read_tokens: u64,
}

impl View for ModelData {
    type V = ModelView;

    open spec fn view(&self) -> ModelView {
        ModelView {
            model: self.model@,
            input_tokens: self.input_tokens,
            output_tokens: self.output_tokens,
            cached_tokens: self.cached_tokens,
            total_tokens: self.total_tokens,
            cost_nano: self.cost_nano,
            sessions: self.sessions.deep_view(),
            messages: self.messages,
            new_input_tokens: self.new_input_tokens,
            cache_creation_tokens: self.cache_creation_tokens,
            cache_read_tokens: self.cache_read_tokens,
        }
    }
}

/// Running totals of one project while its log lines are folded in.
/// `message_count` and `last_activity` follow the serving variant (they
/// count lines that carry both a payload and a timestamp); `parsed_count`
/// and `last_seen` follow the batch variant (every parsed line, and every
/// timestamp seen). Both are kept because the two variants disagree and
/// the difference is preserved deliberately.
#[derive(Debug, PartialEq, Eq)]
pub struct ProjectInternal {
    pub name: String,
    pub path: String,
    pub total_tokens: u64,
    pub cost_nano: u64,
    pub message_count: usize,
    pub parsed_count: usize,
    pub last_activity: Option<String>,
    pub last_seen: Option<String>,
}

pub struct ProjectView {
    pub name: Seq<char>,
    pub path: Seq<char>,
    pub total_tokens: u64,
    pub cost_nano: u64,
    pub message_count: usize,
    pub parsed_count: usize,
    pub last_activity: Option<Seq<char>>,
    pub last_seen: Option<Seq<char>>,
}

impl View for ProjectInternal {
    type V = ProjectView;

    open spec fn view(&self) -> ProjectView {
        ProjectView {
            name: self.name@,
            path: self.path@,
            total_tokens: self.total_tokens,
            cost_nano: self.cost_nano,
            message_count: self.message_count,
            parsed_count: self.parsed_count,
            last_activity: view_opt_str(self.last_activity),
            last_seen: view_opt_str(self.last_seen),
        }
    }
}

/// One output row of the daily view.
#[derive(Debug, PartialEq, Eq)]
pub struct DailyUsage {
    pub date: String,
    pub input_tokens: u64,
    pub output_tokens: u64,
    pub cached_tokens: u64,
    pub total_tokens: u64,
    pub cost: String,
    pub sessions: usize,
    pub new_input_tokens: u64,
    pub cache_creation_tokens: u64,
    pub cache_read_tokens: u64,
}

pub struct DailyUsageView {
    pub date: Seq<char>,
    pub input_tokens: u64,
    pub output_tokens: u64,
    pub cached_tokens: u64,
    pub total_tokens: u64,
    pub cost: Seq<char>,
    pub sessions: usize,
    pub new_input_tokens: u64,
    pub cache_creation_tokens: u64,
    pub cache_read_tokens: u64,
}

impl View for DailyUsage {
    type V = DailyUsageView;

    open spec fn view(&self) -> DailyUsageView {
        DailyUsageView {
            date: self.date@,
            input_tokens: self.input_tokens,
            output_tokens: self.output_tokens,
            cached_tokens: self.cached_tokens,
            total_tokens: self.total_tokens,
            cost: self.cost@,
            sessions: self.sessions,
            new_input_tokens: self.new_input_tokens,
            cache_creation_tokens: self.cache_creation_tokens,
            cache_read_tokens: self.cache_read_tokens,
        }
    }
}

/// One output row of the monthly view.
#[derive(Debug, PartialEq, Eq)]
pub struct MonthlyUsage {
    pub month: String,
    pub input_tokens: u64,
    pub output_tokens: u64,
    pub cached_tokens: u64,
    pub total_tokens: u64,
    pub cost: String,
    pub sessions: usize,
    pub messages: usize,
    pub new_input_tokens: u64,
    pub cache_creation_tokens: u64,
    pub cache_read_tokens: u64,
}

pub struct MonthlyUsageView {
    pub month: Seq<char>,
    pub input_tokens: u64,
    pub output_tokens: u64,
    pub cached_tokens: u64,
    pub total_tokens: u64,
    pub cost: Seq<char>,
    pub sessions: usize,
    pub messages: usize,
    pub new_input_tokens: u64,
    pub cache_creation_tokens: u64,
    pub cache_read_tokens: u64,
}

impl View for MonthlyUsage {
    type V = MonthlyUsageView;

    open spec fn view(&self) -> MonthlyUsageView {
        MonthlyUsageView {
            month: self.month@,
            input_tokens: self.input_tokens,
            output_tokens: self.output_tokens,
            cached_tokens: self.cached_tokens,
            total_tokens: self.total_tokens,
            cost: self.cost@,
            sessions: self.sessions,
            messages: self.messages,
            new_input_tokens: self.new_input_tokens,
            cache_creation_tokens: self.cache_creation_tokens,
            cache_read_tokens: self.cache_read_tokens,
        }
    }
}

/// One output row of the models view.
#[derive(Debug, PartialEq, Eq)]
pub struct ModelUsage {
    pub model: String,
    pub input_tokens: u64,
    pub output_tokens: u64,
    pub cached_tokens: u64,
    pub total_tokens: u64,
    pub cost: String,
    pub sessions: usize,
    pub messages: usize,
    pub new_input_tokens: u64,
    pub cache_creation_tokens: u64,
    pub cache_read_tokens: u64,
}

pub struct ModelUsageView {
    pub model: Seq<char>,
    pub input_tokens: u64,
    pub output_tokens: u64,
    pub cached_tokens: u64,
    pub total_tokens: u64,
    pub cost: Seq<char>,
    pub sessions: usize,
    pub messages: usize,
    pub new_input_tokens: u64,
    pub cache_creation_tokens: u64,
    pub cache_read_tokens: u64,
}

impl View for ModelUsage {
    type V = ModelUsageView;

    open spec fn view(&self) -> ModelUsageView {
        ModelUsageView {
            model: self.model@,
            input_tokens: self.input_tokens,
            output_tokens: self.output_tokens,
            cached_tokens: self.cached_tokens,
            total_tokens: self.total_tokens,
            cost: self.cost@,
            sessions: self.sessions,
            messages: self.messages,
            new_input_tokens: self.new_input_tokens,
            cache_creation_tokens: self.cache_creation_tokens,
            cache_read_tokens: self.cache_read_tokens,
        }
    }
}

/// One output row of the projects view.
#[derive(Debug, PartialEq, Eq)]
pub struct ProjectData {
    pub name: String,
    pub total_tokens: u64,
    pub total_cost: String,
    pub message_count: usize,
    pub last_activity: Option<String>,
}

pub struct ProjectDataView {
    pub name: Seq<char>,
    pub total_tokens: u64,
    pub total_cost: Seq<char>,
    pub message_count: usize,
    pub last_activity: Option<Seq<char>>,
}

impl View for ProjectData {
    type V = ProjectDataView;

    open spec fn view(&self) -> ProjectDataView {
        ProjectDataView {
            name: self.name@,
            total_tokens: self.total_tokens,
            total_cost: self.total_cost@,
            message_count: self.message_count,
            last_activity: view_opt_str(self.last_activity),
        }
    }
}

/// The in-memory log corpus of one project: its directory name, its
/// directory path, and every line of its log files in file order.
pub struct ProjectSource {
    pub name: String,
    pub path: String,
    pub lines: Vec<String>,
}

pub struct ProjectSourceView {
    pub name: Seq<char>,
    pub path: Seq<char>,
    pub lines: Seq<Seq<char>>,
}

impl View for ProjectSource {
    type V = ProjectSourceView;

    open spec fn view(&self) -> ProjectSourceView {
        ProjectSourceView { name: self.name@, path: self.path@, lines: self.lines.deep_view() }
    }
}

/// Views of a vector of viewable rows.
pub open spec fn seq_view<T: View>(s: Seq<T>) -> Seq<T::V> {
    s.map(|i: int, x: T| x@)
}

/// One step of consuming a vector from the front: the element taken is the
/// one the view sequence holds at the cursor, and the remainder's views are
/// the views past it.
pub proof fn lemma_rows_step<T: View>(orig: Seq<T::V>, rest0: Seq<T>, rest1: Seq<T>, x: T, i: int)
    requires
        0 <= i,
        i + rest0.len() == orig.len(),
        rest0.len() > 0,
        seq_view(rest0) == orig.skip(i),
        x == rest0[0],
        rest1 == rest0.remove(0),
    ensures
        x@ == orig[i],
        seq_view(rest1) =~= orig.skip(i + 1),
{
    assert(seq_view(rest0)[0] == rest0[0]@);
    assert(orig.skip(i)[0] == orig[i]);
    assert forall|k: int| 0 <= k < rest1.len() implies seq_view(rest1)[k] == orig.skip(i + 1)[k] by {
        assert(rest1[k] == rest0[k + 1]);
        assert(seq_view(rest0)[k + 1] == rest0[k + 1]@);
        assert(orig.skip(i)[k + 1] == orig[i + 1 + k]);
    }
}

/// Inserting a row inserts its view.
pub proof fn lemma_seq_view_insert<T: View>(s0: Seq<T>, s1: Seq<T>, x: T, j: int)
    requires
        0 <= j <= s0.len(),
        s1 == s0.insert(j, x),
    ensures
        seq_view(s1) =~= seq_view(s0).take(j) + seq![x@] + seq_view(s0).skip(j),
{
    assert forall|k: int| 0 <= k < s1.len() implies seq_view(s1)[k] == (seq_view(s0).take(j)
        + seq![x@] + seq_view(s0).skip(j))[k] by {
        if k < j {
            assert(s1[k] == s0[k]);
            assert(seq_view(s0)[k] == s0[k]@);
        } else if k == j {
            assert(s1[k] == x);
        } else {
            assert(s1[k] == s0[k - 1]);
            assert(seq_view(s0)[k - 1] == s0[k - 1]@);
        }
    }
}

/// Pushing a row pushes its view.
pub proof fn lemma_seq_view_push<T: View>(s0: Seq<T>, s1: Seq<T>, x: T)
    requires
        s1 == s0.push(x),
    ensures
        seq_view(s1) =~= seq_view(s0).push(x@),
{
    assert forall|k: int| 0 <= k < s1.len() implies seq_view(s1)[k] == seq_view(s0).push(x@)[k] by {
        if k < s0.len() {
            assert(s1[k] == s0[k]);
            assert(seq_view(s0)[k] == s0[k]@);
        } else {
            assert(s1[k] == x);
        }
    }
}

/// One row of the batch report's flat event list: an event that carried a
/// payload, a timestamp, a usage record and a session identifier.
#[derive(Debug, PartialEq, Eq)]
pub struct DetailedUsage {
    pub timestamp: String,
    pub session_id: String,
    pub model: String,
    pub input_tokens: u64,
    pub output_tokens: u64,
    pub cached_tokens: u64,
    pub total_tokens: u64,
    pub cost_nano: u64,
    pub new_input_tokens: u64,
    pub cache_creation_tokens: u64,
    pub cache_read_tokens: u64,
}

pub struct DetailedView {
    pub timestamp: Seq<char>,
    pub session_id: Seq<char>,
    pub model: Seq<char>,
    pub input_tokens: u64,
    pub output_tokens: u64,
    pub cached_tokens: u64,
    pub total_tokens: u64,
    pub cost_nano: u64,
    pub new_input_tokens: u64,
    pub cache_creation_tokens: u64,
    pub cache_read_tokens: u64,
}

impl View for DetailedUsage {
    type V = DetailedView;

    open spec fn view(&self) -> DetailedView {
        DetailedView {
            timestamp: self.timestamp@,
            session_id: self.session_id@,
            model: self.model@,
            input_tokens: self.input_tokens,
            output_tokens: self.output_tokens,
            cached_tokens: self.cached_tokens,
            total_tokens: self.total_tokens,
            cost_nano: self.cost_nano,
            new_input_tokens: self.new_input_tokens,
            cache_creation_tokens: self.cache_creation_tokens,
            cache_read_tokens: self.cache_read_tokens,
        }
    }
}

/// One project row of the batch report; unlike [`ProjectData`] it carries
/// the directory path and uses the batch counting rules (every parsed line
/// counts, and any timestamp moves last-activity).
#[derive(Debug, PartialEq, Eq)]
pub struct Project {
    pub name: String,
    pub path: String,
    pub total_tokens: u64,
    pub total_cost: String,
    pub message_count: usize,
    pub last_activity: Option<String>,
}

pub struct BatchProjectView {
    pub name: Seq<char>,
    pub path: Seq<char>,
    pub total_tokens: u64,
    pub total_cost: Seq<char>,
    pub message_count: usize,
    pub last_activity: Option<Seq<char>>,
}

impl View for Project {
    type V = BatchProjectView;

    open spec fn view(&self) -> BatchProjectView {
        BatchProjectView {
            name: self.name@,
            path: self.path@,
            total_tokens: self.total_tokens,
            total_cost: self.total_cost@,
            message_count: self.message_count,
            last_activity: view_opt_str(self.last_activity),
        }
    }
}

/// Page metadata returned beside every paginated slice.
#[derive(Debug, PartialEq, Eq, Structural)]
pub struct Pagination {
    pub current_page: usize,
    pub total_pages: usize,
    pub total_items: usize,
    pub items_per_page: usize,
    pub has_next: bool,
    pub has_prev: bool,
}

} // verus!
