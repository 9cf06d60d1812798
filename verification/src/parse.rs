//! Decoding of one raw log line into a [`Message`], through serde_json.
//!
//! A line that is not a JSON object (including an empty or whitespace-only
//! line) decodes to `None` and contributes nothing to any report. The
//! decoded shape of a given line is a fixed function of its characters,
//! named by [`parsed_line`].

use vstd::prelude::*;
use vstd::string::*;

use crate::models::Message;
use crate::models::MessageContent;
use crate::models::MessageView;
use crate::models::Usage;

use serde_json::Value;

verus! {

/// What decoding a log line yields: `None` for lines that are not JSON
/// objects, otherwise the record with its optional `timestamp`,
/// `sessionId`, `message.model` and `message.usage` fields.
pub uninterp spec fn parsed_line(s: Seq<char>) -> Option<MessageView>;

pub open spec fn view_opt_message(r: Option<Message>) -> Option<MessageView> {
    match r {
        None => None,
        Some(m) => Some(m@),
    }
}

/// Relies on serde_json::from_str to decode one line as a JSON value (a
/// line that is no JSON document gives an error, mapped to `None`), on
/// serde_json::Value::is_object to drop lines that are not objects, and on
/// serde_json::Value::{get, as_str, as_u64} to read the documented fields
/// out of it. The result depends on the characters of the line alone.
#[verifier::external_body]
pub(crate) fn parse_line(line: &str) -> (r: Option<Message>)
    ensures
        view_opt_message(r) == parsed_line(line@),
{
    let v: Value = serde_json::from_str(line).ok()?;
    if !v.is_object() { return None; }
    Some(Message {
        timestamp: v.get("timestamp").and_then(Value::as_str).map(String::from),
        session_id: v.get("sessionId").and_then(Value::as_str).map(String::from),
        message: v.get("message").map(|c| MessageContent {
            model: c.get("model").and_then(Value::as_str).map(String::from),
            usage: c.get("usage").map(|u| Usage {
                input_tokens: u.get("input_tokens").and_then(Value::as_u64),
                output_tokens: u.get("output_tokens").and_then(Value::as_u64),
                cache_creation_tokens: u.get("cache_creation_input_tokens").and_then(Value::as_u64),
                cache_read_tokens: u.get("cache_read_input_tokens").and_then(Value::as_u64),
            }),
        }),
    })
}

/// A line of nothing but JSON whitespace (space, tab, carriage return,
/// newline); such lines are skipped rather than counted as parse failures.
pub open spec fn is_blank(s: Seq<char>) -> bool {
    forall|i: int|
        0 <= i < s.len() ==> (#[trigger] s[i] == ' ' || s[i] == '\t' || s[i] == '\r' || s[i]
            == '\n')
}

fn line_is_blank(s: &str) -> (r: bool)
    ensures
        r == is_blank(s@),
{
    let n = s.unicode_len();
    let mut i: usize = 0;
    while i < n
        invariant
            i <= n,
            n == s@.len(),
            forall|k: int|
                0 <= k < i ==> (#[trigger] s@[k] == ' ' || s@[k] == '\t' || s@[k] == '\r' || s@[k]
                    == '\n'),
        decreases n - i,
    {
        let c = s.get_char(i);
        if !(c == ' ' || c == '\t' || c == '\r' || c == '\n') {
            return false;
        }
        i = i + 1;
    }
    true
}

/// How many of the lines are not blank and decode.
pub open spec fn parsed_ok_count(lines: Seq<Seq<char>>) -> int
    decreases lines.len(),
{
    if lines.len() == 0 {
        0
    } else {
        parsed_ok_count(lines.drop_last()) + if !is_blank(lines.last()) && parsed_line(
            lines.last(),
        ) is Some {
            1int
        } else {
            0int
        }
    }
}

/// How many of the lines are neither blank nor decodable.
pub open spec fn parsed_failed_count(lines: Seq<Seq<char>>) -> int
    decreases lines.len(),
{
    if lines.len() == 0 {
        0
    } else {
        parsed_failed_count(lines.drop_last()) + if parsed_line(lines.last()) is None && !is_blank(
            lines.last(),
        ) {
            1int
        } else {
            0int
        }
    }
}

/// Counts how many lines decode and how many fail (blank lines are skipped
/// and counted in neither tally).
pub fn count_parsed_lines(lines: &Vec<String>) -> (r: (usize, usize))
    ensures
        r.0 == parsed_ok_count(lines.deep_view()),
        r.1 == parsed_failed_count(lines.deep_view()),
{
    let n = lines.len();
    let mut ok: usize = 0;
    let mut failed: usize = 0;
    let mut i: usize = 0;
    proof {
        assert(lines.deep_view().take(0) =~= Seq::<Seq<char>>::empty());
    }
    while i < n
        invariant
            i <= n,
            n == lines@.len(),
            ok <= i,
            failed <= i,
            ok == parsed_ok_count(lines.deep_view().take(i as int)),
            failed == parsed_failed_count(lines.deep_view().take(i as int)),
        decreases n - i,
    {
        proof {
            assert(lines.deep_view()[i as int] == lines@[i as int]@);
            assert(lines.deep_view().take(i + 1).drop_last() =~= lines.deep_view().take(i as int));
            assert(lines.deep_view().take(i + 1).last() == lines.deep_view()[i as int]);
        }
        let line = &lines[i];
        if line_is_blank(line.as_str()) {
        } else {
            match parse_line(line.as_str()) {
                Some(m) => {
                    ok = ok + 1;
                },
                None => {
                    failed = failed + 1;
                },
            }
        }
        i = i + 1;
    }
    proof {
        assert(lines.deep_view().take(n as int) =~= lines.deep_view());
    }
    (ok, failed)
}

} // verus!
