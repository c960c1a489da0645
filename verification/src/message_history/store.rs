//! What the store of the history accepts.

use crate::message_history::args::MAX_ACTIVITY_RANKING_LIMIT;
use crate::message_history::deletion::DeleteMode;
use crate::numbers::{decimal, decimal_text};
use crate::text::res_text;
use vstd::prelude::*;
use vstd::string::*;

verus! {

/// How many requests wait at the store unless told.
pub const DEFAULT_QUEUE_CAPACITY: usize = 128;

/// How many requests wait at the store at most.
pub const MAX_QUEUE_CAPACITY: usize = 4096;

/// How many requests may wait at the store.
pub fn with_queue_capacity(asked: usize) -> (r: usize)
    ensures
        r == (if asked < 1 {
            1
        } else if asked > MAX_QUEUE_CAPACITY {
            MAX_QUEUE_CAPACITY
        } else {
            asked
        }),
{
    if asked < 1 {
        1
    } else if asked > MAX_QUEUE_CAPACITY {
        MAX_QUEUE_CAPACITY
    } else {
        asked
    }
}

/// Whether a batch of messages is written: an empty one is not, and one over the
/// limit is refused.
pub fn record_messages(count: usize, max: usize) -> (r: Result<bool, String>)
    ensures
        res_text(r) == (if count == 0 {
            Ok(false)
        } else if count > max {
            Err(
                "history record batch exceeds the limit of "@ + decimal(max as nat) + " messages"@,
            )
        } else {
            Ok(true)
        }),
{
    if count == 0 {
        return Ok(false);
    }
    if count > max {
        let mut m: String = "history record batch exceeds the limit of ".to_owned();
        let digits: String = decimal_text(max as u64);
        m.append(&digits);
        m.append(" messages");
        return Err(m);
    }
    Ok(true)
}

/// Whether a time range does not end before it starts.
pub open spec fn range_is_ordered(since: Option<i64>, until: Option<i64>) -> bool {
    match (since, until) {
        (Some(a), Some(b)) => a <= b,
        _ => true,
    }
}

fn ordered(since: Option<i64>, until: Option<i64>) -> (r: bool)
    ensures
        r == range_is_ordered(since, until),
{
    match (since, until) {
        (Some(a), Some(b)) => a <= b,
        _ => true,
    }
}

/// Whether a search is accepted.
pub fn search(since: Option<i64>, until: Option<i64>) -> (r: Result<(), String>)
    ensures
        res_text(r) == (if range_is_ordered(since, until) {
            Ok(())
        } else {
            Err("history search time range must have since <= until"@)
        }),
{
    if !ordered(since, until) {
        return Err("history search time range must have since <= until".to_owned());
    }
    Ok(())
}

/// How many members an activity ranking lists, where its period is accepted.
pub fn activity_ranking(since: i64, until: i64, limit: usize) -> (r: Result<usize, String>)
    ensures
        res_text(r) == (if since > until {
            Err("activity ranking time range must have since <= until"@)
        } else if limit < 1 {
            Ok(1usize)
        } else if limit > MAX_ACTIVITY_RANKING_LIMIT {
            Ok(MAX_ACTIVITY_RANKING_LIMIT)
        } else {
            Ok(limit)
        }),
{
    if since > until {
        return Err("activity ranking time range must have since <= until".to_owned());
    }
    if limit < 1 {
        return Ok(1);
    }
    if limit > MAX_ACTIVITY_RANKING_LIMIT {
        return Ok(MAX_ACTIVITY_RANKING_LIMIT);
    }
    Ok(limit)
}

/// How many messages are deleted at a time, where a deletion is accepted: a number
/// of days to keep must be positive, and the period ordered.
pub fn delete_history(
    mode: DeleteMode,
    since: Option<i64>,
    until: Option<i64>,
    batch: usize,
    max_batch: usize,
) -> (r: Result<usize, String>)
    requires
        max_batch >= 1,
    ensures
        res_text(r) == (if mode == DeleteMode::KeepDays(0) {
            Err("keep_days must be a positive integer"@)
        } else if !range_is_ordered(since, until) {
            Err("history deletion time range must have since <= until"@)
        } else if batch < 1 {
            Ok(1usize)
        } else if batch > max_batch {
            Ok(max_batch)
        } else {
            Ok(batch)
        }),
{
    match mode {
        DeleteMode::KeepDays(days) => {
            if days == 0 {
                return Err("keep_days must be a positive integer".to_owned());
            }
        }
        DeleteMode::All => {}
    }
    if !ordered(since, until) {
        return Err("history deletion time range must have since <= until".to_owned());
    }
    if batch < 1 {
        Ok(1)
    } else if batch > max_batch {
        Ok(max_batch)
    } else {
        Ok(batch)
    }
}

/// What is asked of the record is done as it is asked, within bounds, and what makes no sense
/// is refused.
pub proof fn law_requests_to_the_record(
    asked: usize,
    capacity: usize,
    count: usize,
    max: usize,
    recorded: Result<bool, String>,
    since: Option<i64>,
    until: Option<i64>,
    searched: Result<(), String>,
)
    requires
        call_ensures(with_queue_capacity, (asked,), capacity),
        call_ensures(record_messages, (count, max), recorded),
        call_ensures(search, (since, until), searched),
    ensures
        1 <= asked <= 4096 ==> capacity == asked,
        asked == 0 ==> capacity == 1,
        asked > 4096 ==> capacity == 4096,
        recorded is Err <==> count > max && count > 0,
        recorded is Ok ==> (recorded->Ok_0 <==> count > 0),
        searched is Err <==> since is Some && until is Some && since->0 > until->0,
{
}

/// A ranking and a deletion keep to a period that is one, and to the number that is asked for
/// within its bounds.
pub proof fn law_rankings_and_deletions(
    since: i64,
    until: i64,
    limit: usize,
    ranked: Result<usize, String>,
    mode: DeleteMode,
    from: Option<i64>,
    to: Option<i64>,
    batch: usize,
    max_batch: usize,
    deleted: Result<usize, String>,
)
    requires
        max_batch >= 1,
        call_ensures(activity_ranking, (since, until, limit), ranked),
        call_ensures(delete_history, (mode, from, to, batch, max_batch), deleted),
    ensures
        ranked is Err <==> since > until,
        ranked is Ok && 1 <= limit <= MAX_ACTIVITY_RANKING_LIMIT ==> ranked->Ok_0 == limit,
        ranked is Ok ==> 1 <= ranked->Ok_0 <= MAX_ACTIVITY_RANKING_LIMIT,
        deleted is Err <==> mode == DeleteMode::KeepDays(0) || (from is Some && to is Some && from->0
            > to->0),
        deleted is Ok && 1 <= batch <= max_batch ==> deleted->Ok_0 == batch,
        deleted is Ok ==> 1 <= deleted->Ok_0 <= max_batch,
{
}

} // verus!
