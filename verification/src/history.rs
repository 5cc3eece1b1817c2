//! History tabs of the master: recognising which quick range ("last 5
//! minutes", ...) the start and end times of a tab span, and which open tab
//! a history result answers.

use vstd::prelude::*;

verus! {

/// Seconds since the Unix epoch of the RFC 3339 time `s`, as chrono reads
/// it, or `None` when chrono rejects the text.
pub uninterp spec fn rfc3339_secs(s: Seq<char>) -> Option<i64>;

/// Calls `chrono::DateTime::parse_from_rfc3339` and, on success, takes the
/// parsed time's `timestamp()`.  The contract claims only that the outcome is
/// a function of the text, named by [`rfc3339_secs`]; the RFC 3339 grammar
/// and the calendar arithmetic are not restated.
#[verifier::external_body]
fn parse_rfc3339_secs(s: &str) -> (r: Option<i64>)
    ensures
        r == rfc3339_secs(s@),
{
    match chrono::DateTime::parse_from_rfc3339(s) {
        Ok(dt) => Some(dt.timestamp()),
        Err(_) => None,
    }
}

/// Lengths in seconds of the quick ranges offered above a history chart:
/// one minute, five minutes, half an hour, an hour, six hours and a day.
pub open spec fn quick_ranges() -> Seq<i64> {
    seq![60i64, 300, 1800, 3600, 21600, 86400]
}

/// The first range of `rs` within two seconds of `diff`.
pub open spec fn first_near(diff: int, rs: Seq<i64>) -> Option<i64>
    decreases rs.len(),
{
    if rs.len() == 0 {
        None
    } else if -2 <= diff - rs[0] <= 2 {
        Some(rs[0])
    } else {
        first_near(diff, rs.drop_first())
    }
}

/// The quick range, in seconds, that a span from `start_secs` to `end_secs`
/// matches within two seconds, if any.
pub fn quick_range_for(start_secs: i64, end_secs: i64) -> (r: Option<i64>)
    ensures
        r == first_near(end_secs - start_secs, quick_ranges()),
{
    let ranges: [i64; 6] = [60, 300, 1800, 3600, 21600, 86400];
    let diff: i128 = (end_secs as i128) - (start_secs as i128);
    let ghost rs = quick_ranges();
    assert(ranges@ == rs);
    assert(rs.skip(0) == rs);
    let mut i: usize = 0;
    while i < 6
        invariant
            i <= 6,
            ranges@ == rs,
            rs == quick_ranges(),
            diff == end_secs - start_secs,
            first_near(diff as int, rs) == first_near(diff as int, rs.skip(i as int)),
        decreases 6 - i,
    {
        let s = ranges[i];
        let d = diff - (s as i128);
        assert(rs.skip(i as int).len() == 6 - i);
        assert(rs.skip(i as int)[0] == s);
        assert(rs.skip(i as int).drop_first() == rs.skip(i + 1));
        if -2 <= d && d <= 2 {
            assert(first_near(diff as int, rs.skip(i as int)) == Some(s));
            return Some(s);
        }
        i = i + 1;
    }
    assert(rs.skip(6) == Seq::<i64>::empty());
    None
}

/// The quick range, in seconds, that a history tab spanning `start_iso` to
/// `end_iso` shows: none unless both times are valid RFC 3339 text and the
/// span is within two seconds of one of the quick ranges.
pub fn active_quick_range(start_iso: &str, end_iso: &str) -> (r: Option<i64>)
    ensures
        r == match (rfc3339_secs(start_iso@), rfc3339_secs(end_iso@)) {
            (Some(a), Some(b)) => first_near(b - a, quick_ranges()),
            _ => None,
        },
{
    let start = parse_rfc3339_secs(start_iso);
    let end = parse_rfc3339_secs(end_iso);
    match (start, end) {
        (Some(a), Some(b)) => quick_range_for(a, b),
        _ => None,
    }
}

/// The quick ranges are more than four seconds apart, so a span matches at
/// most one of them: whichever is found is the only one within two seconds.
pub proof fn lemma_quick_range_unique(diff: int, s: i64)
    requires
        quick_ranges().contains(s),
        -2 <= diff - s <= 2,
    ensures
        first_near(diff, quick_ranges()) == Some(s),
{
    let rs = quick_ranges();
    reveal_with_fuel(first_near, 7);
    assert(rs[0] == 60 && rs[1] == 300 && rs[2] == 1800 && rs[3] == 3600 && rs[4] == 21600 && rs[5]
        == 86400);
    assert(rs.drop_first() =~= seq![300i64, 1800, 3600, 21600, 86400]);
    assert(rs.drop_first().drop_first() =~= seq![1800i64, 3600, 21600, 86400]);
    assert(rs.drop_first().drop_first().drop_first() =~= seq![3600i64, 21600, 86400]);
    assert(rs.drop_first().drop_first().drop_first().drop_first() =~= seq![21600i64, 86400]);
    assert(rs.drop_first().drop_first().drop_first().drop_first().drop_first() =~= seq![86400i64]);
}

/// What a history tab waits for: the request it sent last, if unanswered,
/// and the node it shows.
pub struct HistoryWait {
    pub pending_req: Option<u64>,
    pub node_id: String,
}

/// Whether tab `w` waits for request `req_id` about node `node_id`.
pub open spec fn awaits(w: HistoryWait, req_id: u64, node_id: Seq<char>) -> bool {
    w.pending_req == Some(req_id) && w.node_id@ == node_id
}

/// The tab that takes in the result of request `req_id` about node
/// `node_id`: the first of `tabs` that waits for it, or `None` when none
/// does (the result is then dropped).
pub fn awaiting_tab(tabs: &Vec<HistoryWait>, req_id: u64, node_id: &str) -> (r: Option<usize>)
    ensures
        r matches Some(i) ==> i < tabs@.len() && awaits(tabs@[i as int], req_id, node_id@)
            && forall|j: int| 0 <= j < i ==> !awaits(#[trigger] tabs@[j], req_id, node_id@),
        r is None ==> forall|j: int| 0 <= j < tabs@.len() ==> !awaits(#[trigger] tabs@[j], req_id, node_id@),
{
    let mut i: usize = 0;
    while i < tabs.len()
        invariant
            i <= tabs@.len(),
            forall|j: int| 0 <= j < i ==> !awaits(#[trigger] tabs@[j], req_id, node_id@),
        decreases tabs@.len() - i,
    {
        let w = &tabs[i];
        let waits = match w.pending_req {
            Some(p) => p == req_id,
            None => false,
        };
        if waits && crate::text::str_eq(w.node_id.as_str(), node_id) {
            return Some(i);
        }
        i = i + 1;
    }
    None
}

} // verus!
