//! View-model state of the master front end that is independent of the
//! widget toolkit: the communication-log buffers and their filter cache,
//! dialog states, panel states and toasts.

use vstd::prelude::*;

use crate::conn_map::ConnMap;
use crate::conn_dialog::ConnDialogState;
use crate::master_events::{
    BrowseItem, CertSummaryDto, LogRow, MethodArgInfo, MethodArgValue, NodeAttrsDto, ToastLevel,
};
use crate::text;

verus! {

/// Most rows kept per connection, live or buffered while paused.
pub const LOG_CAPACITY: usize = 10_000;

/// The last `LOG_CAPACITY` elements of `s` (all of `s` when it is shorter).
pub open spec fn keep_newest(s: Seq<LogRow>) -> Seq<LogRow> {
    if s.len() > LOG_CAPACITY {
        s.subrange(s.len() - LOG_CAPACITY, s.len() as int)
    } else {
        s
    }
}

/// Communication-log rows of one connection.
pub struct LogPerConn {
    pub entries: Vec<LogRow>,
    /// Rows that arrived while the view was paused; moved into `entries` on resume.
    pub paused_buf: Vec<LogRow>,
}

/// Drops the oldest rows of `v` so that at most `LOG_CAPACITY` remain.
fn truncate_front(v: &mut Vec<LogRow>)
    ensures
        final(v)@ == keep_newest(old(v)@),
{
    if v.len() > LOG_CAPACITY {
        let excess = v.len() - LOG_CAPACITY;
        let tail = v.split_off(excess);
        *v = tail;
    }
}

impl LogPerConn {
    /// Both buffers empty.
    pub fn new() -> (r: Self)
        ensures
            r.entries@ == Seq::<LogRow>::empty(),
            r.paused_buf@ == Seq::<LogRow>::empty(),
    {
        LogPerConn { entries: Vec::new(), paused_buf: Vec::new() }
    }

    /// Adds `rows` after the existing ones, to the pause buffer when `paused`
    /// and to the visible entries otherwise; the buffer that grew keeps only
    /// its newest `LOG_CAPACITY` rows.
    pub fn append(&mut self, rows: Vec<LogRow>, paused: bool)
        ensures
            paused ==> final(self).paused_buf@ == keep_newest(old(self).paused_buf@ + rows@)
                && final(self).entries@ == old(self).entries@,
            !paused ==> final(self).entries@ == keep_newest(old(self).entries@ + rows@)
                && final(self).paused_buf@ == old(self).paused_buf@,
    {
        let mut rows = rows;
        if paused {
            self.paused_buf.append(&mut rows);
            truncate_front(&mut self.paused_buf);
            return;
        }
        self.entries.append(&mut rows);
        truncate_front(&mut self.entries);
    }

    /// Moves the paused rows after the visible ones, keeping the newest
    /// `LOG_CAPACITY`, and empties the pause buffer.
    pub fn flush_paused(&mut self)
        ensures
            final(self).entries@ == keep_newest(old(self).entries@ + old(self).paused_buf@),
            final(self).paused_buf@.len() == 0,
    {
        self.entries.append(&mut self.paused_buf);
        truncate_front(&mut self.entries);
    }
}

/// Which directions the log view shows.
#[derive(Debug, Clone, Copy, PartialEq, Eq, Structural)]
pub enum LogDirectionFilter {
    All,
    Request,
    Response,
}

/// Whether a row with direction `d` passes `f`.
pub open spec fn direction_passes(f: LogDirectionFilter, d: Seq<char>) -> bool {
    match f {
        LogDirectionFilter::All => true,
        LogDirectionFilter::Request => d == "Request"@,
        LogDirectionFilter::Response => d == "Response"@,
    }
}

/// Whether `e` is shown under direction filter `f` and lower-cased search text `needle`.
pub open spec fn log_row_shown(e: LogRow, f: LogDirectionFilter, needle: Seq<char>) -> bool {
    &&& direction_passes(f, e.direction@)
    &&& (needle.len() == 0 || text::contains(text::lowercase(e.service@), needle) || text::contains(
        text::lowercase(e.detail@),
        needle,
    ))
}

/// Positions, in increasing order, of the rows of `s` shown under `f` and `needle`.
pub open spec fn shown_indices(s: Seq<LogRow>, f: LogDirectionFilter, needle: Seq<char>) -> Seq<
    usize,
>
    decreases s.len(),
{
    if s.len() == 0 {
        Seq::empty()
    } else {
        let prev = shown_indices(s.drop_last(), f, needle);
        if log_row_shown(s.last(), f, needle) {
            prev.push((s.len() - 1) as usize)
        } else {
            prev
        }
    }
}

/// The rows logged for `conn` (none when the connection has no log yet).
pub open spec fn log_entries_of(per_conn: Map<Seq<char>, LogPerConn>, conn: Seq<char>) -> Seq<
    LogRow,
> {
    if per_conn.contains_key(conn) {
        per_conn[conn].entries@
    } else {
        Seq::empty()
    }
}

/// The rows buffered while paused for `conn` (none when the connection has no log yet).
pub open spec fn log_paused_of(per_conn: Map<Seq<char>, LogPerConn>, conn: Seq<char>) -> Seq<
    LogRow,
> {
    if per_conn.contains_key(conn) {
        per_conn[conn].paused_buf@
    } else {
        Seq::empty()
    }
}

/// State of the communication-log panel.
pub struct LogState {
    pub per_conn: ConnMap<LogPerConn>,
    pub expanded: bool,
    pub filter: LogDirectionFilter,
    pub search: String,
    pub paused: bool,
    pub auto_scroll: bool,
    pub filter_dirty: bool,
    /// Positions in the selected connection's entries that pass the filter.
    pub filtered_cache: Vec<usize>,
    /// Connection, filter, search text and entry count the cache was built for.
    pub last_filter_key: (String, LogDirectionFilter, String, usize),
}

impl LogState {
    /// Well-formed: connection keys are distinct.
    pub open spec fn wf(&self) -> bool {
        self.per_conn.wf()
    }

    /// Whether the cache was built for exactly `conn` and the current settings.
    pub open spec fn cache_current(&self, conn: Seq<char>) -> bool {
        &&& !self.filter_dirty
        &&& self.last_filter_key.0@ == conn
        &&& self.last_filter_key.1 == self.filter
        &&& self.last_filter_key.2@ == self.search@
        &&& self.last_filter_key.3 == log_entries_of(self.per_conn@, conn).len()
    }

    /// An empty, collapsed log view that shows every direction.
    pub fn default() -> (r: Self)
        ensures
            r.wf(),
            r.per_conn@ == Map::<Seq<char>, LogPerConn>::empty(),
            !r.expanded,
            r.filter == LogDirectionFilter::All,
            r.search@.len() == 0,
            !r.paused,
            r.auto_scroll,
            r.filter_dirty,
            r.filtered_cache@.len() == 0,
            r.last_filter_key.0@.len() == 0,
            r.last_filter_key.1 == LogDirectionFilter::All,
            r.last_filter_key.2@.len() == 0,
            r.last_filter_key.3 == 0,
    {
        LogState {
            per_conn: ConnMap::new(),
            expanded: false,
            filter: LogDirectionFilter::All,
            search: String::new(),
            paused: false,
            auto_scroll: true,
            filter_dirty: true,
            filtered_cache: Vec::new(),
            last_filter_key: (String::new(), LogDirectionFilter::All, String::new(), 0),
        }
    }

    /// Rebuilds `filtered_cache` for connection `conn_id`, unless it is
    /// already current for that connection, filter, search text and entry
    /// count.  A row is kept when its direction passes the filter and, for a
    /// non-blank search, its service or detail contains the trimmed,
    /// lower-cased search text case-insensitively.
    pub fn ensure_filter(&mut self, conn_id: &str)
        requires
            old(self).wf(),
        ensures
            old(self).cache_current(conn_id@) ==> *final(self) == *old(self),
            !old(self).cache_current(conn_id@) ==> {
                &&& final(self).filtered_cache@ == shown_indices(
                    log_entries_of(old(self).per_conn@, conn_id@),
                    old(self).filter,
                    text::lowercase(text::trim(old(self).search@)),
                )
                &&& !final(self).filter_dirty
                &&& final(self).last_filter_key.0@ == conn_id@
                &&& final(self).last_filter_key.1 == old(self).filter
                &&& final(self).last_filter_key.2@ == old(self).search@
                &&& final(self).last_filter_key.3 == log_entries_of(
                    old(self).per_conn@,
                    conn_id@,
                ).len()
                &&& final(self).per_conn == old(self).per_conn
                &&& final(self).expanded == old(self).expanded
                &&& final(self).filter == old(self).filter
                &&& final(self).search == old(self).search
                &&& final(self).paused == old(self).paused
                &&& final(self).auto_scroll == old(self).auto_scroll
            },
            !old(self).cache_current(conn_id@) && text::is_blank(old(self).search@) && old(self).filter
                == LogDirectionFilter::All ==> final(self).filtered_cache@ == Seq::new(
                log_entries_of(old(self).per_conn@, conn_id@).len(),
                |i: int| i as usize,
            ),
            final(self).wf(),
            final(self).cache_current(conn_id@),
    {
        let entries_len: usize = match self.per_conn.get(conn_id) {
            Some(p) => p.entries.len(),
            None => 0,
        };
        if !self.filter_dirty && crate::text::str_eq(self.last_filter_key.0.as_str(), conn_id)
            && self.last_filter_key.1 == self.filter && self.last_filter_key.2 == self.search
            && self.last_filter_key.3 == entries_len {
            return;
        }
        let key = (String::from_str(conn_id), self.filter, self.search.clone(), entries_len);
        self.filtered_cache.clear();
        let trimmed = crate::text::trim_string(self.search.as_str());
        let needle_s = crate::text::to_lowercase(trimmed.as_str());
        let needle = crate::text::chars_of(needle_s.as_str());
        let ghost needle_v = text::lowercase(text::trim(self.search@));
        assert(needle@ == needle_v);
        proof {
            if text::is_blank(self.search@) {
                assert(needle_v == Seq::<char>::empty());
                lemma_unfiltered_shows_all(log_entries_of(self.per_conn@, conn_id@));
            }
        }
        let filter = self.filter;
        match self.per_conn.get(conn_id) {
            Some(per) => {
                let ghost es = per.entries@;
                let mut i: usize = 0;
                let mut out: Vec<usize> = Vec::new();
                while i < per.entries.len()
                    invariant
                        i <= per.entries.len(),
                        es == per.entries@,
                        needle@ == needle_v,
                        out@ == shown_indices(es.take(i as int), filter, needle_v),
                    decreases per.entries.len() - i,
                {
                    let e = &per.entries[i];
                    let shown = row_shown(e, filter, &needle);
                    assert(es.take(i + 1).drop_last() == es.take(i as int));
                    if shown {
                        out.push(i);
                    }
                    i = i + 1;
                }
                assert(es.take(es.len() as int) == es);
                self.filtered_cache = out;
            },
            None => {},
        }
        self.filter_dirty = false;
        self.last_filter_key = key;
    }
}

/// `new` is the log state `old` after rows `rows` arrived for connection `conn`.
pub open spec fn entries_appended(old: LogState, new: LogState, conn: Seq<char>, rows: Seq<LogRow>) -> bool {
    &&& new.per_conn@.dom() == old.per_conn@.dom().insert(conn)
    &&& forall|k: Seq<char>|
        k != conn && #[trigger] old.per_conn@.contains_key(k) ==> new.per_conn@[k] == old.per_conn@[k]
    &&& ({
        let after = new.per_conn@[conn];
        let e0 = log_entries_of(old.per_conn@, conn);
        let p0 = log_paused_of(old.per_conn@, conn);
        &&& old.paused ==> after.paused_buf@ == keep_newest(p0 + rows)
            && after.entries@ == e0
        &&& !old.paused ==> after.entries@ == keep_newest(e0 + rows)
            && after.paused_buf@ == p0
    })
    &&& new.filter == old.filter
    &&& new.search == old.search
    &&& new.paused == old.paused
    &&& new.filtered_cache == old.filtered_cache
    &&& new.filter_dirty == old.filter_dirty
    &&& new.last_filter_key == old.last_filter_key
}

/// `new` is the log state `old` after the visible log of connection `conn` was emptied.
pub open spec fn entries_cleared(old: LogState, new: LogState, conn: Seq<char>) -> bool {
    &&& new.per_conn@.dom() == old.per_conn@.dom()
    &&& forall|k: Seq<char>|
        k != conn && #[trigger] old.per_conn@.contains_key(k) ==> new.per_conn@[k] == old.per_conn@[k]
    &&& old.per_conn@.contains_key(conn) ==> new.per_conn@[conn].entries@.len()
        == 0 && new.per_conn@[conn].paused_buf@ == old.per_conn@[conn].paused_buf@
    &&& new.filter == old.filter
    &&& new.search == old.search
    &&& new.paused == old.paused
    &&& new.filtered_cache == old.filtered_cache
    &&& new.filter_dirty == old.filter_dirty
    &&& new.last_filter_key == old.last_filter_key
}

impl LogState {
    /// Appends rows that arrived for `conn_id`, creating its log on first
    /// use; the rows go to the pause buffer while the view is paused.
    pub fn append_entries(&mut self, conn_id: String, rows: Vec<LogRow>)
        requires
            old(self).wf(),
        ensures
            final(self).wf(),
            entries_appended(*old(self), *final(self), conn_id@, rows@),
    {
        let mut per = match self.per_conn.remove(conn_id.as_str()) {
            Some(p) => p,
            None => LogPerConn::new(),
        };
        per.append(rows, self.paused);
        self.per_conn.insert(conn_id, per);
        assert(self.per_conn@.dom() =~= old(self).per_conn@.dom().insert(conn_id@));
    }

    /// Empties the visible log of `conn_id`, if it has one.
    pub fn clear_entries(&mut self, conn_id: &str)
        requires
            old(self).wf(),
        ensures
            final(self).wf(),
            entries_cleared(*old(self), *final(self), conn_id@),
    {
        match self.per_conn.remove(conn_id) {
            Some(p) => {
                let mut per = p;
                per.entries.clear();
                self.per_conn.insert(String::from_str(conn_id), per);
                assert(self.per_conn@.dom() =~= old(self).per_conn@.dom());
            },
            None => {
                assert(self.per_conn@ =~= old(self).per_conn@);
            },
        }
    }
}

/// The newest sequence number among `rows`, or `last` when there are none.
pub open spec fn newest_seq_spec(rows: Seq<LogRow>, last: u64) -> u64
    decreases rows.len(),
{
    if rows.len() == 0 {
        last
    } else {
        let prev = newest_seq_spec(rows.drop_last(), last);
        if rows.len() == 1 {
            rows[0].seq
        } else if rows.last().seq > prev {
            rows.last().seq
        } else {
            prev
        }
    }
}

/// The sequence number to poll from next: the largest among the rows just
/// received, or `last` when none arrived.
pub fn newest_seq(rows: &Vec<LogRow>, last: u64) -> (r: u64)
    ensures
        r == newest_seq_spec(rows@, last),
        rows@.len() > 0 ==> exists|i: int| 0 <= i < rows@.len() && rows@[i].seq == r,
        forall|i: int| 0 <= i < rows@.len() ==> rows@[i].seq <= r,
{
    if rows.len() == 0 {
        return last;
    }
    let mut best = rows[0].seq;
    let mut i: usize = 1;
    assert(rows@.take(1).drop_last().len() == 0);
    while i < rows.len()
        invariant
            1 <= i <= rows.len(),
            best == newest_seq_spec(rows@.take(i as int), last),
            exists|k: int| 0 <= k < i && rows@[k].seq == best,
            forall|k: int| 0 <= k < i ==> rows@[k].seq <= best,
        decreases rows.len() - i,
    {
        assert(rows@.take(i + 1).drop_last() == rows@.take(i as int));
        if rows[i].seq > best {
            best = rows[i].seq;
        }
        i = i + 1;
    }
    assert(rows@.take(rows.len() as int) == rows@);
    best
}

/// Whether a toast created at `created_at` is still shown at `now`: for less
/// than four whole seconds (a clock that went back counts as no time).
pub open spec fn toast_fresh(created_at: u64, now: u64) -> bool {
    (if now >= created_at { now - created_at } else { 0 }) < 4000
}

/// The toasts of `ts` still shown at `now`, in order.
pub open spec fn fresh_toasts(ts: Seq<Toast>, now: u64) -> Seq<Toast>
    decreases ts.len(),
{
    if ts.len() == 0 {
        ts
    } else {
        let rest = fresh_toasts(ts.drop_last(), now);
        if toast_fresh(ts.last().created_at, now) {
            rest.push(ts.last())
        } else {
            rest
        }
    }
}

/// Drops the toasts older than four seconds at `now`.
pub fn retain_fresh_toasts(toasts: &mut Vec<Toast>, now: u64)
    ensures
        final(toasts)@ == fresh_toasts(old(toasts)@, now),
{
    let ghost start = toasts@;
    let mut rest: Vec<Toast> = Vec::new();
    std::mem::swap(&mut rest, toasts);
    let n = rest.len();
    let mut kept: Vec<Toast> = Vec::new();
    let mut i: usize = 0;
    while i < n
        invariant
            start.len() == n,
            i <= n,
            rest@ == start.skip(i as int),
            kept@ == fresh_toasts(start.take(i as int), now),
        decreases n - i,
    {
        let t = rest.remove(0);
        assert(start.skip(i as int)[0] == start[i as int]);
        assert(start.skip(i as int).remove(0) == start.skip(i + 1));
        assert(start.take(i + 1).drop_last() == start.take(i as int));
        if now.saturating_sub(t.created_at) < 4000 {
            kept.push(t);
        }
        i = i + 1;
    }
    assert(start.take(n as int) == start);
    *toasts = kept;
}

/// Adds a toast created at `now`.
pub fn push_toast(toasts: &mut Vec<Toast>, level: ToastLevel, message: String, now: u64)
    ensures
        final(toasts)@ == old(toasts)@.push(Toast { level, message, created_at: now }),
{
    toasts.push(Toast { level, message, created_at: now });
}

/// The next request id: the counter advanced by one, wrapping at the top of `u64`.
pub fn alloc_req_id(next_req_id: &mut u64) -> (r: u64)
    ensures
        *final(next_req_id) == (if *old(next_req_id) == u64::MAX {
            0
        } else {
            (*old(next_req_id) + 1) as u64
        }),
        r == *final(next_req_id),
{
    *next_req_id = next_req_id.wrapping_add(1);
    *next_req_id
}

/// Whether one row passes the filter; `needle` holds the lower-cased search text.
fn row_shown(e: &LogRow, filter: LogDirectionFilter, needle: &Vec<char>) -> (r: bool)
    ensures
        r == log_row_shown(*e, filter, needle@),
{
    let dir_ok = match filter {
        LogDirectionFilter::All => true,
        LogDirectionFilter::Request => crate::text::str_eq(e.direction.as_str(), "Request"),
        LogDirectionFilter::Response => crate::text::str_eq(e.direction.as_str(), "Response"),
    };
    if !dir_ok {
        return false;
    }
    if needle.len() == 0 {
        return true;
    }
    let service = crate::text::chars_of(crate::text::to_lowercase(e.service.as_str()).as_str());
    if crate::text::contains_exec(&service, needle) {
        return true;
    }
    let detail = crate::text::chars_of(crate::text::to_lowercase(e.detail.as_str()).as_str());
    crate::text::contains_exec(&detail, needle)
}

/// A transient notification; `created_at` is a monotonic timestamp in milliseconds.
pub struct Toast {
    pub level: ToastLevel,
    pub message: String,
    pub created_at: u64,
}


/// Which view the central area shows: the monitoring table or the history
/// tab at the given position.
#[derive(Debug, Clone, Copy, PartialEq, Eq, Structural)]
pub enum CentralPanelTab {
    DataTable,
    History(usize),
}

/// The tab selected after the history tab at `closed` was removed and
/// `remaining` history tabs are left: the table when none is left; otherwise
/// a selection at or after the closed tab moves back by one (staying within
/// the remaining tabs) and one before it is kept.
pub open spec fn tab_after_close_spec(tab: CentralPanelTab, closed: usize, remaining: usize) -> CentralPanelTab {
    if remaining == 0 {
        CentralPanelTab::DataTable
    } else {
        match tab {
            CentralPanelTab::DataTable => CentralPanelTab::DataTable,
            CentralPanelTab::History(j) => {
                if j >= closed {
                    let back: int = if j == 0 { 0 } else { j - 1 };
                    CentralPanelTab::History(
                        (if back < remaining - 1 { back } else { remaining - 1 }) as usize,
                    )
                } else {
                    CentralPanelTab::History(j)
                }
            },
        }
    }
}

/// The selected central tab after closing history tab `closed`, with
/// `remaining` history tabs left.
pub fn tab_after_close(tab: CentralPanelTab, closed: usize, remaining: usize) -> (r: CentralPanelTab)
    ensures
        r == tab_after_close_spec(tab, closed, remaining),
{
    if remaining == 0 {
        return CentralPanelTab::DataTable;
    }
    match tab {
        CentralPanelTab::DataTable => CentralPanelTab::DataTable,
        CentralPanelTab::History(j) => {
            if j >= closed {
                let back = j.saturating_sub(1);
                let last = remaining - 1;
                CentralPanelTab::History(if back < last { back } else { last })
            } else {
                CentralPanelTab::History(j)
            }
        },
    }
}

/// The modal dialog currently open.
pub enum Modal {
    NewConnection(ConnDialogState),
    CertManager(CertManagerState),
    MethodCall(MethodCallState),
}

/// State of the certificate manager dialog; paths are kept as text.
pub struct CertManagerState {
    pub trusted: Vec<CertSummaryDto>,
    pub rejected: Vec<CertSummaryDto>,
    pub pending_trusted_req: Option<u64>,
    pub pending_rejected_req: Option<u64>,
    pub selected_path: Option<String>,
    pub error: Option<String>,
}

impl Default for CertManagerState {
    fn default() -> (r: Self)
        ensures
            r.trusted@.len() == 0,
            r.rejected@.len() == 0,
            r.pending_trusted_req is None,
            r.pending_rejected_req is None,
            r.selected_path is None,
            r.error is None,
    {
        CertManagerState {
            trusted: Vec::new(),
            rejected: Vec::new(),
            pending_trusted_req: None,
            pending_rejected_req: None,
            selected_path: None,
            error: None,
        }
    }
}

/// State of the method-call dialog.
pub struct MethodCallState {
    pub conn_id: String,
    pub object_id: String,
    pub method_id: String,
    pub display_name: String,
    pub inputs_meta: Vec<MethodArgInfo>,
    pub outputs_meta: Vec<MethodArgInfo>,
    pub input_values: Vec<String>,
    pub pending_args_req: Option<u64>,
    pub pending_call_req: Option<u64>,
    pub last_result_status: Option<String>,
    pub last_result_outputs: Vec<MethodArgValue>,
    pub error: Option<String>,
}

impl MethodCallState {
    /// A dialog for calling `method_id` on `object_id` over `conn_id`, with no
    /// argument metadata, inputs, pending requests or results yet.
    pub fn new(conn_id: String, object_id: String, method_id: String, display_name: String) -> (r:
        Self)
        ensures
            r.conn_id == conn_id,
            r.object_id == object_id,
            r.method_id == method_id,
            r.display_name == display_name,
            r.inputs_meta@.len() == 0,
            r.outputs_meta@.len() == 0,
            r.input_values@.len() == 0,
            r.pending_args_req is None,
            r.pending_call_req is None,
            r.last_result_status is None,
            r.last_result_outputs@.len() == 0,
            r.error is None,
    {
        MethodCallState {
            conn_id,
            object_id,
            method_id,
            display_name,
            inputs_meta: Vec::new(),
            outputs_meta: Vec::new(),
            input_values: Vec::new(),
            pending_args_req: None,
            pending_call_req: None,
            last_result_status: None,
            last_result_outputs: Vec::new(),
            error: None,
        }
    }
}

/// One node of the browse tree; `children` is `None` until browsed.
pub struct BrowseNodeState {
    pub item: BrowseItem,
    pub expanded: bool,
    pub children: Option<Vec<String>>,
    pub loading: bool,
}

/// State of the value panel: the last attributes read, pending requests and
/// the text to write.
pub struct ValuePanelState {
    pub attrs: Option<NodeAttrsDto>,
    pub pending_read_req: Option<u64>,
    pub pending_write_req: Option<u64>,
    pub write_value: String,
    pub last_result: Option<String>,
}

impl Default for ValuePanelState {
    fn default() -> (r: Self)
        ensures
            r.attrs is None,
            r.pending_read_req is None,
            r.pending_write_req is None,
            r.write_value@.len() == 0,
            r.last_result is None,
    {
        ValuePanelState {
            attrs: None,
            pending_read_req: None,
            pending_write_req: None,
            write_value: String::new(),
            last_result: None,
        }
    }
}

} // verus!

verus! {

/// A log buffer never holds more than `LOG_CAPACITY` rows after trimming.
pub proof fn lemma_log_capacity_bound(s: Seq<LogRow>)
    ensures
        keep_newest(s).len() <= LOG_CAPACITY,
        s.len() <= LOG_CAPACITY ==> keep_newest(s) == s,
{
}

/// Trimming the newer part first loses nothing: `keep(a + keep(b)) == keep(a + b)`.
pub proof fn lemma_keep_newest_absorbs(a: Seq<LogRow>, b: Seq<LogRow>)
    ensures
        keep_newest(a + keep_newest(b)) == keep_newest(a + b),
{
    let c = LOG_CAPACITY as int;
    if b.len() > c {
        let kb = b.subrange(b.len() - c, b.len() as int);
        assert((a + kb).len() > c || (a + kb).len() == c);
        assert(keep_newest(a + kb) =~= kb);
        assert(keep_newest(a + b) =~= kb);
    }
}

/// Rows that arrive while the view is paused and are flushed on resume end
/// up exactly as if they had been appended live: with an empty pause
/// buffer, `append(rows, paused)` then `flush_paused()` leaves the same
/// entries as `append(rows, live)`.
pub proof fn lemma_pause_then_resume_equals_live(entries: Seq<LogRow>, rows: Seq<LogRow>)
    ensures
        keep_newest(entries + keep_newest(Seq::<LogRow>::empty() + rows)) == keep_newest(
            entries + rows,
        ),
{
    assert(Seq::<LogRow>::empty() + rows == rows);
    lemma_keep_newest_absorbs(entries, rows);
}

/// The filter cache lists exactly the rows that pass the filter, each once,
/// in log order.
pub proof fn lemma_shown_indices_exact(s: Seq<LogRow>, f: LogDirectionFilter, needle: Seq<char>)
    requires
        s.len() <= usize::MAX,
    ensures
        forall|a: int, b: int|
            0 <= a < b < shown_indices(s, f, needle).len() ==> shown_indices(s, f, needle)[a]
                < shown_indices(s, f, needle)[b],
        forall|a: int|
            0 <= a < shown_indices(s, f, needle).len() ==> {
                let k = #[trigger] shown_indices(s, f, needle)[a];
                k < s.len() && log_row_shown(s[k as int], f, needle)
            },
        forall|k: int|
            0 <= k < s.len() && log_row_shown(#[trigger] s[k], f, needle) ==> shown_indices(
                s,
                f,
                needle,
            ).contains(k as usize),
    decreases s.len(),
{
    if s.len() > 0 {
        let p = s.drop_last();
        lemma_shown_indices_exact(p, f, needle);
        let q = shown_indices(p, f, needle);
        let last: usize = (s.len() - 1) as usize;
        assert(last as int == s.len() - 1);
        assert forall|k: int| 0 <= k < p.len() implies #[trigger] s[k] == p[k] by {}
        if log_row_shown(s.last(), f, needle) {
            let t = q.push(last);
            assert(shown_indices(s, f, needle) == t);
            assert forall|a: int, b: int| 0 <= a < b < t.len() implies t[a] < t[b] by {
                if b < q.len() {
                    assert(t[a] == q[a] && t[b] == q[b]);
                } else {
                    assert(t[a] == q[a]);
                    assert(q[a] < p.len());
                }
            }
            assert forall|a: int| 0 <= a < t.len() implies {
                let k = #[trigger] t[a];
                k < s.len() && log_row_shown(s[k as int], f, needle)
            } by {
                if a < q.len() {
                    assert(t[a] == q[a]);
                    assert(q[a] < p.len());
                    assert(s[q[a] as int] == p[q[a] as int]);
                }
            }
            assert forall|k: int|
                0 <= k < s.len() && log_row_shown(#[trigger] s[k], f, needle) implies t.contains(
                k as usize,
            ) by {
                if k < p.len() {
                    assert(p[k] == s[k]);
                    assert(q.contains(k as usize));
                    let a = choose|a: int| 0 <= a < q.len() && q[a] == k as usize;
                    assert(t[a] == q[a]);
                } else {
                    assert(t[q.len() as int] == k as usize);
                }
            }
        } else {
            assert(shown_indices(s, f, needle) == q);
            assert forall|a: int| 0 <= a < q.len() implies {
                let k = #[trigger] q[a];
                k < s.len() && log_row_shown(s[k as int], f, needle)
            } by {
                assert(q[a] < p.len());
                assert(s[q[a] as int] == p[q[a] as int]);
            }
            assert forall|k: int|
                0 <= k < s.len() && log_row_shown(#[trigger] s[k], f, needle) implies q.contains(
                k as usize,
            ) by {
                assert(k < p.len());
                assert(p[k] == s[k]);
            }
        }
    }
}

/// With every direction shown and no search text, the cache lists every row.
pub proof fn lemma_unfiltered_shows_all(s: Seq<LogRow>)
    ensures
        shown_indices(s, LogDirectionFilter::All, Seq::empty()) == Seq::new(
            s.len(),
            |i: int| i as usize,
        ),
    decreases s.len(),
{
    if s.len() > 0 {
        lemma_unfiltered_shows_all(s.drop_last());
        assert(shown_indices(s, LogDirectionFilter::All, Seq::empty()) =~= Seq::new(
            s.len(),
            |i: int| i as usize,
        ));
    }
}

/// Closing a history tab never leaves a selection past the remaining tabs:
/// if the selected tab was one of the `remaining + 1` tabs before, the new
/// selection is one of the `remaining` tabs after.
pub proof fn lemma_tab_after_close_in_range(tab: CentralPanelTab, closed: usize, remaining: usize)
    requires
        closed <= remaining,
        tab matches CentralPanelTab::History(j) ==> j <= remaining,
    ensures
        tab_after_close_spec(tab, closed, remaining) matches CentralPanelTab::History(k) ==> k
            < remaining,
{
}

/// Closing a history tab other than the one shown keeps the same tab shown:
/// among the tabs left (`tabs` without the closed one) the new selection is
/// the tab that was selected before.  Closing a tab after the shown one thus
/// keeps its index; closing one before it moves the index down by one.
pub proof fn lemma_close_keeps_shown_tab<A>(tabs: Seq<A>, closed: usize, j: usize, remaining: usize)
    requires
        tabs.len() == remaining + 1,
        closed < tabs.len(),
        j < tabs.len(),
        j != closed,
    ensures
        tab_after_close_spec(CentralPanelTab::History(j), closed, remaining) matches CentralPanelTab::History(k)
            && k < remaining && tabs.remove(closed as int)[k as int] == tabs[j as int],
        j < closed ==> tab_after_close_spec(CentralPanelTab::History(j), closed, remaining)
            == CentralPanelTab::History(j),
        j > closed ==> tab_after_close_spec(CentralPanelTab::History(j), closed, remaining)
            == CentralPanelTab::History((j - 1) as usize),
{
    let rest = tabs.remove(closed as int);
    if j < closed {
        assert(rest[j as int] == tabs[j as int]);
    } else {
        assert(rest[j - 1] == tabs[j as int]);
    }
}

/// Closing the shown tab shows its left neighbour, or the new first tab
/// when the first one was closed.
pub proof fn lemma_close_shown_tab(closed: usize, remaining: usize)
    requires
        remaining > 0,
        closed <= remaining,
    ensures
        tab_after_close_spec(CentralPanelTab::History(closed), closed, remaining) == CentralPanelTab::History(
            if closed == 0 {
                0
            } else {
                (closed - 1) as usize
            },
        ),
{
}

/// Closing a tab keeps the data table shown when it was, and shows the data
/// table once no history tab is left.
pub proof fn lemma_close_data_table(tab: CentralPanelTab, closed: usize, remaining: usize)
    ensures
        tab == CentralPanelTab::DataTable ==> tab_after_close_spec(tab, closed, remaining)
            == CentralPanelTab::DataTable,
        remaining == 0 ==> tab_after_close_spec(tab, closed, remaining) == CentralPanelTab::DataTable,
{
}

/// Dropping stale toasts twice at the same moment drops nothing more.
pub proof fn lemma_fresh_toasts_idempotent(ts: Seq<Toast>, now: u64)
    ensures
        fresh_toasts(fresh_toasts(ts, now), now) == fresh_toasts(ts, now),
        forall|i: int|
            0 <= i < fresh_toasts(ts, now).len() ==> toast_fresh(
                #[trigger] fresh_toasts(ts, now)[i].created_at,
                now,
            ),
    decreases ts.len(),
{
    if ts.len() > 0 {
        lemma_fresh_toasts_idempotent(ts.drop_last(), now);
        let r = fresh_toasts(ts.drop_last(), now);
        if toast_fresh(ts.last().created_at, now) {
            let t = r.push(ts.last());
            assert(t.drop_last() == r);
            assert forall|i: int| 0 <= i < t.len() implies toast_fresh(
                #[trigger] t[i].created_at,
                now,
            ) by {
                if i < r.len() {
                    assert(t[i] == r[i]);
                }
            }
        }
    }
}

} // verus!
