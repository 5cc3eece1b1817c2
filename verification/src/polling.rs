//! Decisions of the master backend's periodic pollers: per connection, the
//! last sequence number handed to the front end, whether a tick must fetch
//! monitored rows (all of them or only those changed since), and whether a
//! fetch is worth a snapshot event.  The timers, the fetches and the sending
//! stay with the caller.

use vstd::prelude::*;

use crate::conn_map::ConnMap;

verus! {

/// What a tick of the monitor poller does for one connection.
#[derive(Debug, Clone, Copy, PartialEq, Eq, Structural)]
pub enum MonitorFetch {
    /// Nothing changed since the last snapshot.
    Skip,
    /// Nothing was sent yet: fetch every monitored row (a full snapshot).
    All,
    /// Fetch the rows changed since the given sequence number (a partial snapshot).
    Since(u64),
}

/// Last sequence number seen per connection (0 when none).
pub struct SeqTracker {
    pub last: ConnMap<u64>,
}

/// The last sequence number recorded for `conn` in `m`, 0 when none.
pub open spec fn last_of(m: Map<Seq<char>, u64>, conn: Seq<char>) -> u64 {
    if m.contains_key(conn) {
        m[conn]
    } else {
        0
    }
}

/// What a tick does for a connection whose last recorded sequence number is
/// `last` and whose current one is `current`.
pub open spec fn fetch_for(last: u64, current: u64) -> MonitorFetch {
    if current == last {
        MonitorFetch::Skip
    } else if last == 0 {
        MonitorFetch::All
    } else {
        MonitorFetch::Since(last)
    }
}

impl SeqTracker {
    /// Well-formed: connection keys are distinct.
    pub open spec fn wf(&self) -> bool {
        self.last.wf()
    }

    /// Nothing recorded yet.
    pub fn new() -> (r: Self)
        ensures
            r.wf(),
            r.last@ == Map::<Seq<char>, u64>::empty(),
    {
        SeqTracker { last: ConnMap::new() }
    }

    /// The last sequence number recorded for `conn_id`, 0 when none.
    pub fn last_for(&self, conn_id: &str) -> (r: u64)
        requires
            self.wf(),
        ensures
            r == last_of(self.last@, conn_id@),
    {
        match self.last.get(conn_id) {
            Some(v) => *v,
            None => 0,
        }
    }

    /// Records `seq` as the last sequence number of `conn_id`.
    pub fn record(&mut self, conn_id: &str, seq: u64)
        requires
            old(self).wf(),
        ensures
            final(self).wf(),
            final(self).last@ == old(self).last@.insert(conn_id@, seq),
    {
        self.last.insert(String::from_str(conn_id), seq);
    }

    /// What the monitor poller fetches for `conn_id` when its current
    /// sequence number is `current_seq`: nothing when it is the one recorded,
    /// every row when nothing was recorded, else the rows changed since the
    /// recorded one.
    pub fn monitor_fetch(&self, conn_id: &str, current_seq: u64) -> (r: MonitorFetch)
        requires
            self.wf(),
        ensures
            r == fetch_for(last_of(self.last@, conn_id@), current_seq),
    {
        let last = self.last_for(conn_id);
        if current_seq == last {
            MonitorFetch::Skip
        } else if last == 0 {
            MonitorFetch::All
        } else {
            MonitorFetch::Since(last)
        }
    }

    /// After fetching `fetched` rows of `conn_id` for a full (`full`) or
    /// partial snapshot at sequence number `current_seq`: records the
    /// sequence number and tells whether a snapshot is to be sent — always
    /// for a full one, for a partial one only when it holds rows.
    pub fn monitor_fetched(&mut self, conn_id: &str, current_seq: u64, full: bool, fetched: usize) -> (send: bool)
        requires
            old(self).wf(),
        ensures
            final(self).wf(),
            final(self).last@ == old(self).last@.insert(conn_id@, current_seq),
            send == (full || fetched > 0),
    {
        self.record(conn_id, current_seq);
        full || fetched > 0
    }

    /// After the log poller fetched the entries of `conn_id` whose sequence
    /// numbers are `seqs`: when there are none, nothing is recorded and
    /// nothing is sent; else the largest of them is recorded and the entries
    /// are sent.
    pub fn log_fetched(&mut self, conn_id: &str, seqs: &Vec<u64>) -> (send: bool)
        requires
            old(self).wf(),
        ensures
            final(self).wf(),
            send == (seqs@.len() > 0),
            !send ==> final(self).last@ == old(self).last@,
            send ==> final(self).last@ == old(self).last@.insert(
                conn_id@,
                final(self).last@[conn_id@],
            ),
            send ==> seqs@.contains(final(self).last@[conn_id@]),
            send ==> forall|i: int| 0 <= i < seqs@.len() ==> seqs@[i] <= final(self).last@[conn_id@],
            send ==> final(self).last@[conn_id@] == seq_max(seqs@),
    {
        if seqs.len() == 0 {
            return false;
        }
        let mut newest: u64 = seqs[0];
        let mut i: usize = 1;
        while i < seqs.len()
            invariant
                1 <= i <= seqs@.len(),
                seqs@.contains(newest),
                forall|j: int| 0 <= j < i ==> seqs@[j] <= newest,
            decreases seqs@.len() - i,
        {
            if seqs[i] > newest {
                newest = seqs[i];
            }
            i = i + 1;
        }
        proof {
            lemma_seq_max(seqs@);
        }
        self.record(conn_id, newest);
        true
    }
}

/// Once a sequence number is recorded for a connection, a tick that finds
/// the same number fetches nothing: no snapshot is sent twice.
pub proof fn lemma_recorded_then_skip(m: Map<Seq<char>, u64>, conn: Seq<char>, seq: u64)
    ensures
        fetch_for(last_of(m.insert(conn, seq), conn), seq) == MonitorFetch::Skip,
{
}

/// The first snapshot of a connection is a full one, and every later one
/// asks for the changes since the number recorded last.
pub proof fn lemma_first_full_then_partial(m: Map<Seq<char>, u64>, conn: Seq<char>, seq: u64, next: u64)
    requires
        !m.contains_key(conn),
        seq != 0,
        next != seq,
    ensures
        next != 0 ==> fetch_for(last_of(m, conn), next) == MonitorFetch::All,
        fetch_for(last_of(m.insert(conn, seq), conn), next) == MonitorFetch::Since(seq),
{
}

/// What one tick of the monitor poller does for connection `conn` when its
/// current sequence number is `current` and a fetch brings `fetched` rows,
/// as `monitor_fetch` and then, unless it says skip, `monitor_fetched`
/// decide it: the new record, and `Some(full)` when a snapshot is sent.
pub open spec fn monitor_tick(m: Map<Seq<char>, u64>, conn: Seq<char>, current: u64, fetched: nat) -> (
    Map<Seq<char>, u64>,
    Option<bool>,
) {
    match fetch_for(last_of(m, conn), current) {
        MonitorFetch::Skip => (m, None),
        MonitorFetch::All => (m.insert(conn, current), Some(true)),
        MonitorFetch::Since(_) => (
            m.insert(conn, current),
            if fetched > 0 {
                Some(false)
            } else {
                None
            },
        ),
    }
}

/// The ticks `ticks` (current sequence number, rows fetched) of connection
/// `conn` in order, from record `m`: the final record and, for each snapshot
/// sent, whether it was full.
pub open spec fn monitor_run(m: Map<Seq<char>, u64>, conn: Seq<char>, ticks: Seq<(u64, nat)>) -> (
    Map<Seq<char>, u64>,
    Seq<bool>,
)
    decreases ticks.len(),
{
    if ticks.len() == 0 {
        (m, Seq::empty())
    } else {
        let prev = monitor_run(m, conn, ticks.drop_last());
        let step = monitor_tick(prev.0, conn, ticks.last().0, ticks.last().1);
        (
            step.0,
            match step.1 {
                Some(full) => prev.1.push(full),
                None => prev.1,
            },
        )
    }
}

proof fn lemma_monitor_run_shape(m: Map<Seq<char>, u64>, conn: Seq<char>, ticks: Seq<(u64, nat)>)
    requires
        !m.contains_key(conn),
        forall|i: int| 0 <= i < ticks.len() ==> (#[trigger] ticks[i]).0 != 0,
    ensures
        (monitor_run(m, conn, ticks).1.len() == 0) == (last_of(monitor_run(m, conn, ticks).0, conn) == 0),
        forall|i: int|
            0 <= i < monitor_run(m, conn, ticks).1.len() ==> #[trigger] monitor_run(m, conn, ticks).1[i]
                == (i == 0),
    decreases ticks.len(),
{
    if ticks.len() > 0 {
        let pre = ticks.drop_last();
        assert forall|i: int| 0 <= i < pre.len() implies (#[trigger] pre[i]).0 != 0 by {
            assert(pre[i] == ticks[i]);
        }
        lemma_monitor_run_shape(m, conn, pre);
        assert(ticks.last() == ticks[ticks.len() - 1]);
    }
}

/// Over any run of ticks of a connection for which nothing was recorded,
/// whose sequence numbers are never 0, the first snapshot sent is a full
/// one and every later snapshot is partial.
pub proof fn lemma_monitor_full_then_partial(m: Map<Seq<char>, u64>, conn: Seq<char>, ticks: Seq<(u64, nat)>)
    requires
        !m.contains_key(conn),
        forall|i: int| 0 <= i < ticks.len() ==> (#[trigger] ticks[i]).0 != 0,
    ensures
        forall|i: int|
            0 <= i < monitor_run(m, conn, ticks).1.len() ==> #[trigger] monitor_run(m, conn, ticks).1[i]
                == (i == 0),
{
    lemma_monitor_run_shape(m, conn, ticks);
}

/// The largest of `s` (0 for the empty sequence).
pub open spec fn seq_max(s: Seq<u64>) -> u64
    decreases s.len(),
{
    if s.len() == 0 {
        0
    } else if s.len() == 1 {
        s[0]
    } else {
        let m = seq_max(s.drop_last());
        if s.last() > m {
            s.last()
        } else {
            m
        }
    }
}

/// A non-empty sequence holds its largest element, and no element exceeds it.
pub proof fn lemma_seq_max(s: Seq<u64>)
    requires
        s.len() > 0,
    ensures
        s.contains(seq_max(s)),
        forall|i: int| 0 <= i < s.len() ==> s[i] <= seq_max(s),
    decreases s.len(),
{
    if s.len() > 1 {
        let p = s.drop_last();
        lemma_seq_max(p);
        let j = choose|j: int| 0 <= j < p.len() && p[j] == seq_max(p);
        assert(s[j] == p[j]);
        assert forall|i: int| 0 <= i < s.len() implies s[i] <= seq_max(s) by {
            if i < p.len() {
                assert(s[i] == p[i]);
            }
        }
        if s.last() > seq_max(p) {
            assert(s[s.len() - 1] == s.last());
        }
    } else {
        assert(s[0] == seq_max(s));
    }
}

/// The entries of the log `log` (by sequence number, in order) newer than
/// `last`: what the log collector hands out when asked for those after `last`.
pub open spec fn entries_after(log: Seq<u64>, last: u64) -> Seq<u64>
    decreases log.len(),
{
    if log.len() == 0 {
        log
    } else {
        let r = entries_after(log.drop_last(), last);
        if log.last() > last {
            r.push(log.last())
        } else {
            r
        }
    }
}

proof fn lemma_entries_after(log: Seq<u64>, last: u64)
    requires
        log.no_duplicates(),
    ensures
        entries_after(log, last).no_duplicates(),
        forall|i: int| 0 <= i < entries_after(log, last).len() ==> #[trigger] entries_after(log, last)[i] > last,
        forall|i: int|
            0 <= i < entries_after(log, last).len() ==> log.contains(#[trigger] entries_after(log, last)[i]),
    decreases log.len(),
{
    if log.len() > 0 {
        let p = log.drop_last();
        assert(p.no_duplicates()) by {
            assert forall|a: int, b: int| 0 <= a < p.len() && 0 <= b < p.len() && a != b implies p[a] != p[b] by {
                assert(p[a] == log[a] && p[b] == log[b]);
            }
        }
        lemma_entries_after(p, last);
        let r = entries_after(p, last);
        assert forall|i: int| 0 <= i < r.len() implies log.contains(#[trigger] r[i]) by {
            let j = choose|j: int| 0 <= j < p.len() && p[j] == r[i];
            assert(log[j] == p[j]);
        }
        if log.last() > last {
            let t = r.push(log.last());
            assert(!r.contains(log.last())) by {
                if r.contains(log.last()) {
                    let i = choose|i: int| 0 <= i < r.len() && r[i] == log.last();
                    let j = choose|j: int| 0 <= j < p.len() && p[j] == r[i];
                    assert(log[j] == log[log.len() - 1]);
                }
            }
            assert forall|a: int, b: int| 0 <= a < t.len() && 0 <= b < t.len() && a != b implies t[a] != t[b] by {
                if a < r.len() && b < r.len() {
                    assert(t[a] == r[a] && t[b] == r[b]);
                } else if a < r.len() {
                    assert(t[a] == r[a]);
                } else {
                    assert(t[b] == r[b]);
                }
            }
            assert forall|i: int| 0 <= i < t.len() implies log.contains(#[trigger] t[i]) by {
                if i < r.len() {
                    assert(t[i] == r[i]);
                } else {
                    assert(log[log.len() - 1] == t[i]);
                }
            }
        }
    }
}

/// One tick of the log poller for connection `conn` whose collector holds
/// the entries `log`, as `log_fetched` decides it: the entries newer than the
/// one recorded are fetched; when there are any, they are sent and the
/// newest of them is recorded.  The new record and the entries sent.
pub open spec fn log_tick(m: Map<Seq<char>, u64>, conn: Seq<char>, log: Seq<u64>) -> (
    Map<Seq<char>, u64>,
    Seq<u64>,
) {
    let batch = entries_after(log, last_of(m, conn));
    if batch.len() == 0 {
        (m, batch)
    } else {
        (m.insert(conn, seq_max(batch)), batch)
    }
}

/// The ticks of the log poller for connection `conn` in order, its
/// collector holding `logs[i]` at tick `i`, from record `m`: the final
/// record and every entry sent, in order.
pub open spec fn log_run(m: Map<Seq<char>, u64>, conn: Seq<char>, logs: Seq<Seq<u64>>) -> (
    Map<Seq<char>, u64>,
    Seq<u64>,
)
    decreases logs.len(),
{
    if logs.len() == 0 {
        (m, Seq::empty())
    } else {
        let prev = log_run(m, conn, logs.drop_last());
        let step = log_tick(prev.0, conn, logs.last());
        (step.0, prev.1 + step.1)
    }
}

proof fn lemma_log_run_shape(m: Map<Seq<char>, u64>, conn: Seq<char>, logs: Seq<Seq<u64>>)
    requires
        forall|i: int| 0 <= i < logs.len() ==> (#[trigger] logs[i]).no_duplicates(),
    ensures
        log_run(m, conn, logs).1.no_duplicates(),
        forall|i: int|
            0 <= i < log_run(m, conn, logs).1.len() ==> #[trigger] log_run(m, conn, logs).1[i] <= last_of(
                log_run(m, conn, logs).0,
                conn,
            ),
        last_of(m, conn) <= last_of(log_run(m, conn, logs).0, conn),
    decreases logs.len(),
{
    if logs.len() > 0 {
        let pre = logs.drop_last();
        assert forall|i: int| 0 <= i < pre.len() implies (#[trigger] pre[i]).no_duplicates() by {
            assert(pre[i] == logs[i]);
        }
        lemma_log_run_shape(m, conn, pre);
        let prev = log_run(m, conn, pre);
        let last = last_of(prev.0, conn);
        let log = logs.last();
        assert(log == logs[logs.len() - 1]);
        lemma_entries_after(log, last);
        let batch = entries_after(log, last);
        let sent = prev.1 + batch;
        if batch.len() > 0 {
            lemma_seq_max(batch);
            let j = choose|j: int| 0 <= j < batch.len() && batch[j] == seq_max(batch);
            assert(batch[j] > last);
        }
        let now = log_run(m, conn, logs);
        assert(now.1 == sent);
        assert forall|i: int| 0 <= i < sent.len() implies #[trigger] sent[i] <= last_of(now.0, conn) by {
            if i < prev.1.len() {
                assert(sent[i] == prev.1[i]);
            } else {
                assert(sent[i] == batch[i - prev.1.len()]);
            }
        }
        assert forall|a: int, b: int| 0 <= a < sent.len() && 0 <= b < sent.len() && a != b implies sent[a]
            != sent[b] by {
            if a < prev.1.len() && b < prev.1.len() {
                assert(sent[a] == prev.1[a] && sent[b] == prev.1[b]);
            } else if a >= prev.1.len() && b >= prev.1.len() {
                assert(sent[a] == batch[a - prev.1.len()] && sent[b] == batch[b - prev.1.len()]);
            } else if a < prev.1.len() {
                assert(sent[a] == prev.1[a] && sent[b] == batch[b - prev.1.len()]);
            } else {
                assert(sent[b] == prev.1[b] && sent[a] == batch[a - prev.1.len()]);
            }
        }
    }
}

/// Over any run of ticks of the log poller, as long as the collector never
/// holds the same entry twice, no entry is sent twice, and every batch sent
/// holds entries: an empty batch sends nothing.
pub proof fn lemma_log_no_entry_twice(m: Map<Seq<char>, u64>, conn: Seq<char>, logs: Seq<Seq<u64>>)
    requires
        forall|i: int| 0 <= i < logs.len() ==> (#[trigger] logs[i]).no_duplicates(),
    ensures
        log_run(m, conn, logs).1.no_duplicates(),
        forall|log: Seq<u64>| #[trigger] log_tick(m, conn, log).1.len() == 0 ==> log_tick(m, conn, log).0 == m,
{
    lemma_log_run_shape(m, conn, logs);
}

} // verus!
