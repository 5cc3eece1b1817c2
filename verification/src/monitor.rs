//! The master's monitoring table: per-connection rows of monitored nodes in
//! arrival order, the search filter over them, snapshot updates, removal of
//! the selected rows and click selection.

use vstd::prelude::*;

use indexmap::IndexMap;

use crate::conn_map::ConnMap;
use crate::master_events::MonitoredRow;
use crate::text;

verus! {

#[verifier::external_type_specification]
#[verifier::external_body]
#[verifier::reject_recursive_types(K)]
#[verifier::reject_recursive_types(V)]
#[verifier::reject_recursive_types(S)]
pub struct ExIndexMap<K, V, S>(IndexMap<K, V, S>);

/// The entries of a row map, in the map's order: each key's characters with its row.
pub uninterp spec fn row_entries(m: IndexMap<String, MonitoredRow>) -> Seq<(Seq<char>, MonitoredRow)>;

/// No key occurs twice in `s`.
pub open spec fn keys_distinct(s: Seq<(Seq<char>, MonitoredRow)>) -> bool {
    forall|i: int, j: int| 0 <= i < s.len() && 0 <= j < s.len() && i != j ==> s[i].0 != s[j].0
}

/// Position of the entry with key `k` in `s`, or `-1` when there is none.
pub open spec fn pos_of(s: Seq<(Seq<char>, MonitoredRow)>, k: Seq<char>) -> int {
    if exists|i: int| 0 <= i < s.len() && s[i].0 == k {
        choose|i: int| 0 <= i < s.len() && s[i].0 == k
    } else {
        -1
    }
}

/// `IndexMap::new`: an empty map.
#[verifier::external_body]
fn rows_new() -> (r: IndexMap<String, MonitoredRow>)
    ensures
        row_entries(r) == Seq::<(Seq<char>, MonitoredRow)>::empty(),
{
    IndexMap::new()
}

/// `IndexMap::clear`: removes every entry.
#[verifier::external_body]
fn rows_clear(m: &mut IndexMap<String, MonitoredRow>)
    ensures
        row_entries(*final(m)) == Seq::<(Seq<char>, MonitoredRow)>::empty(),
{
    m.clear()
}

/// `IndexMap::len`: the number of entries.
#[verifier::external_body]
fn rows_len(m: &IndexMap<String, MonitoredRow>) -> (r: usize)
    ensures
        r == row_entries(*m).len(),
{
    m.len()
}

/// `IndexMap::insert`: a present key keeps its place and takes the new row,
/// whose old value is returned; a new key is appended last.
#[verifier::external_body]
fn rows_insert(m: &mut IndexMap<String, MonitoredRow>, key: String, value: MonitoredRow) -> (r:
    Option<MonitoredRow>)
    requires
        keys_distinct(row_entries(*old(m))),
    ensures
        keys_distinct(row_entries(*final(m))),
        pos_of(row_entries(*old(m)), key@) >= 0 ==> {
            &&& row_entries(*final(m)) == row_entries(*old(m)).update(
                pos_of(row_entries(*old(m)), key@),
                (key@, value),
            )
            &&& r == Some(row_entries(*old(m))[pos_of(row_entries(*old(m)), key@)].1)
        },
        pos_of(row_entries(*old(m)), key@) < 0 ==> {
            &&& row_entries(*final(m)) == row_entries(*old(m)).push((key@, value))
            &&& r is None
        },
{
    m.insert(key, value)
}

/// `IndexMap::shift_remove`: removes the entry with key `key`, keeping the
/// order of the others, and returns its row.
#[verifier::external_body]
fn rows_shift_remove(m: &mut IndexMap<String, MonitoredRow>, key: &str) -> (r: Option<
    MonitoredRow,
>)
    requires
        keys_distinct(row_entries(*old(m))),
    ensures
        keys_distinct(row_entries(*final(m))),
        pos_of(row_entries(*old(m)), key@) >= 0 ==> {
            &&& row_entries(*final(m)) == row_entries(*old(m)).remove(
                pos_of(row_entries(*old(m)), key@),
            )
            &&& r == Some(row_entries(*old(m))[pos_of(row_entries(*old(m)), key@)].1)
        },
        pos_of(row_entries(*old(m)), key@) < 0 ==> {
            &&& row_entries(*final(m)) == row_entries(*old(m))
            &&& r is None
        },
{
    m.shift_remove(key)
}

/// `IndexMap::get_index`: the entry at position `i`, if there is one.
#[verifier::external_body]
fn rows_get_index(m: &IndexMap<String, MonitoredRow>, i: usize) -> (r: Option<
    (&String, &MonitoredRow),
>)
    ensures
        i < row_entries(*m).len() ==> {
            &&& r is Some
            &&& r.unwrap().0@ == row_entries(*m)[i as int].0
            &&& *r.unwrap().1 == row_entries(*m)[i as int].1
        },
        i >= row_entries(*m).len() ==> r is None,
{
    m.get_index(i)
}

/// `IndexMap::get`: the row stored under `key`, if any.
#[verifier::external_body]
fn rows_get<'a>(m: &'a IndexMap<String, MonitoredRow>, key: &str) -> (r: Option<&'a MonitoredRow>)
    requires
        keys_distinct(row_entries(*m)),
    ensures
        pos_of(row_entries(*m), key@) >= 0 ==> r == Some(
            &row_entries(*m)[pos_of(row_entries(*m), key@)].1,
        ),
        pos_of(row_entries(*m), key@) < 0 ==> r is None,
{
    m.get(key)
}

/// The text a row is searched in: node id, display name and value (empty
/// when absent), separated by single spaces.
pub open spec fn row_haystack(row: MonitoredRow) -> Seq<char> {
    row.node_id@ + seq![' '] + row.display_name@ + seq![' '] + match row.value {
        Some(v) => v@,
        None => Seq::<char>::empty(),
    }
}

/// Whether `row` is listed for the lower-cased search text `needle`: always
/// for an empty needle, else when the lower-cased haystack contains it.
pub open spec fn row_listed(row: MonitoredRow, needle: Seq<char>) -> bool {
    needle.len() == 0 || text::contains(text::lowercase(row_haystack(row)), needle)
}

/// Keys, in map order, of the entries of `s` listed for `needle`.
pub open spec fn listed_keys(s: Seq<(Seq<char>, MonitoredRow)>, needle: Seq<char>) -> Seq<
    Seq<char>,
>
    decreases s.len(),
{
    if s.len() == 0 {
        Seq::empty()
    } else {
        let prev = listed_keys(s.drop_last(), needle);
        if row_listed(s.last().1, needle) {
            prev.push(s.last().0)
        } else {
            prev
        }
    }
}

/// The characters of each string of `v`.
pub open spec fn texts_of(v: Seq<String>) -> Seq<Seq<char>> {
    v.map_values(|x: String| x@)
}

/// Monitored rows of one connection and the sequence number of the last snapshot.
pub struct MonitorPerConn {
    pub rows: IndexMap<String, MonitoredRow>,
    pub seq: u64,
}

impl MonitorPerConn {
    /// Well-formed: no node id occurs twice.
    pub open spec fn wf(&self) -> bool {
        keys_distinct(row_entries(self.rows))
    }
}

impl Default for MonitorPerConn {
    fn default() -> (r: Self)
        ensures
            r.wf(),
            row_entries(r.rows) == Seq::<(Seq<char>, MonitoredRow)>::empty(),
            r.seq == 0,
    {
        MonitorPerConn { rows: rows_new(), seq: 0 }
    }
}

/// The rows monitored on `conn`, in arrival order (none for an unknown connection).
pub open spec fn rows_of(per_conn: Map<Seq<char>, MonitorPerConn>, conn: Seq<char>) -> Seq<
    (Seq<char>, MonitoredRow),
> {
    if per_conn.contains_key(conn) {
        row_entries(per_conn[conn].rows)
    } else {
        Seq::empty()
    }
}

/// State of the monitoring table.
pub struct MonitorState {
    pub per_conn: ConnMap<MonitorPerConn>,
    pub search: String,
    /// Selected node ids (the values carry nothing).
    pub selected_rows: ConnMap<()>,
    pub focused_row: Option<String>,
    pub filter_dirty: bool,
    /// Node ids of the selected connection's rows that pass the search.
    pub filtered_cache: Vec<String>,
    pub last_conn_for_filter: Option<String>,
    pub last_search_for_filter: String,
    /// Position in `filtered_cache` of the last plain or Ctrl click; the
    /// anchor of Shift ranges.
    pub last_clicked_filtered_idx: Option<usize>,
}

impl MonitorState {
    /// Well-formed: connection keys and selected ids are distinct, and no
    /// connection's rows repeat a node id.
    pub open spec fn wf(&self) -> bool {
        &&& self.per_conn.wf()
        &&& self.selected_rows.wf()
        &&& forall|k: Seq<char>| #[trigger] self.per_conn@.contains_key(k) ==> self.per_conn@[k].wf()
    }

    /// Whether the cache must be rebuilt for `conn`: it is marked dirty, or
    /// was built for another connection or another search text.
    pub open spec fn needs_rebuild(&self, conn: Seq<char>) -> bool {
        ||| self.filter_dirty
        ||| !(self.last_conn_for_filter matches Some(c) && c@ == conn)
        ||| self.last_search_for_filter@ != self.search@
    }
}

impl Default for MonitorState {
    fn default() -> (r: Self)
        ensures
            r.wf(),
            r.per_conn@ == Map::<Seq<char>, MonitorPerConn>::empty(),
            r.search@.len() == 0,
            r.selected_rows@ == Map::<Seq<char>, ()>::empty(),
            r.focused_row is None,
            !r.filter_dirty,
            r.filtered_cache@.len() == 0,
            r.last_conn_for_filter is None,
            r.last_search_for_filter@.len() == 0,
            r.last_clicked_filtered_idx is None,
    {
        MonitorState {
            per_conn: ConnMap::new(),
            search: String::new(),
            selected_rows: ConnMap::new(),
            focused_row: None,
            filter_dirty: false,
            filtered_cache: Vec::new(),
            last_conn_for_filter: None,
            last_search_for_filter: String::new(),
            last_clicked_filtered_idx: None,
        }
    }
}

/// Whether `row` is listed for the lower-cased search text `needle`.
fn row_listed_exec(row: &MonitoredRow, needle: &Vec<char>) -> (r: bool)
    ensures
        r == row_listed(*row, needle@),
{
    if needle.len() == 0 {
        return true;
    }
    let mut hay: Vec<char> = Vec::new();
    text::push_str_chars(&mut hay, row.node_id.as_str());
    hay.push(' ');
    text::push_str_chars(&mut hay, row.display_name.as_str());
    hay.push(' ');
    match &row.value {
        Some(v) => text::push_str_chars(&mut hay, v.as_str()),
        None => {},
    }
    assert(hay@ == row_haystack(*row));
    let hay_s = text::string_from_chars(&hay);
    let lower = text::chars_of(text::to_lowercase(hay_s.as_str()).as_str());
    text::contains_exec(&lower, needle)
}

impl MonitorState {
    /// Rebuilds `filtered_cache` for connection `conn_id` when it is dirty
    /// or was built for another connection or search text: the node ids of
    /// that connection's rows, in table order, whose `"{node id} {name}
    /// {value}"` contains the trimmed search text case-insensitively (all
    /// rows for a blank search).  Returns the cache.
    pub fn ensure_filter(&mut self, conn_id: &str) -> (r: &[String])
        requires
            old(self).wf(),
        ensures
            r@ == final(self).filtered_cache@,
            !old(self).needs_rebuild(conn_id@) ==> *final(self) == *old(self),
            old(self).needs_rebuild(conn_id@) ==> {
                &&& texts_of(final(self).filtered_cache@) == listed_keys(
                    rows_of(old(self).per_conn@, conn_id@),
                    text::lowercase(text::trim(old(self).search@)),
                )
                &&& final(self).last_conn_for_filter matches Some(c) && c@ == conn_id@
                &&& final(self).last_search_for_filter@ == old(self).search@
                &&& !final(self).filter_dirty
                &&& final(self).per_conn == old(self).per_conn
                &&& final(self).search == old(self).search
                &&& final(self).selected_rows == old(self).selected_rows
                &&& final(self).focused_row == old(self).focused_row
                &&& final(self).last_clicked_filtered_idx == old(self).last_clicked_filtered_idx
            },
            old(self).needs_rebuild(conn_id@) && text::is_blank(old(self).search@) ==> texts_of(
                final(self).filtered_cache@,
            ) == entry_keys(rows_of(old(self).per_conn@, conn_id@)),
            final(self).wf(),
            !final(self).needs_rebuild(conn_id@),
    {
        let needs = self.filter_dirty || match &self.last_conn_for_filter {
            Some(c) => !text::str_eq(c.as_str(), conn_id),
            None => true,
        } || !text::str_eq(self.last_search_for_filter.as_str(), self.search.as_str());
        if needs {
            let trimmed = text::trim_string(self.search.as_str());
            let needle_s = text::to_lowercase(trimmed.as_str());
            let needle = text::chars_of(needle_s.as_str());
            let ghost needle_v = text::lowercase(text::trim(self.search@));
            proof {
                if text::is_blank(self.search@) {
                    assert(needle_v.len() == 0);
                    assert(needle_v == Seq::<char>::empty());
                    lemma_blank_search_lists_all(rows_of(self.per_conn@, conn_id@));
                }
            }
            let mut out: Vec<String> = Vec::new();
            match self.per_conn.get(conn_id) {
                Some(per) => {
                    let ghost es = row_entries(per.rows);
                    let n = rows_len(&per.rows);
                    let mut i: usize = 0;
                    while i < n
                        invariant
                            i <= n,
                            n == es.len(),
                            es == row_entries(per.rows),
                            needle@ == needle_v,
                            texts_of(out@) == listed_keys(es.take(i as int), needle_v),
                        decreases n - i,
                    {
                        match rows_get_index(&per.rows, i) {
                            Some((k, row)) => {
                                let listed = row_listed_exec(row, &needle);
                                assert(es.take(i + 1).drop_last() == es.take(i as int));
                                if listed {
                                    out.push(k.clone());
                                    assert(texts_of(out@) =~= listed_keys(
                                        es.take(i as int),
                                        needle_v,
                                    ).push(k@));
                                }
                            },
                            None => {},
                        }
                        i = i + 1;
                    }
                    assert(es.take(es.len() as int) == es);
                },
                None => {
                    assert(texts_of(out@) =~= Seq::<Seq<char>>::empty());
                },
            }
            self.filtered_cache = out;
            self.last_conn_for_filter = Some(String::from_str(conn_id));
            self.last_search_for_filter = self.search.clone();
            self.filter_dirty = false;
        }
        self.filtered_cache.as_slice()
    }
}

/// Node ids of the filtered rows at positions `lo..=hi` (those that exist).
pub open spec fn range_ids(filtered: Seq<String>, lo: int, hi: int) -> Set<Seq<char>> {
    Set::new(|x: Seq<char>| exists|k: int| lo <= k <= hi && 0 <= k < filtered.len() && filtered[k]@ == x)
}

/// The smaller of two positions.
pub open spec fn lo_of(a: usize, b: usize) -> int {
    if a <= b { a as int } else { b as int }
}

/// The larger of two positions.
pub open spec fn hi_of(a: usize, b: usize) -> int {
    if a <= b { b as int } else { a as int }
}

/// What a click on the row with id `node` at position `idx` of the filtered
/// rows does to the selection, its anchor and the focus, from `m0` to `m1`.
/// Shift with an anchor selects the rows between anchor and click (added to
/// the selection when Ctrl is held, replacing it otherwise) and keeps the
/// anchor; Shift without an anchor adds the row and keeps the (absent)
/// anchor.  Ctrl alone toggles the row, a plain click selects only the row;
/// both make the click the anchor.  The row is focused in every case.
pub open spec fn row_click_applied(
    m0: MonitorState,
    m1: MonitorState,
    idx: usize,
    node: Seq<char>,
    ctrl: bool,
    shift: bool,
) -> bool {
    let d0 = m0.selected_rows@.dom();
    let d1 = m1.selected_rows@.dom();
    &&& m1.focused_row matches Some(f) && f@ == node
    &&& shift ==> m1.last_clicked_filtered_idx == m0.last_clicked_filtered_idx
    &&& !shift ==> m1.last_clicked_filtered_idx == Some(idx)
    &&& shift && m0.last_clicked_filtered_idx is Some ==> {
        let a = m0.last_clicked_filtered_idx->0;
        let base = if ctrl { d0 } else { Set::empty() };
        d1 == base.union(range_ids(m0.filtered_cache@, lo_of(a, idx), hi_of(a, idx)))
    }
    &&& shift && m0.last_clicked_filtered_idx is None ==> d1 == d0.insert(node)
    &&& !shift && ctrl ==> d1 == if d0.contains(node) {
        d0.remove(node)
    } else {
        d0.insert(node)
    }
    &&& !shift && !ctrl ==> d1 == set![node]
}

/// The keys of `s`, in order.
pub open spec fn item_keys(s: Seq<(String, ())>) -> Seq<Seq<char>> {
    s.map_values(|e: (String, ())| e.0@)
}

/// `s` after storing `v` under `k`: in place when `k` is present, else appended.
pub open spec fn upsert(s: Seq<(Seq<char>, MonitoredRow)>, k: Seq<char>, v: MonitoredRow) -> Seq<
    (Seq<char>, MonitoredRow),
> {
    if pos_of(s, k) >= 0 {
        s.update(pos_of(s, k), (k, v))
    } else {
        s.push((k, v))
    }
}

/// `s` after storing each row of `rows`, in order, under its node id.
pub open spec fn upsert_rows(s: Seq<(Seq<char>, MonitoredRow)>, rows: Seq<MonitoredRow>) -> Seq<
    (Seq<char>, MonitoredRow),
>
    decreases rows.len(),
{
    if rows.len() == 0 {
        s
    } else {
        upsert(upsert_rows(s, rows.drop_last()), rows.last().node_id@, rows.last())
    }
}

/// `s` after removing, one after the other, the entries keyed by `ks`.
pub open spec fn remove_each(s: Seq<(Seq<char>, MonitoredRow)>, ks: Seq<Seq<char>>) -> Seq<
    (Seq<char>, MonitoredRow),
>
    decreases ks.len(),
{
    if ks.len() == 0 {
        s
    } else {
        let t = remove_each(s, ks.drop_last());
        if pos_of(t, ks.last()) >= 0 {
            t.remove(pos_of(t, ks.last()))
        } else {
            t
        }
    }
}

/// `new` is the table state `old` after a (`full` or partial) snapshot `rows` of connection `conn` at sequence number `seq`.
pub open spec fn snapshot_applied(old: MonitorState, new: MonitorState, conn: Seq<char>, seq: u64, full: bool, rows: Seq<MonitoredRow>) -> bool {
    &&& new.per_conn@.dom() == old.per_conn@.dom().insert(conn)
    &&& forall|k: Seq<char>|
        k != conn && #[trigger] old.per_conn@.contains_key(k) ==> new.per_conn@[k] == old.per_conn@[k]
    &&& row_entries(new.per_conn@[conn].rows) == upsert_rows(
        if full {
            Seq::empty()
        } else {
            rows_of(old.per_conn@, conn)
        },
        rows
    )
    &&& new.per_conn@[conn].seq == seq
    &&& new.filter_dirty
    &&& new.search == old.search
    &&& new.selected_rows == old.selected_rows
    &&& new.focused_row == old.focused_row
    &&& new.filtered_cache == old.filtered_cache
    &&& new.last_conn_for_filter == old.last_conn_for_filter
    &&& new.last_search_for_filter == old.last_search_for_filter
    &&& new.last_clicked_filtered_idx == old.last_clicked_filtered_idx
}

impl MonitorState {
    /// Applies a snapshot of `conn_id`'s monitored rows: a full snapshot
    /// replaces the rows, a partial one updates or appends them; each row is
    /// keyed by its node id.  Records `seq` and marks the cache dirty.
    pub fn apply_monitored_snapshot(
        &mut self,
        conn_id: &str,
        seq: u64,
        full: bool,
        rows: Vec<MonitoredRow>,
    )
        requires
            old(self).wf(),
        ensures
            final(self).wf(),
            snapshot_applied(*old(self), *final(self), conn_id@, seq, full, rows@),
    {
        let mut per = match self.per_conn.remove(conn_id) {
            Some(p) => p,
            None => MonitorPerConn::default(),
        };
        if full {
            rows_clear(&mut per.rows);
        }
        let ghost base = row_entries(per.rows);
        assert(base == if full {
            Seq::empty()
        } else {
            rows_of(old(self).per_conn@, conn_id@)
        });
        let ghost rs = rows@;
        for row in it: rows.into_iter()
            invariant
                it.seq() == rs,
                keys_distinct(row_entries(per.rows)),
                row_entries(per.rows) == upsert_rows(base, rs.take(it.index() as int)),
        {
            let key = row.node_id.clone();
            let _ = rows_insert(&mut per.rows, key, row);
            assert(rs.take(it.index() + 1).drop_last() == rs.take(it.index() as int));
        }
        assert(rs.take(rs.len() as int) == rs);
        per.seq = seq;
        self.per_conn.insert(String::from_str(conn_id), per);
        self.filter_dirty = true;
        assert(self.per_conn@.dom() =~= old(self).per_conn@.dom().insert(conn_id@));
    }

    /// Removes the selected rows from `conn_id`'s table, clears the selection
    /// and marks the cache dirty: the table keeps exactly its unselected rows,
    /// in order.  Returns the removed node ids, each once, to be unsubscribed.
    pub fn remove_selected_rows(&mut self, conn_id: &str) -> (ids: Vec<String>)
        requires
            old(self).wf(),
        ensures
            final(self).wf(),
            texts_of(ids@).to_set() == old(self).selected_rows@.dom(),
            texts_of(ids@).no_duplicates(),
            old(self).per_conn@.contains_key(conn_id@) ==> {
                &&& final(self).per_conn@.dom() == old(self).per_conn@.dom()
                &&& row_entries(final(self).per_conn@[conn_id@].rows) == without_keys(
                    rows_of(old(self).per_conn@, conn_id@),
                    old(self).selected_rows@.dom(),
                )
                &&& final(self).per_conn@[conn_id@].seq == old(self).per_conn@[conn_id@].seq
            },
            !old(self).per_conn@.contains_key(conn_id@) ==> final(self).per_conn@ == old(self).per_conn@,
            forall|k: Seq<char>|
                k != conn_id@ && #[trigger] old(self).per_conn@.contains_key(k) ==> final(self).per_conn@[k] == old(self).per_conn@[k],
            final(self).selected_rows@ == Map::<Seq<char>, ()>::empty(),
            final(self).filter_dirty,
            final(self).search == old(self).search,
            final(self).focused_row == old(self).focused_row,
            final(self).filtered_cache == old(self).filtered_cache,
            final(self).last_conn_for_filter == old(self).last_conn_for_filter,
            final(self).last_search_for_filter == old(self).last_search_for_filter,
            final(self).last_clicked_filtered_idx == old(self).last_clicked_filtered_idx,
    {
        let ghost sel = self.selected_rows.items@;
        let mut ids: Vec<String> = Vec::new();
        let mut i: usize = 0;
        while i < self.selected_rows.items.len()
            invariant
                i <= self.selected_rows.items.len(),
                sel == self.selected_rows.items@,
                texts_of(ids@) == item_keys(sel.take(i as int)),
            decreases self.selected_rows.items.len() - i,
        {
            let id = self.selected_rows.items[i].0.clone();
            assert(id@ == sel[i as int].0@);
            let ghost before = ids@;
            ids.push(id);
            assert(ids@ == before.push(id));
            assert(texts_of(before).len() == before.len());
            assert(item_keys(sel.take(i as int)).len() == i);
            assert(before.len() == i);
            assert(ids@.len() == i + 1);
            assert forall|a: int| 0 <= a < i + 1 implies #[trigger] texts_of(ids@)[a] == item_keys(sel.take(i + 1))[a] by {
                assert(texts_of(ids@)[a] == ids@[a]@);
                assert(item_keys(sel.take(i + 1))[a] == sel.take(i + 1)[a].0@);
                assert(sel.take(i + 1)[a] == sel[a]);
                if a < i {
                    assert(ids@[a] == before[a]);
                    assert(texts_of(before)[a] == before[a]@);
                    assert(item_keys(sel.take(i as int))[a] == sel.take(i as int)[a].0@);
                    assert(texts_of(before)[a] == item_keys(sel.take(i as int))[a]);
                } else {
                    assert(ids@[a] == id);
                }
            }
            assert(texts_of(ids@) =~= item_keys(sel.take(i + 1)));
            i = i + 1;
        }
        assert(sel.take(sel.len() as int) == sel);
        assert(texts_of(ids@) =~= item_keys(sel));
        assert forall|x: Seq<char>| texts_of(ids@).to_set().contains(x) == old(self).selected_rows@.dom().contains(x) by {
            if texts_of(ids@).to_set().contains(x) {
                let a = choose|a: int| 0 <= a < texts_of(ids@).len() && texts_of(ids@)[a] == x;
                assert(sel[a].0@ == x);
                assert(crate::conn_map::has_key(sel, x));
            }
            if old(self).selected_rows@.dom().contains(x) {
                assert(crate::conn_map::has_key(sel, x));
                let a = choose|a: int| 0 <= a < sel.len() && sel[a].0@ == x;
                assert(texts_of(ids@)[a] == x);
            }
        }
        assert(texts_of(ids@).to_set() =~= old(self).selected_rows@.dom());
        assert forall|a: int, b: int|
            0 <= a < texts_of(ids@).len() && 0 <= b < texts_of(ids@).len() && a != b implies texts_of(ids@)[a] != texts_of(ids@)[b] by {
            assert(texts_of(ids@)[a] == sel[a].0@);
            assert(texts_of(ids@)[b] == sel[b].0@);
        }
        match self.per_conn.remove(conn_id) {
            Some(mut per) => {
                let ghost base = row_entries(per.rows);
                let mut j: usize = 0;
                while j < ids.len()
                    invariant
                        j <= ids.len(),
                        keys_distinct(row_entries(per.rows)),
                        row_entries(per.rows) == remove_each(base, texts_of(ids@).take(j as int)),
                        per.seq == old(self).per_conn@[conn_id@].seq,
                    decreases ids.len() - j,
                {
                    let _ = rows_shift_remove(&mut per.rows, ids[j].as_str());
                    assert(texts_of(ids@).take(j + 1).drop_last() == texts_of(ids@).take(j as int));
                    assert(texts_of(ids@).take(j + 1).last() == ids@[j as int]@);
                    j = j + 1;
                }
                assert(texts_of(ids@).take(ids.len() as int) == texts_of(ids@));
                proof {
                    lemma_remove_each_is_without_keys(base, texts_of(ids@));
                }
                self.per_conn.insert(String::from_str(conn_id), per);
                assert(self.per_conn@.dom() =~= old(self).per_conn@.dom());
            },
            None => {
                assert(self.per_conn@ =~= old(self).per_conn@);
            },
        }
        self.selected_rows = ConnMap::new();
        self.filter_dirty = true;
        ids
    }

    /// The row of node `node_id` in connection `conn_id`'s table, if any.
    pub fn row_of(&self, conn_id: &str, node_id: &str) -> (r: Option<&MonitoredRow>)
        requires
            self.wf(),
        ensures
            pos_of(rows_of(self.per_conn@, conn_id@), node_id@) >= 0 ==> r == Some(
                &rows_of(self.per_conn@, conn_id@)[pos_of(rows_of(self.per_conn@, conn_id@), node_id@)].1,
            ),
            pos_of(rows_of(self.per_conn@, conn_id@), node_id@) < 0 ==> r is None,
    {
        match self.per_conn.get(conn_id) {
            Some(per) => rows_get(&per.rows, node_id),
            None => {
                assert(rows_of(self.per_conn@, conn_id@) == Seq::<(Seq<char>, MonitoredRow)>::empty());
                None
            },
        }
    }

    /// The node whose details the value panel shows: none while several
    /// rows are selected; otherwise the focused row, or else the selected
    /// row, if any.
    pub fn detail_node(&self) -> (r: Option<String>)
        ensures
            self.selected_rows.items@.len() > 1 ==> r is None,
            self.selected_rows.items@.len() <= 1 ==> match self.focused_row {
                Some(f) => r == Some(f),
                None => if self.selected_rows.items@.len() == 1 {
                    r matches Some(x) && x@ == self.selected_rows.items@[0].0@
                } else {
                    r is None
                },
            },
    {
        if self.selected_rows.items.len() > 1 {
            return None;
        }
        match &self.focused_row {
            Some(f) => Some(f.clone()),
            None => if self.selected_rows.items.len() == 1 {
                Some(self.selected_rows.items[0].0.clone())
            } else {
                None
            },
        }
    }

    /// The selection after clicking the row with id `node_id` at position
    /// `filtered_idx` of `filtered_cache`.  Shift with an anchor selects the
    /// rows between anchor and click (added to the selection when Ctrl is
    /// held, replacing it otherwise) and keeps the anchor; Shift without an
    /// anchor adds the row.  Ctrl alone toggles the row, a plain click
    /// selects only the row; both make it the anchor.  The row is focused.
    pub fn apply_row_click(
        &mut self,
        filtered_idx: usize,
        node_id: String,
        ctrl: bool,
        shift: bool,
    )
        requires
            old(self).wf(),
        ensures
            final(self).wf(),
            final(self).focused_row == Some(node_id),
            row_click_applied(*old(self), *final(self), filtered_idx, node_id@, ctrl, shift),
            final(self).per_conn == old(self).per_conn,
            final(self).search == old(self).search,
            final(self).filter_dirty == old(self).filter_dirty,
            final(self).filtered_cache == old(self).filtered_cache,
            final(self).last_conn_for_filter == old(self).last_conn_for_filter,
            final(self).last_search_for_filter == old(self).last_search_for_filter,
    {
        let ghost d0 = self.selected_rows@.dom();
        if shift {
            match self.last_clicked_filtered_idx {
                Some(anchor) => {
                    let (lo, hi) = if anchor <= filtered_idx {
                        (anchor, filtered_idx)
                    } else {
                        (filtered_idx, anchor)
                    };
                    if !ctrl {
                        self.selected_rows = ConnMap::new();
                    }
                    let ghost base = self.selected_rows@.dom();
                    assert(base == if ctrl { d0 } else { Set::<Seq<char>>::empty() });
                    let mut k = lo;
                    while k < self.filtered_cache.len() && k <= hi
                        invariant
                            self.selected_rows.wf(),
                            lo <= k <= hi + 1,
                            lo <= hi,
                            self.last_clicked_filtered_idx == old(self).last_clicked_filtered_idx,
                            self.selected_rows@.dom() == base.union(
                                range_ids(old(self).filtered_cache@, lo as int, k - 1),
                            ),
                            self.filtered_cache == old(self).filtered_cache,
                            self.per_conn == old(self).per_conn,
                            self.search == old(self).search,
                            self.filter_dirty == old(self).filter_dirty,
                            self.last_conn_for_filter == old(self).last_conn_for_filter,
                            self.last_search_for_filter == old(self).last_search_for_filter,
                        decreases self.filtered_cache.len() - k,
                    {
                        let id = self.filtered_cache[k].clone();
                        self.selected_rows.insert(id, ());
                        assert(self.selected_rows@.dom() =~= base.union(
                            range_ids(old(self).filtered_cache@, lo as int, k as int),
                        ));
                        k = k + 1;
                    }
                    assert(range_ids(old(self).filtered_cache@, lo as int, k - 1) =~= range_ids(
                        old(self).filtered_cache@,
                        lo as int,
                        hi as int,
                    ));
                },
                None => {
                    self.selected_rows.insert(node_id.clone(), ());
                    assert(self.selected_rows@.dom() =~= d0.insert(node_id@));
                },
            }
        } else if ctrl {
            if self.selected_rows.find(node_id.as_str()).is_some() {
                let _ = self.selected_rows.remove(node_id.as_str());
                assert(self.selected_rows@.dom() =~= d0.remove(node_id@));
            } else {
                self.selected_rows.insert(node_id.clone(), ());
                assert(self.selected_rows@.dom() =~= d0.insert(node_id@));
            }
            self.last_clicked_filtered_idx = Some(filtered_idx);
        } else {
            self.selected_rows = ConnMap::new();
            self.selected_rows.insert(node_id.clone(), ());
            assert(self.selected_rows@.dom() =~= set![node_id@]);
            self.last_clicked_filtered_idx = Some(filtered_idx);
        }
        self.focused_row = Some(node_id);
    }
}

} // verus!

verus! {

/// The entries of `s` whose keys are not in `ks`, in order.
pub open spec fn without_keys(s: Seq<(Seq<char>, MonitoredRow)>, ks: Set<Seq<char>>) -> Seq<
    (Seq<char>, MonitoredRow),
>
    decreases s.len(),
{
    if s.len() == 0 {
        Seq::empty()
    } else {
        let prev = without_keys(s.drop_last(), ks);
        if ks.contains(s.last().0) {
            prev
        } else {
            prev.push(s.last())
        }
    }
}

/// Every entry of `without_keys(s, ks)` is an entry of `s`, and its keys stay distinct.
proof fn lemma_without_keys_sub(s: Seq<(Seq<char>, MonitoredRow)>, ks: Set<Seq<char>>)
    requires
        keys_distinct(s),
    ensures
        keys_distinct(without_keys(s, ks)),
        forall|i: int|
            0 <= i < without_keys(s, ks).len() ==> exists|j: int|
                0 <= j < s.len() && #[trigger] without_keys(s, ks)[i] == s[j],
    decreases s.len(),
{
    if s.len() > 0 {
        let p = s.drop_last();
        assert(keys_distinct(p)) by {
            assert forall|a: int, b: int|
                0 <= a < p.len() && 0 <= b < p.len() && a != b implies p[a].0 != p[b].0 by {
                assert(p[a] == s[a] && p[b] == s[b]);
            }
        }
        lemma_without_keys_sub(p, ks);
        let tp = without_keys(p, ks);
        assert forall|i: int| 0 <= i < tp.len() implies exists|j: int|
            0 <= j < s.len() && #[trigger] tp[i] == s[j] by {
            let j = choose|j: int| 0 <= j < p.len() && tp[i] == p[j];
            assert(p[j] == s[j]);
        }
        if !ks.contains(s.last().0) {
            let t = tp.push(s.last());
            assert forall|i: int| 0 <= i < t.len() implies exists|j: int|
                0 <= j < s.len() && #[trigger] t[i] == s[j] by {
                if i < tp.len() {
                    assert(t[i] == tp[i]);
                } else {
                    assert(t[i] == s[s.len() - 1]);
                }
            }
            assert forall|a: int, b: int|
                0 <= a < t.len() && 0 <= b < t.len() && a != b implies t[a].0 != t[b].0 by {
                if a < tp.len() && b < tp.len() {
                    assert(t[a] == tp[a] && t[b] == tp[b]);
                } else if a < tp.len() {
                    let j = choose|j: int| 0 <= j < p.len() && tp[a] == p[j];
                    assert(t[a] == p[j] && p[j] == s[j]);
                    assert(t[b] == s[s.len() - 1]);
                } else {
                    let j = choose|j: int| 0 <= j < p.len() && tp[b] == p[j];
                    assert(t[b] == p[j] && p[j] == s[j]);
                    assert(t[a] == s[s.len() - 1]);
                }
            }
        }
    }
}

/// Removing key `k` from `without_keys(s, ks)` gives `without_keys(s, ks + {k})`.
proof fn lemma_remove_one_key(s: Seq<(Seq<char>, MonitoredRow)>, ks: Set<Seq<char>>, k: Seq<char>)
    requires
        keys_distinct(s),
    ensures
        ({
            let t = without_keys(s, ks);
            (if pos_of(t, k) >= 0 {
                t.remove(pos_of(t, k))
            } else {
                t
            }) == without_keys(s, ks.insert(k))
        }),
    decreases s.len(),
{
    let t = without_keys(s, ks);
    lemma_without_keys_sub(s, ks);
    if s.len() > 0 {
        let p = s.drop_last();
        let e = s.last();
        assert(keys_distinct(p)) by {
            assert forall|a: int, b: int|
                0 <= a < p.len() && 0 <= b < p.len() && a != b implies p[a].0 != p[b].0 by {
                assert(p[a] == s[a] && p[b] == s[b]);
            }
        }
        lemma_remove_one_key(p, ks, k);
        lemma_without_keys_sub(p, ks);
        let tp = without_keys(p, ks);
        if ks.contains(e.0) {
            assert(t == tp);
        } else if e.0 == k {
            assert(t == tp.push(e));
            assert forall|i: int| 0 <= i < tp.len() implies #[trigger] tp[i].0 != k by {
                let j = choose|j: int| 0 <= j < p.len() && tp[i] == p[j];
                assert(p[j] == s[j]);
                assert(s[s.len() - 1] == e);
            }
            assert(t[tp.len() as int].0 == k);
            assert(pos_of(t, k) == tp.len()) by {
                let c = choose|i: int| 0 <= i < t.len() && t[i].0 == k;
                if c < tp.len() {
                    assert(t[c] == tp[c]);
                }
            }
            assert(t.remove(tp.len() as int) =~= tp);
            assert(pos_of(tp, k) < 0) by {
                if exists|i: int| 0 <= i < tp.len() && tp[i].0 == k {
                    let c = choose|i: int| 0 <= i < tp.len() && tp[i].0 == k;
                    assert(tp[c].0 != k);
                }
            }
        } else {
            assert(t == tp.push(e));
            assert(without_keys(s, ks.insert(k)) == without_keys(p, ks.insert(k)).push(e));
            if pos_of(tp, k) >= 0 {
                let i0 = pos_of(tp, k);
                assert(tp[i0].0 == k);
                assert(t[i0] == tp[i0]);
                assert(pos_of(t, k) == i0) by {
                    let c = choose|i: int| 0 <= i < t.len() && t[i].0 == k;
                    if c == tp.len() {
                        assert(t[c] == e);
                    } else {
                        assert(t[c] == tp[c]);
                    }
                }
                assert(t.remove(i0) =~= tp.remove(i0).push(e));
            } else {
                assert(pos_of(t, k) < 0) by {
                    if exists|i: int| 0 <= i < t.len() && t[i].0 == k {
                        let c = choose|i: int| 0 <= i < t.len() && t[i].0 == k;
                        if c == tp.len() {
                            assert(t[c] == e);
                        } else {
                            assert(t[c] == tp[c]);
                            assert(exists|i: int| 0 <= i < tp.len() && tp[i].0 == k);
                        }
                    }
                }
            }
        }
    } else {
        assert(without_keys(s, ks.insert(k)) == Seq::<(Seq<char>, MonitoredRow)>::empty());
    }
}

/// Removing the keys `ks` one after the other leaves exactly the entries
/// whose keys are not among them, in their order.
pub proof fn lemma_remove_each_is_without_keys(s: Seq<(Seq<char>, MonitoredRow)>, ks: Seq<Seq<char>>)
    requires
        keys_distinct(s),
    ensures
        remove_each(s, ks) == without_keys(s, ks.to_set()),
    decreases ks.len(),
{
    if ks.len() == 0 {
        assert(ks.to_set() =~= Set::<Seq<char>>::empty());
        lemma_without_none(s);
    } else {
        let ks0 = ks.drop_last();
        lemma_remove_each_is_without_keys(s, ks0);
        lemma_remove_one_key(s, ks0.to_set(), ks.last());
        assert(ks.to_set() =~= ks0.to_set().insert(ks.last())) by {
            assert(ks == ks0.push(ks.last()));
            assert forall|x: Seq<char>| ks.to_set().contains(x) == ks0.to_set().insert(
                ks.last(),
            ).contains(x) by {
                if ks.contains(x) {
                    let i = choose|i: int| 0 <= i < ks.len() && ks[i] == x;
                    if i < ks0.len() {
                        assert(ks0[i] == x);
                    }
                }
                if ks0.contains(x) {
                    let i = choose|i: int| 0 <= i < ks0.len() && ks0[i] == x;
                    assert(ks[i] == x);
                }
                if x == ks.last() {
                    assert(ks[ks.len() - 1] == x);
                }
            }
        }
    }
}

/// Removing no keys leaves `s` as it is.
proof fn lemma_without_none(s: Seq<(Seq<char>, MonitoredRow)>)
    ensures
        without_keys(s, Set::<Seq<char>>::empty()) == s,
    decreases s.len(),
{
    if s.len() > 0 {
        lemma_without_none(s.drop_last());
        assert(s.drop_last().push(s.last()) =~= s);
    }
}

/// Whether some row of `rows` names node `k`.
pub open spec fn mentions(rows: Seq<MonitoredRow>, k: Seq<char>) -> bool {
    exists|j: int| 0 <= j < rows.len() && rows[j].node_id@ == k
}

/// Whether a row after position `j` of `rows` names the same node as `rows[j]`.
pub open spec fn superseded(rows: Seq<MonitoredRow>, j: int) -> bool {
    exists|j2: int| j < j2 < rows.len() && rows[j2].node_id@ == rows[j].node_id@
}

/// A snapshot of `rows` applied to the entries `s`: node ids stay distinct,
/// rows already listed keep their places, rows the snapshot does not name
/// are untouched, the last row given for each node is the one stored, and
/// no other node appears.
pub proof fn lemma_snapshot_rows(s: Seq<(Seq<char>, MonitoredRow)>, rows: Seq<MonitoredRow>)
    requires
        keys_distinct(s),
    ensures
        keys_distinct(upsert_rows(s, rows)),
        upsert_rows(s, rows).len() >= s.len(),
        forall|i: int| 0 <= i < s.len() ==> #[trigger] upsert_rows(s, rows)[i].0 == s[i].0,
        forall|i: int|
            0 <= i < s.len() && !mentions(rows, s[i].0) ==> #[trigger] upsert_rows(s, rows)[i]
                == s[i],
        forall|j: int|
            0 <= j < rows.len() && !superseded(rows, j) ==> exists|i: int|
                0 <= i < upsert_rows(s, rows).len() && #[trigger] upsert_rows(s, rows)[i] == (
                    rows[j].node_id@,
                    rows[j],
                ),
        forall|i: int|
            0 <= i < upsert_rows(s, rows).len() ==> (exists|j: int|
                0 <= j < s.len() && s[j].0 == #[trigger] upsert_rows(s, rows)[i].0) || mentions(
                rows,
                upsert_rows(s, rows)[i].0,
            ),
    decreases rows.len(),
{
    if rows.len() > 0 {
        let rp = rows.drop_last();
        let x = rows.last();
        let k = x.node_id@;
        lemma_snapshot_rows(s, rp);
        let t = upsert_rows(s, rp);
        let r = upsert_rows(s, rows);
        assert(r == upsert(t, k, x));
        assert forall|j: int| 0 <= j < rp.len() implies #[trigger] rp[j] == rows[j] by {}
        assert forall|kk: Seq<char>| mentions(rp, kk) implies mentions(rows, kk) by {
            let j = choose|j: int| 0 <= j < rp.len() && rp[j].node_id@ == kk;
            assert(rows[j] == rp[j]);
        }
        assert(mentions(rows, k)) by {
            assert(rows[rows.len() - 1] == x);
        }
        if pos_of(t, k) >= 0 {
            let i0 = pos_of(t, k);
            assert(t[i0].0 == k);
            assert(r == t.update(i0, (k, x)));
            assert forall|a: int, b: int|
                0 <= a < r.len() && 0 <= b < r.len() && a != b implies r[a].0 != r[b].0 by {
                assert(r[a].0 == t[a].0 && r[b].0 == t[b].0);
            }
            assert forall|i: int| 0 <= i < s.len() implies #[trigger] r[i].0 == s[i].0 by {
                assert(r[i].0 == t[i].0);
            }
            assert forall|i: int| 0 <= i < s.len() && !mentions(rows, s[i].0) implies #[trigger] r[i]
                == s[i] by {
                if mentions(rp, s[i].0) {
                    assert(mentions(rows, s[i].0));
                }
                assert(t[i] == s[i]);
                assert(i != i0);
            }
            assert forall|j: int| 0 <= j < rows.len() && !superseded(rows, j) implies exists|i: int|
                0 <= i < r.len() && #[trigger] r[i] == (rows[j].node_id@, rows[j]) by {
                if j == rows.len() - 1 {
                    assert(r[i0] == (k, x));
                } else {
                    assert(rows[j] == rp[j]);
                    if superseded(rp, j) {
                        let j2 = choose|j2: int| j < j2 < rp.len() && rp[j2].node_id@ == rp[j].node_id@;
                        assert(rows[j2] == rp[j2]);
                    }
                    if rows[j].node_id@ == k {
                        assert(rows[rows.len() - 1].node_id@ == rows[j].node_id@);
                    }
                    let i = choose|i: int| 0 <= i < t.len() && #[trigger] t[i] == (rp[j].node_id@, rp[j]);
                    assert(i != i0);
                    assert(r[i] == t[i]);
                }
            }
            assert forall|i: int| 0 <= i < r.len() implies (exists|j: int|
                0 <= j < s.len() && s[j].0 == #[trigger] r[i].0) || mentions(rows, r[i].0) by {
                assert(r[i].0 == t[i].0);
                if mentions(rp, t[i].0) {
                    assert(mentions(rows, t[i].0));
                }
            }
        } else {
            assert(r == t.push((k, x)));
            assert forall|i: int| 0 <= i < t.len() implies #[trigger] t[i].0 != k by {
                if t[i].0 == k {
                    assert(exists|a: int| 0 <= a < t.len() && t[a].0 == k);
                }
            }
            assert forall|a: int, b: int|
                0 <= a < r.len() && 0 <= b < r.len() && a != b implies r[a].0 != r[b].0 by {
                if a < t.len() && b < t.len() {
                    assert(r[a] == t[a] && r[b] == t[b]);
                } else if a < t.len() {
                    assert(r[a] == t[a]);
                } else {
                    assert(r[b] == t[b]);
                }
            }
            assert forall|i: int| 0 <= i < s.len() implies #[trigger] r[i].0 == s[i].0 by {
                assert(r[i] == t[i]);
            }
            assert forall|i: int| 0 <= i < s.len() && !mentions(rows, s[i].0) implies #[trigger] r[i]
                == s[i] by {
                if mentions(rp, s[i].0) {
                    assert(mentions(rows, s[i].0));
                }
                assert(r[i] == t[i]);
            }
            assert forall|j: int| 0 <= j < rows.len() && !superseded(rows, j) implies exists|i: int|
                0 <= i < r.len() && #[trigger] r[i] == (rows[j].node_id@, rows[j]) by {
                if j == rows.len() - 1 {
                    assert(r[t.len() as int] == (k, x));
                } else {
                    assert(rows[j] == rp[j]);
                    if superseded(rp, j) {
                        let j2 = choose|j2: int| j < j2 < rp.len() && rp[j2].node_id@ == rp[j].node_id@;
                        assert(rows[j2] == rp[j2]);
                    }
                    let i = choose|i: int| 0 <= i < t.len() && #[trigger] t[i] == (rp[j].node_id@, rp[j]);
                    assert(r[i] == t[i]);
                }
            }
            assert forall|i: int| 0 <= i < r.len() implies (exists|j: int|
                0 <= j < s.len() && s[j].0 == #[trigger] r[i].0) || mentions(rows, r[i].0) by {
                if i < t.len() {
                    assert(r[i] == t[i]);
                    if mentions(rp, t[i].0) {
                        assert(mentions(rows, t[i].0));
                    }
                } else {
                    assert(r[i].0 == k);
                }
            }
        }
    }
}

/// The keys of `s`, in order.
pub open spec fn entry_keys(s: Seq<(Seq<char>, MonitoredRow)>) -> Seq<Seq<char>> {
    s.map_values(|e: (Seq<char>, MonitoredRow)| e.0)
}

/// With a blank search every row of the connection is listed, in table order.
pub proof fn lemma_blank_search_lists_all(s: Seq<(Seq<char>, MonitoredRow)>)
    ensures
        listed_keys(s, Seq::<char>::empty()) == entry_keys(s),
    decreases s.len(),
{
    if s.len() > 0 {
        lemma_blank_search_lists_all(s.drop_last());
        assert(entry_keys(s) =~= entry_keys(s.drop_last()).push(s.last().0));
    }
}

} // verus!
