//! The connection list as the master shows it: ordered by name, with
//! connections of equal name kept in the order the backend listed them.

use vstd::prelude::*;

use crate::master_events::ConnectionInfo;

verus! {

broadcast use vstd::seq_lib::group_to_multiset_ensures;

/// `a` sorts no later than `b`: lexicographic order of code points, which is
/// the byte order of their UTF-8 encodings that `String`'s `Ord` compares.
pub open spec fn text_le(a: Seq<char>, b: Seq<char>) -> bool
    decreases a.len(),
{
    if a.len() == 0 {
        true
    } else if b.len() == 0 {
        false
    } else if a[0] != b[0] {
        (a[0] as u32) < (b[0] as u32)
    } else {
        text_le(a.drop_first(), b.drop_first())
    }
}

/// Two names compare as in order.
pub open spec fn name_le(a: ConnectionInfo, b: ConnectionInfo) -> bool {
    text_le(a.name@, b.name@)
}

/// `x` inserted into `s` after the last element whose name sorts no later.
pub open spec fn insert_by_name(s: Seq<ConnectionInfo>, x: ConnectionInfo) -> Seq<ConnectionInfo>
    decreases s.len(),
{
    if s.len() == 0 {
        seq![x]
    } else if name_le(s.last(), x) {
        s.push(x)
    } else {
        insert_by_name(s.drop_last(), x).push(s.last())
    }
}

/// `s` sorted by name, stably: equal names keep their relative order.
pub open spec fn sorted_by_name(s: Seq<ConnectionInfo>) -> Seq<ConnectionInfo>
    decreases s.len(),
{
    if s.len() == 0 {
        s
    } else {
        insert_by_name(sorted_by_name(s.drop_last()), s.last())
    }
}

/// Every earlier name of `s` sorts no later than every later one.
pub open spec fn is_name_ordered(s: Seq<ConnectionInfo>) -> bool {
    forall|i: int, j: int| 0 <= i < j < s.len() ==> name_le(#[trigger] s[i], #[trigger] s[j])
}

/// Whether `a` sorts no later than `b`.
pub fn text_le_exec(a: &Vec<char>, b: &Vec<char>) -> (r: bool)
    ensures
        r == text_le(a@, b@),
{
    let mut i: usize = 0;
    assert(a@.skip(0) == a@ && b@.skip(0) == b@);
    while i < a.len() && i < b.len() && a[i] == b[i]
        invariant
            i <= a.len(),
            i <= b.len(),
            text_le(a@, b@) == text_le(a@.skip(i as int), b@.skip(i as int)),
        decreases a.len() - i,
    {
        assert(a@.skip(i as int).drop_first() == a@.skip(i + 1));
        assert(b@.skip(i as int).drop_first() == b@.skip(i + 1));
        i = i + 1;
    }
    if i == a.len() {
        true
    } else if i == b.len() {
        false
    } else {
        (a[i] as u32) < (b[i] as u32)
    }
}

proof fn lemma_insert_at(s: Seq<ConnectionInfo>, x: ConnectionInfo, j: int)
    requires
        0 <= j <= s.len(),
        forall|k: int| j <= k < s.len() ==> !name_le(#[trigger] s[k], x),
        j == 0 || name_le(s[j - 1], x),
    ensures
        insert_by_name(s, x) == s.insert(j, x),
    decreases s.len(),
{
    if s.len() == 0 {
        assert(s.insert(0, x) == seq![x]);
    } else if j == s.len() {
        assert(s.insert(j, x) == s.push(x));
    } else {
        let p = s.drop_last();
        assert forall|k: int| j <= k < p.len() implies !name_le(#[trigger] p[k], x) by {
            assert(p[k] == s[k]);
        }
        if j > 0 {
            assert(p[j - 1] == s[j - 1]);
        }
        lemma_insert_at(p, x, j);
        assert(s.insert(j, x) == p.insert(j, x).push(s.last()));
    }
}

/// The connections ordered by name, equal names in their listed order.
pub fn sort_connections_by_name(infos: Vec<ConnectionInfo>) -> (r: Vec<ConnectionInfo>)
    ensures
        r@ == sorted_by_name(infos@),
{
    let ghost start = infos@;
    let mut rest = infos;
    let n = rest.len();
    let mut out: Vec<ConnectionInfo> = Vec::new();
    let mut names: Vec<Vec<char>> = Vec::new();
    let mut i: usize = 0;
    while i < n
        invariant
            start.len() == n,
            i <= n,
            rest@ == start.skip(i as int),
            out@ == sorted_by_name(start.take(i as int)),
            names@.len() == out@.len(),
            forall|k: int| 0 <= k < out@.len() ==> (#[trigger] names@[k])@ == out@[k].name@,
        decreases n - i,
    {
        let x = rest.remove(0);
        assert(start.skip(i as int)[0] == start[i as int]);
        assert(start.skip(i as int).remove(0) == start.skip(i + 1));
        assert(start.take(i + 1).drop_last() == start.take(i as int));
        assert(start.take(i + 1).last() == x);
        let xn = crate::text::chars_of(x.name.as_str());
        let mut j = out.len();
        while j > 0 && !text_le_exec(&names[j - 1], &xn)
            invariant
                j <= out@.len(),
                names@.len() == out@.len(),
                forall|k: int| 0 <= k < out@.len() ==> (#[trigger] names@[k])@ == out@[k].name@,
                xn@ == x.name@,
                forall|k: int| j <= k < out@.len() ==> !name_le(#[trigger] out@[k], x),
            decreases j,
        {
            j = j - 1;
        }
        proof {
            lemma_insert_at(out@, x, j as int);
        }
        let ghost old_out = out@;
        let ghost old_names = names@;
        out.insert(j, x);
        names.insert(j, xn);
        assert forall|k: int| 0 <= k < out@.len() implies (#[trigger] names@[k])@ == out@[k].name@ by {
            if k < j {
                assert(names@[k] == old_names[k]);
                assert(out@[k] == old_out[k]);
            } else if k > j {
                assert(names@[k] == old_names[k - 1]);
                assert(out@[k] == old_out[k - 1]);
            }
        }
        i = i + 1;
    }
    assert(start.take(n as int) == start);
    out
}

/// A common beginning does not change the order of two texts.
pub proof fn lemma_text_le_common_prefix(p: Seq<char>, s: Seq<char>, t: Seq<char>)
    ensures
        text_le(p + s, p + t) == text_le(s, t),
    decreases p.len(),
{
    if p.len() > 0 {
        assert((p + s).drop_first() =~= p.drop_first() + s);
        assert((p + t).drop_first() =~= p.drop_first() + t);
        assert((p + s)[0] == p[0] && (p + t)[0] == p[0]);
        lemma_text_le_common_prefix(p.drop_first(), s, t);
    } else {
        assert(p + s =~= s);
        assert(p + t =~= t);
    }
}

/// A proper prefix sorts first: `a` sorts no later than any longer text
/// beginning with it, and no such longer text sorts no later than `a`.
pub proof fn lemma_text_le_prefix_first(a: Seq<char>, b: Seq<char>)
    requires
        b.len() > 0,
    ensures
        text_le(a, a + b),
        !text_le(a + b, a),
{
    lemma_text_le_common_prefix(a, Seq::empty(), b);
    lemma_text_le_common_prefix(a, b, Seq::empty());
    assert(a + Seq::<char>::empty() =~= a);
}

/// After a common beginning, the first differing character decides the
/// order, by code point.
pub proof fn lemma_text_le_first_difference(p: Seq<char>, s: Seq<char>, t: Seq<char>)
    requires
        s.len() > 0,
        t.len() > 0,
        s[0] != t[0],
    ensures
        text_le(p + s, p + t) == ((s[0] as u32) < (t[0] as u32)),
{
    lemma_text_le_common_prefix(p, s, t);
}

/// `text_le` is total: of two texts one sorts no later than the other.
pub proof fn lemma_text_le_total(a: Seq<char>, b: Seq<char>)
    ensures
        text_le(a, b) || text_le(b, a),
    decreases a.len(),
{
    if a.len() > 0 && b.len() > 0 {
        if a[0] == b[0] {
            lemma_text_le_total(a.drop_first(), b.drop_first());
        } else {
            vstd::utf8::char_u32_cast(a[0], a[0] as u32);
            vstd::utf8::char_u32_cast(b[0], b[0] as u32);
        }
    }
}

/// `text_le` is transitive.
pub proof fn lemma_text_le_transitive(a: Seq<char>, b: Seq<char>, c: Seq<char>)
    requires
        text_le(a, b),
        text_le(b, c),
    ensures
        text_le(a, c),
    decreases a.len(),
{
    if a.len() > 0 && b.len() > 0 && c.len() > 0 && a[0] == b[0] && b[0] == c[0] {
        lemma_text_le_transitive(a.drop_first(), b.drop_first(), c.drop_first());
    }
}

proof fn lemma_insert_multiset(s: Seq<ConnectionInfo>, x: ConnectionInfo)
    ensures
        insert_by_name(s, x).to_multiset() == s.to_multiset().insert(x),
    decreases s.len(),
{
    if s.len() == 0 {
        assert(seq![x] == Seq::<ConnectionInfo>::empty().push(x));
    } else if !name_le(s.last(), x) {
        let p = s.drop_last();
        lemma_insert_multiset(p, x);
        assert(s == p.push(s.last()));
        assert(insert_by_name(s, x).to_multiset() =~= s.to_multiset().insert(x));
    }
}

proof fn lemma_insert_ordered(s: Seq<ConnectionInfo>, x: ConnectionInfo)
    requires
        is_name_ordered(s),
    ensures
        is_name_ordered(insert_by_name(s, x)),
    decreases s.len(),
{
    if s.len() == 0 {
    } else if name_le(s.last(), x) {
        let t = s.push(x);
        assert forall|i: int, j: int| 0 <= i < j < t.len() implies name_le(
            #[trigger] t[i],
            #[trigger] t[j],
        ) by {
            if j == s.len() && i < s.len() - 1 {
                assert(name_le(s[i], s[s.len() - 1]));
                lemma_text_le_transitive(s[i].name@, s.last().name@, x.name@);
            }
        }
    } else {
        let p = s.drop_last();
        let l = s.last();
        assert(is_name_ordered(p)) by {
            assert forall|i: int, j: int| 0 <= i < j < p.len() implies name_le(
                #[trigger] p[i],
                #[trigger] p[j],
            ) by {
                assert(p[i] == s[i] && p[j] == s[j]);
            }
        }
        lemma_insert_ordered(p, x);
        lemma_insert_multiset(p, x);
        lemma_text_le_total(l.name@, x.name@);
        let q = insert_by_name(p, x);
        let t = q.push(l);
        assert forall|i: int, j: int| 0 <= i < j < t.len() implies name_le(
            #[trigger] t[i],
            #[trigger] t[j],
        ) by {
            if j == q.len() {
                let e = q[i];
                assert(q.to_multiset().count(e) > 0);
                assert(p.to_multiset().insert(x).count(e) > 0);
                if e != x {
                    assert(p.to_multiset().count(e) > 0);
                    assert(p.contains(e));
                    let k = choose|k: int| 0 <= k < p.len() && p[k] == e;
                    assert(s[k] == e);
                    assert(name_le(s[k], s[s.len() - 1]));
                }
            } else {
                assert(t[i] == q[i] && t[j] == q[j]);
            }
        }
    }
}

/// The sorted list holds exactly the listed connections, each as often.
pub proof fn lemma_sorted_is_permutation(s: Seq<ConnectionInfo>)
    ensures
        sorted_by_name(s).to_multiset() == s.to_multiset(),
    decreases s.len(),
{
    if s.len() > 0 {
        lemma_sorted_is_permutation(s.drop_last());
        lemma_insert_multiset(sorted_by_name(s.drop_last()), s.last());
        assert(s == s.drop_last().push(s.last()));
    }
}

/// The sorted list is ordered by name.
pub proof fn lemma_sorted_is_ordered(s: Seq<ConnectionInfo>)
    ensures
        is_name_ordered(sorted_by_name(s)),
    decreases s.len(),
{
    if s.len() > 0 {
        lemma_sorted_is_ordered(s.drop_last());
        lemma_insert_ordered(sorted_by_name(s.drop_last()), s.last());
    }
}

/// The connections of `s` named `n`, in order.
pub open spec fn named(s: Seq<ConnectionInfo>, n: Seq<char>) -> Seq<ConnectionInfo>
    decreases s.len(),
{
    if s.len() == 0 {
        s
    } else {
        let p = named(s.drop_last(), n);
        if s.last().name@ == n {
            p.push(s.last())
        } else {
            p
        }
    }
}

proof fn lemma_text_le_reflexive(a: Seq<char>)
    ensures
        text_le(a, a),
    decreases a.len(),
{
    if a.len() > 0 {
        lemma_text_le_reflexive(a.drop_first());
    }
}

proof fn lemma_insert_named(t: Seq<ConnectionInfo>, x: ConnectionInfo, n: Seq<char>)
    ensures
        named(insert_by_name(t, x), n) == if x.name@ == n {
            named(t, n).push(x)
        } else {
            named(t, n)
        },
    decreases t.len(),
{
    if t.len() == 0 {
        assert(seq![x].drop_last() == Seq::<ConnectionInfo>::empty());
        assert(named(Seq::<ConnectionInfo>::empty(), n) == Seq::<ConnectionInfo>::empty());
    } else if name_le(t.last(), x) {
        assert(t.push(x).drop_last() == t);
    } else {
        let p = t.drop_last();
        let l = t.last();
        lemma_insert_named(p, x, n);
        let q = insert_by_name(p, x);
        assert(q.push(l).drop_last() == q);
        if x.name@ == n && l.name@ == n {
            lemma_text_le_reflexive(n);
        }
    }
}

/// Sorting is stable: for every name, the connections with that name come
/// out in the order they were listed in.
pub proof fn lemma_sorted_is_stable(s: Seq<ConnectionInfo>, n: Seq<char>)
    ensures
        named(sorted_by_name(s), n) == named(s, n),
    decreases s.len(),
{
    if s.len() > 0 {
        lemma_sorted_is_stable(s.drop_last(), n);
        lemma_insert_named(sorted_by_name(s.drop_last()), s.last(), n);
    }
}

/// In the list sorted by name, a connection whose name is a proper prefix
/// of another's ("Line 1", "Line 10") comes before it, whatever order they
/// were listed in.
pub proof fn lemma_sorted_prefix_name_first(s: Seq<ConnectionInfo>, i: int, j: int)
    requires
        0 <= i < sorted_by_name(s).len(),
        0 <= j < sorted_by_name(s).len(),
        sorted_by_name(s)[i].name@.len() < sorted_by_name(s)[j].name@.len(),
        sorted_by_name(s)[j].name@.take(sorted_by_name(s)[i].name@.len() as int)
            == sorted_by_name(s)[i].name@,
    ensures
        i < j,
{
    let r = sorted_by_name(s);
    let a = r[i].name@;
    let long = r[j].name@;
    let b = long.skip(a.len() as int);
    assert(long =~= a + b);
    lemma_text_le_prefix_first(a, b);
    lemma_sorted_is_ordered(s);
    if j < i {
        assert(name_le(r[j], r[i]));
    }
    if i == j {
        assert(a.len() == long.len());
    }
}

} // verus!
