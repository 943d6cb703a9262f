//! The day's donut chart: the five largest applications and the rest.
use vstd::prelude::*;

verus! {

/// Number of applications that get a slice of their own.
pub const DONUT_TOP: usize = 5;

/// Sum of the values.
pub open spec fn seq_total(s: Seq<(String, u64)>) -> nat
    decreases s.len(),
{
    if s.len() == 0 { 0 } else { seq_total(s.drop_last()) + s.last().1 as nat }
}

/// The entries with value `v`, in order.
pub open spec fn with_value(s: Seq<(String, u64)>, v: u64) -> Seq<(String, u64)>
    decreases s.len(),
{
    if s.len() == 0 {
        Seq::empty()
    } else {
        with_value(s.drop_last(), v) + if s.last().1 == v { seq![s.last()] } else { Seq::empty() }
    }
}

/// The entries with a positive value, in order.
pub open spec fn positive_entries(s: Seq<(String, u64)>) -> Seq<(String, u64)>
    decreases s.len(),
{
    if s.len() == 0 {
        Seq::empty()
    } else {
        positive_entries(s.drop_last()) + if s.last().1 > 0 { seq![s.last()] } else { Seq::empty() }
    }
}

/// Sorted by decreasing value.
pub open spec fn sorted_desc(s: Seq<(String, u64)>) -> bool {
    forall|i: int, j: int| 0 <= i < j < s.len() ==> #[trigger] s[i].1 >= #[trigger] s[j].1
}

/// `r` is `s` sorted by decreasing value, keeping the order of entries
/// with equal values (a stable sort).
pub open spec fn is_stable_desc_sort(r: Seq<(String, u64)>, s: Seq<(String, u64)>) -> bool {
    &&& sorted_desc(r)
    &&& forall|v: u64| #[trigger] with_value(r, v) == with_value(s, v)
}

/// The donut's data: the total of all entries, the largest positive
/// entries (at most five, largest first, ties in input order), and the
/// sum of the remaining positive entries.
pub struct DonutSlices {
    pub total: u64,
    pub slices: Vec<(String, u64)>,
    pub other: u64,
}

proof fn lemma_total_push(s: Seq<(String, u64)>, x: (String, u64))
    ensures
        seq_total(s.push(x)) == seq_total(s) + x.1,
{
    assert(s.push(x).drop_last() =~= s);
}

proof fn lemma_total_concat(a: Seq<(String, u64)>, b: Seq<(String, u64)>)
    ensures
        seq_total(a + b) == seq_total(a) + seq_total(b),
    decreases b.len(),
{
    if b.len() == 0 {
        assert(a + b =~= a);
    } else {
        lemma_total_concat(a, b.drop_last());
        assert((a + b).drop_last() =~= a + b.drop_last());
    }
}

proof fn lemma_insert_facts(s: Seq<(String, u64)>, p: int, x: (String, u64))
    requires
        0 <= p <= s.len(),
        forall|i: int| 0 <= i < p ==> #[trigger] s[i].1 >= x.1,
        forall|i: int| p <= i < s.len() ==> #[trigger] s[i].1 < x.1,
    ensures
        seq_total(s.insert(p, x)) == seq_total(s) + x.1,
        forall|v: u64| #[trigger] with_value(s.insert(p, x), v) == with_value(s, v) + if v == x.1 { seq![x] } else { Seq::empty() },
    decreases s.len(),
{
    let t = s.insert(p, x);
    if p == s.len() {
        assert(t =~= s.push(x));
        assert(t.drop_last() =~= s);
        assert forall|v: u64| #[trigger] with_value(t, v) == with_value(s, v) + if v == x.1 { seq![x] } else { Seq::empty() } by {
            assert(t.drop_last() =~= s);
        }
    } else {
        let sd = s.drop_last();
        lemma_insert_facts(sd, p, x);
        assert(t.drop_last() =~= sd.insert(p, x));
        assert(t.last() == s.last());
        assert(s.last().1 < x.1);
        assert forall|v: u64| #[trigger] with_value(t, v) == with_value(s, v) + if v == x.1 { seq![x] } else { Seq::empty() } by {
            assert(with_value(sd.insert(p, x), v) == with_value(sd, v) + if v == x.1 { seq![x] } else { Seq::empty() });
            if v == x.1 {
                assert(with_value(t, v) =~= with_value(sd, v) + seq![x]);
            } else if s.last().1 == v {
                assert(with_value(t, v) =~= with_value(sd, v) + seq![s.last()]);
            } else {
                assert(with_value(t, v) =~= with_value(sd, v));
            }
        }
    }
}

/// Inserts `x` into the stably sorted `r` after every entry at least as
/// large.
fn insert_desc(r: &mut Vec<(String, u64)>, x: (String, u64))
    requires
        sorted_desc(old(r)@),
    ensures
        sorted_desc(final(r)@),
        seq_total(final(r)@) == seq_total(old(r)@) + x.1,
        forall|v: u64| #[trigger] with_value(final(r)@, v) == with_value(old(r)@, v) + if v == x.1 { seq![x] } else { Seq::empty() },
{
    let mut p: usize = 0;
    while p < r.len() && r[p].1 >= x.1
        invariant
            p <= r@.len(),
            forall|i: int| 0 <= i < p ==> #[trigger] r@[i].1 >= x.1,
        decreases r@.len() - p,
    {
        p = p + 1;
    }
    let ghost s = r@;
    proof {
        assert forall|i: int| p <= i < s.len() implies #[trigger] s[i].1 < x.1 by {
            assert(s[p as int].1 < x.1);
            if i > p {
                assert(s[p as int].1 >= s[i].1);
            }
        }
        lemma_insert_facts(s, p as int, x);
    }
    r.insert(p, x);
    assert forall|i: int, j: int| 0 <= i < j < r@.len() implies #[trigger] r@[i].1 >= #[trigger] r@[j].1 by {
        if j < p {
        } else if j == p {
        } else if i < p {
            assert(r@[j] == s[j - 1]);
            if p < s.len() { assert(s[p as int].1 < x.1); }
        } else if i == p {
            assert(r@[j] == s[j - 1]);
        } else {
            assert(r@[j] == s[j - 1]);
            assert(r@[i] == s[i - 1]);
        }
    }
}

/// Computes the donut's data from the day's per-application seconds.
pub fn donut_slices(data: &Vec<(String, u64)>) -> (r: DonutSlices)
    requires
        seq_total(data@) <= u64::MAX,
    ensures
        r.total == seq_total(data@),
        exists|sorted: Seq<(String, u64)>|
            is_stable_desc_sort(sorted, positive_entries(data@))
            && r.slices@ == sorted.subrange(0, if sorted.len() < DONUT_TOP { sorted.len() as int } else { DONUT_TOP as int })
            && r.other == (if sorted.len() > DONUT_TOP { seq_total(sorted.subrange(DONUT_TOP as int, sorted.len() as int)) } else { 0 }),
{
    let mut total: u64 = 0;
    let mut sorted: Vec<(String, u64)> = Vec::new();
    let mut i: usize = 0;
    while i < data.len()
        invariant
            i <= data@.len(),
            seq_total(data@) <= u64::MAX,
            total == seq_total(data@.subrange(0, i as int)),
            sorted_desc(sorted@),
            seq_total(sorted@) <= total,
            forall|v: u64| #[trigger] with_value(sorted@, v) == with_value(positive_entries(data@.subrange(0, i as int)), v),
        decreases data@.len() - i,
    {
        let ghost pre = data@.subrange(0, i as int);
        let ghost pre2 = data@.subrange(0, i + 1);
        proof {
            assert(pre2 =~= pre.push(data@[i as int]));
            lemma_total_push(pre, data@[i as int]);
            lemma_total_concat(pre2, data@.subrange(i + 1, data@.len() as int));
            assert(pre2 + data@.subrange(i + 1, data@.len() as int) =~= data@);
            assert(pre2.drop_last() =~= pre);
        }
        let v = data[i].1;
        total = total + v;
        if v > 0 {
            let name = data[i].0.clone();
            insert_desc(&mut sorted, (name, v));
            proof {
                assert forall|w: u64| #[trigger] with_value(sorted@, w) == with_value(positive_entries(pre2), w) by {
                    assert(positive_entries(pre2) =~= positive_entries(pre).push(data@[i as int]));
                    assert(positive_entries(pre).push(data@[i as int]).drop_last() =~= positive_entries(pre));
                }
            }
        } else {
            proof {
                assert(positive_entries(pre2) =~= positive_entries(pre));
            }
        }
        i = i + 1;
    }
    assert(data@.subrange(0, data@.len() as int) =~= data@);
    let n = sorted.len();
    let top = if n < DONUT_TOP { n } else { DONUT_TOP };
    let mut other: u64 = 0;
    if n > DONUT_TOP {
        let mut k: usize = DONUT_TOP;
        proof {
            lemma_total_concat(sorted@.subrange(0, DONUT_TOP as int), sorted@.subrange(DONUT_TOP as int, n as int));
            assert(sorted@.subrange(0, DONUT_TOP as int) + sorted@.subrange(DONUT_TOP as int, n as int) =~= sorted@);
        }
        while k < n
            invariant
                DONUT_TOP <= k <= n,
                n == sorted@.len(),
                other == seq_total(sorted@.subrange(DONUT_TOP as int, k as int)),
                seq_total(sorted@.subrange(DONUT_TOP as int, n as int)) <= u64::MAX,
            decreases n - k,
        {
            proof {
                let a = sorted@.subrange(DONUT_TOP as int, k + 1);
                assert(a =~= sorted@.subrange(DONUT_TOP as int, k as int).push(sorted@[k as int]));
                lemma_total_push(sorted@.subrange(DONUT_TOP as int, k as int), sorted@[k as int]);
                lemma_total_concat(a, sorted@.subrange(k + 1, n as int));
                assert(a + sorted@.subrange(k + 1, n as int) =~= sorted@.subrange(DONUT_TOP as int, n as int));
            }
            other = other + sorted[k].1;
            k = k + 1;
        }
    }
    let ghost full = sorted@;
    sorted.truncate(top);
    proof {
        assert(sorted@ =~= full.subrange(0, top as int));
        assert(is_stable_desc_sort(full, positive_entries(data@)));
    }
    DonutSlices { total, slices: sorted, other }
}

} // verus!
