use vstd::prelude::*;

verus! {

/// Inserts `x` into `s` (stamps non-increasing) after every entry stamped at
/// least as late as `x`, so that among equal stamps earlier arrivals stay first.
pub open spec fn insert_newest_first<R>(x: (u64, R), s: Seq<(u64, R)>) -> Seq<(u64, R)>
    decreases s.len(),
{
    if s.len() == 0 {
        seq![x]
    } else if s.last().0 >= x.0 {
        s.push(x)
    } else {
        insert_newest_first(x, s.drop_last()).push(s.last())
    }
}

/// Inserts the entries of `rest`, in order, into `acc`.
pub open spec fn insert_all<R>(acc: Seq<(u64, R)>, rest: Seq<(u64, R)>) -> Seq<(u64, R)>
    decreases rest.len(),
{
    if rest.len() == 0 {
        acc
    } else {
        insert_all(insert_newest_first(rest[0], acc), rest.drop_first())
    }
}

/// The stable sort of `s` by stamp, newest first.
pub open spec fn sort_newest_first<R>(s: Seq<(u64, R)>) -> Seq<(u64, R)> {
    insert_all(Seq::empty(), s)
}

/// Stamps never increase along the sequence.
pub open spec fn newest_first<R>(s: Seq<(u64, R)>) -> bool {
    forall|i: int, j: int| 0 <= i < j < s.len() ==> s[i].0 >= s[j].0
}

/// Position at which `insert_newest_first` places `x`.
pub open spec fn insert_pos<R>(x: (u64, R), s: Seq<(u64, R)>) -> int
    decreases s.len(),
{
    if s.len() == 0 {
        0
    } else if s.last().0 >= x.0 {
        s.len() as int
    } else {
        insert_pos(x, s.drop_last())
    }
}

proof fn lemma_insert_shape<R>(x: (u64, R), s: Seq<(u64, R)>)
    ensures
        0 <= insert_pos(x, s) <= s.len(),
        insert_newest_first(x, s) == s.insert(insert_pos(x, s), x),
        forall|k: int| insert_pos(x, s) <= k < s.len() ==> #[trigger] s[k].0 < x.0,
        insert_pos(x, s) > 0 ==> s[insert_pos(x, s) - 1].0 >= x.0,
    decreases s.len(),
{
    if s.len() == 0 {
        assert(insert_newest_first(x, s) =~= s.insert(0, x));
    } else if s.last().0 >= x.0 {
        assert(insert_newest_first(x, s) =~= s.insert(s.len() as int, x));
    } else {
        let t = s.drop_last();
        lemma_insert_shape(x, t);
        let p = insert_pos(x, t);
        assert(insert_newest_first(x, s) =~= s.insert(p, x));
        assert forall|k: int| p <= k < s.len() implies #[trigger] s[k].0 < x.0 by {
            if k < t.len() {
                assert(s[k] == t[k]);
            }
        }
        if p > 0 {
            assert(s[p - 1] == t[p - 1]);
        }
    }
}

/// Inserting into a newest-first sequence keeps it newest first and adds one entry.
pub proof fn lemma_insert_keeps_order<R>(x: (u64, R), s: Seq<(u64, R)>)
    requires
        newest_first(s),
    ensures
        newest_first(insert_newest_first(x, s)),
        insert_newest_first(x, s).len() == s.len() + 1,
{
    lemma_insert_shape(x, s);
    let p = insert_pos(x, s);
    let r = insert_newest_first(x, s);
    assert forall|i: int, j: int| 0 <= i < j < r.len() implies r[i].0 >= r[j].0 by {
        if j < p {
            assert(r[i] == s[i] && r[j] == s[j]);
        } else if j == p {
            assert(r[j] == x);
            assert(r[i] == s[i]);
            assert(s[p - 1].0 >= x.0);
            assert(s[i].0 >= s[p - 1].0 || i == p - 1);
        } else if i < p {
            assert(r[i] == s[i] && r[j] == s[j - 1]);
        } else if i == p {
            assert(r[i] == x && r[j] == s[j - 1]);
            assert(s[j - 1].0 < x.0);
        } else {
            assert(r[i] == s[i - 1] && r[j] == s[j - 1]);
        }
    }
}

proof fn lemma_insert_all_order<R>(acc: Seq<(u64, R)>, rest: Seq<(u64, R)>)
    requires
        newest_first(acc),
    ensures
        newest_first(insert_all(acc, rest)),
        insert_all(acc, rest).len() == acc.len() + rest.len(),
    decreases rest.len(),
{
    if rest.len() > 0 {
        lemma_insert_keeps_order(rest[0], acc);
        lemma_insert_all_order(insert_newest_first(rest[0], acc), rest.drop_first());
    }
}

/// The sorted feed is newest first and holds as many entries as its input.
pub proof fn law_sorted_feed<R>(s: Seq<(u64, R)>)
    ensures
        newest_first(sort_newest_first(s)),
        sort_newest_first(s).len() == s.len(),
{
    lemma_insert_all_order(Seq::<(u64, R)>::empty(), s);
}

/// Sorts stamped entries newest first (stable: equal stamps keep their
/// order) and keeps the first `limit` of them.
pub fn newest_entries<R>(items: Vec<(u64, R)>, limit: usize) -> (res: Vec<(u64, R)>)
    ensures
        res@ == sort_newest_first(items@).take(
            if items@.len() < limit { items@.len() as int } else { limit as int },
        ),
{
    let mut items = items;
    let ghost all = items@;
    let mut out: Vec<(u64, R)> = Vec::new();
    proof {
        lemma_insert_all_order(Seq::<(u64, R)>::empty(), all);
    }
    while items.len() > 0
        invariant
            insert_all(out@, items@) == sort_newest_first(all),
            out@.len() + items@.len() == all.len(),
        decreases items@.len(),
    {
        let ghost rest = items@;
        let x = items.remove(0);
        assert(items@ =~= rest.drop_first());
        let stamp = x.0;
        let mut p = out.len();
        while p > 0 && out[p - 1].0 < stamp
            invariant
                p <= out@.len(),
                forall|k: int| p <= k < out@.len() ==> #[trigger] out@[k].0 < stamp,
            decreases p,
        {
            p = p - 1;
        }
        proof {
            lemma_insert_shape(x, out@);
            let q = insert_pos(x, out@);
            if q < p {
                assert(out@[p - 1].0 < stamp);
                assert(out@[q - 1].0 >= stamp || q == 0);
            }
            if q > p {
                assert(out@[p as int].0 < stamp);
                if p > 0 {
                    assert(out@[p - 1].0 >= stamp);
                }
                assert(out@[q - 1].0 >= stamp);
            }
            assert(q == p) by {
                if q < p {
                    assert(out@[p - 1].0 < stamp);
                } else if q > p {
                    assert(out@[q - 1].0 >= stamp);
                    assert(out@[q - 1].0 < stamp);
                }
            }
        }
        out.insert(p, x);
    }
    assert(insert_all(out@, items@) == out@);
    let ghost n: int = if all.len() < limit { all.len() as int } else { limit as int };
    out.truncate(limit);
    assert(out@ =~= sort_newest_first(all).take(n));
    out
}

} // verus!
