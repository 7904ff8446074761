use vstd::prelude::*;
use vstd::string::{StrSliceExecFns, StringExecFns};
use crate::dispatch::chars_of;
use crate::filters::{push_signed, signed_decimal};
use crate::talkgroups::Talkgroup;
use crate::tuning::texts;

verus! {

/// Strict lexicographic order on texts, character by character (a proper
/// prefix comes first). UTF-8 keeps the order of code points, so this is the
/// order of `str` as well.
pub open spec fn text_lt(a: Seq<char>, b: Seq<char>) -> bool
    decreases a.len(),
{
    if a.len() == 0 {
        b.len() > 0
    } else if b.len() == 0 {
        false
    } else if a[0] != b[0] {
        a[0] < b[0]
    } else {
        text_lt(a.drop_first(), b.drop_first())
    }
}

pub proof fn lemma_text_lt_total(a: Seq<char>, b: Seq<char>)
    ensures
        a == b || text_lt(a, b) || text_lt(b, a),
        !(text_lt(a, b) && text_lt(b, a)),
    decreases a.len(),
{
    if a.len() > 0 && b.len() > 0 && a[0] == b[0] {
        lemma_text_lt_total(a.drop_first(), b.drop_first());
        if a.drop_first() == b.drop_first() {
            assert(a =~= seq![a[0]] + a.drop_first());
            assert(b =~= seq![b[0]] + b.drop_first());
        }
    } else if a.len() == 0 && b.len() == 0 {
        assert(a =~= b);
    }
}

pub proof fn lemma_text_lt_transitive(a: Seq<char>, b: Seq<char>, c: Seq<char>)
    requires
        text_lt(a, b),
        text_lt(b, c),
    ensures
        text_lt(a, c),
    decreases a.len(),
{
    if a.len() > 0 && b.len() > 0 && c.len() > 0 && a[0] == b[0] && b[0] == c[0] {
        lemma_text_lt_transitive(a.drop_first(), b.drop_first(), c.drop_first());
    }
}

proof fn lemma_text_lt_from(a: Seq<char>, b: Seq<char>, i: int)
    requires
        0 <= i <= a.len(),
        i <= b.len(),
        a.take(i) == b.take(i),
    ensures
        text_lt(a, b) == text_lt(a.skip(i), b.skip(i)),
    decreases i,
{
    if i > 0 {
        assert(a[0] == a.take(i)[0]);
        assert(b[0] == b.take(i)[0]);
        let a1 = a.drop_first();
        let b1 = b.drop_first();
        assert(a1.take(i - 1) =~= a.take(i).drop_first());
        assert(b1.take(i - 1) =~= b.take(i).drop_first());
        lemma_text_lt_from(a1, b1, i - 1);
        assert(a1.skip(i - 1) =~= a.skip(i));
        assert(b1.skip(i - 1) =~= b.skip(i));
    } else {
        assert(a.skip(0) =~= a);
        assert(b.skip(0) =~= b);
    }
}

/// Compares two texts: negative when `a` comes first, zero when equal,
/// positive when `b` comes first.
pub(crate) fn compare_texts(a: &Vec<char>, b: &Vec<char>) -> (r: i8)
    ensures
        (r < 0) == text_lt(a@, b@),
        (r == 0) == (a@ == b@),
        (r > 0) == text_lt(b@, a@),
{
    let mut i: usize = 0;
    while i < a.len() && i < b.len()
        invariant
            i <= a@.len(),
            i <= b@.len(),
            a@.take(i as int) == b@.take(i as int),
        decreases a@.len() - i,
    {
        if a[i] != b[i] {
            proof {
                lemma_text_lt_from(a@, b@, i as int);
                lemma_text_lt_from(b@, a@, i as int);
                assert(a@.skip(i as int)[0] == a@[i as int]);
                assert(b@.skip(i as int)[0] == b@[i as int]);
                lemma_text_lt_total(a@, b@);
            }
            if a[i] < b[i] {
                return -1;
            } else {
                return 1;
            }
        }
        assert(a@.take(i + 1) =~= a@.take(i as int).push(a@[i as int]));
        assert(b@.take(i + 1) =~= b@.take(i as int).push(b@[i as int]));
        i = i + 1;
    }
    proof {
        lemma_text_lt_from(a@, b@, i as int);
        lemma_text_lt_from(b@, a@, i as int);
        lemma_text_lt_total(a@, b@);
        if a@.len() == b@.len() {
            assert(a@ =~= a@.take(i as int));
            assert(b@ =~= b@.take(i as int));
        } else if i == a@.len() {
            assert(a@.skip(i as int).len() == 0);
            assert(b@.skip(i as int).len() > 0);
        } else {
            assert(b@.skip(i as int).len() == 0);
            assert(a@.skip(i as int).len() > 0);
        }
    }
    if a.len() == b.len() {
        0
    } else if i == a.len() {
        -1
    } else {
        1
    }
}

/// The first position whose key does not come before `x`.
fn lower_bound(keys: &Vec<Vec<char>>, x: &Vec<char>) -> (p: usize)
    ensures
        p <= keys@.len(),
        forall|i: int| 0 <= i < p ==> text_lt(#[trigger] keys@[i]@, x@),
        p < keys@.len() ==> !text_lt(keys@[p as int]@, x@),
{
    let mut p: usize = 0;
    while p < keys.len()
        invariant
            p <= keys@.len(),
            forall|i: int| 0 <= i < p ==> text_lt(#[trigger] keys@[i]@, x@),
        decreases keys@.len() - p,
    {
        if compare_texts(&keys[p], x) >= 0 {
            return p;
        }
        p = p + 1;
    }
    p
}

/// Texts strictly increasing.
pub open spec fn strictly_sorted(s: Seq<Seq<char>>) -> bool {
    forall|i: int, j: int| 0 <= i < j < s.len() ==> text_lt(s[i], s[j])
}


/// Sorts texts and drops repeats (a suggestion list): the result is
/// strictly increasing and holds exactly the texts of the input.
pub fn sorted_unique(items: &Vec<String>) -> (res: Vec<String>)
    ensures
        strictly_sorted(texts(res@)),
        forall|t: Seq<char>| texts(res@).contains(t) <==> texts(items@).contains(t),
{
    let mut out: Vec<String> = Vec::new();
    let mut keys: Vec<Vec<char>> = Vec::new();
    let mut k: usize = 0;
    while k < items.len()
        invariant
            k <= items@.len(),
            out@.len() == keys@.len(),
            forall|i: int| 0 <= i < keys@.len() ==> #[trigger] keys@[i]@ == out@[i]@,
            strictly_sorted(texts(out@)),
            forall|t: Seq<char>| texts(out@).contains(t) <==> texts(items@.take(k as int)).contains(t),
        decreases items@.len() - k,
    {
        let x = chars_of(items[k].as_str());
        let ghost xs = items@[k as int]@;
        let ghost before = texts(out@);
        let p = lower_bound(&keys, &x);
        assert forall|i: int| 0 <= i < p implies text_lt(#[trigger] before[i], xs) by {
            assert(before[i] == keys@[i]@);
        }
        let dup = p < keys.len() && compare_texts(&keys[p], &x) == 0;
        let ghost taken = texts(items@.take(k + 1));
        assert(items@.take(k + 1) =~= items@.take(k as int).push(items@[k as int]));
        assert(taken =~= texts(items@.take(k as int)).push(xs));
        if dup {
            assert(before[p as int] == xs);
            assert forall|t: Seq<char>| texts(out@).contains(t) <==> taken.contains(t) by {
                if before.contains(t) {
                    assert(texts(items@.take(k as int)).contains(t));
                    let q = choose|q: int| 0 <= q < k && texts(items@.take(k as int))[q] == t;
                    assert(taken[q] == t);
                }
                if t == xs {
                    assert(taken[k as int] == xs);
                } else if taken.contains(t) {
                    let m = choose|m: int| 0 <= m < taken.len() && taken[m] == t;
                    assert(texts(items@.take(k as int))[m] == t);
                    assert(texts(items@.take(k as int)).contains(t));
                }
            }
        } else {
            proof {
                if p < keys@.len() {
                    assert(before[p as int] == keys@[p as int]@);
                    lemma_text_lt_total(before[p as int], xs);
                    assert(text_lt(xs, before[p as int]));
                }
            }
            let ghost old_keys = keys@;
            let ghost old_out = out@;
            out.insert(p, String::from_str(items[k].as_str()));
            keys.insert(p, x);
            proof {
                let now = texts(out@);
                assert(now =~= before.insert(p as int, xs));
                assert forall|i: int| 0 <= i < keys@.len() implies #[trigger] keys@[i]@ == out@[i]@ by {
                    if i < p {
                        assert(keys@[i] == old_keys[i] && out@[i] == old_out[i]);
                    } else if i > p {
                        assert(keys@[i] == old_keys[i - 1] && out@[i] == old_out[i - 1]);
                    }
                }
                assert forall|i: int, j: int| 0 <= i < j < now.len() implies text_lt(now[i], now[j]) by {
                    if j < p {
                        assert(now[i] == before[i] && now[j] == before[j]);
                    } else if j == p {
                        assert(now[i] == before[i]);
                    } else if i < p {
                        assert(now[i] == before[i] && now[j] == before[j - 1]);
                        assert(text_lt(before[i], xs));
                        assert(text_lt(xs, before[p as int]));
                        if j - 1 > p {
                            lemma_text_lt_transitive(xs, before[p as int], before[j - 1]);
                        }
                        lemma_text_lt_transitive(before[i], xs, before[j - 1]);
                    } else if i == p {
                        assert(now[j] == before[j - 1]);
                        if j - 1 > p {
                            lemma_text_lt_transitive(xs, before[p as int], before[j - 1]);
                        }
                    } else {
                        assert(now[i] == before[i - 1] && now[j] == before[j - 1]);
                    }
                }
                assert forall|t: Seq<char>| now.contains(t) <==> taken.contains(t) by {
                    if now.contains(t) {
                        let m = choose|m: int| 0 <= m < now.len() && now[m] == t;
                        if m == p {
                            assert(taken[k as int] == xs);
                        } else {
                            let m0 = if m < p { m } else { m - 1 };
                            assert(now[m] == before[m0]);
                            assert(before.contains(t));
                            let q = choose|q: int| 0 <= q < k && texts(items@.take(k as int))[q] == t;
                            assert(taken[q] == t);
                        }
                    }
                    if taken.contains(t) {
                        let m = choose|m: int| 0 <= m < taken.len() && taken[m] == t;
                        if m == k {
                            assert(now[p as int] == xs);
                        } else {
                            assert(texts(items@.take(k as int))[m] == t);
                            assert(texts(items@.take(k as int)).contains(t));
                            assert(before.contains(t));
                            let q = choose|q: int| 0 <= q < before.len() && before[q] == t;
                            if q < p {
                                assert(now[q] == t);
                            } else {
                                assert(now[q + 1] == t);
                            }
                        }
                    }
                }
            }
        }
        k = k + 1;
    }
    assert(items@.take(items@.len() as int) =~= items@);
    out
}


/// Suggestion text of a talkgroup: its number, then ` — ` and its name when it has one.
pub open spec fn tg_suggestion_spec(tg: Talkgroup) -> Seq<char> {
    match tg.name {
        Some(n) => signed_decimal(tg.tgid as int) + " \u{2014} "@ + n@,
        None => signed_decimal(tg.tgid as int),
    }
}

fn tg_suggestion(tg: &Talkgroup) -> (res: String)
    ensures
        res@ == tg_suggestion_spec(*tg),
{
    let mut s = String::new();
    push_signed(&mut s, tg.tgid as i64);
    match &tg.name {
        Some(n) => {
            s.append(" \u{2014} ");
            s.append(n.as_str());
        },
        None => {},
    }
    s
}

/// Talkgroup suggestions: each talkgroup's suggestion text, sorted, once each.
pub fn talkgroup_suggestions(tgs: &Vec<Talkgroup>) -> (res: Vec<String>)
    ensures
        strictly_sorted(texts(res@)),
        forall|t: Seq<char>| texts(res@).contains(t) <==> exists|i: int| 0 <= i < tgs@.len()
            && #[trigger] tg_suggestion_spec(tgs@[i]) == t,
{
    let mut all: Vec<String> = Vec::new();
    let mut i: usize = 0;
    while i < tgs.len()
        invariant
            i <= tgs@.len(),
            all@.len() == i,
            forall|k: int| 0 <= k < i ==> #[trigger] all@[k]@ == tg_suggestion_spec(tgs@[k]),
        decreases tgs@.len() - i,
    {
        all.push(tg_suggestion(&tgs[i]));
        i = i + 1;
    }
    let res = sorted_unique(&all);
    assert forall|t: Seq<char>| texts(all@).contains(t) <==> exists|i: int| 0 <= i < tgs@.len()
        && #[trigger] tg_suggestion_spec(tgs@[i]) == t by {
        if texts(all@).contains(t) {
            let k = choose|k: int| 0 <= k < all@.len() && texts(all@)[k] == t;
            assert(tg_suggestion_spec(tgs@[k]) == t);
        }
        if exists|i: int| 0 <= i < tgs@.len() && #[trigger] tg_suggestion_spec(tgs@[i]) == t {
            let k = choose|k: int| 0 <= k < tgs@.len() && #[trigger] tg_suggestion_spec(tgs@[k]) == t;
            assert(texts(all@)[k] == t);
        }
    }
    res
}

/// Radio ID suggestions: each ID in decimal, sorted as text, once each.
pub fn radio_id_suggestions(uids: &Vec<i64>) -> (res: Vec<String>)
    ensures
        strictly_sorted(texts(res@)),
        forall|t: Seq<char>| texts(res@).contains(t) <==> exists|i: int| 0 <= i < uids@.len()
            && #[trigger] signed_decimal(uids@[i] as int) == t,
{
    let mut all: Vec<String> = Vec::new();
    let mut i: usize = 0;
    while i < uids.len()
        invariant
            i <= uids@.len(),
            all@.len() == i,
            forall|k: int| 0 <= k < i ==> #[trigger] all@[k]@ == signed_decimal(uids@[k] as int),
        decreases uids@.len() - i,
    {
        let mut s = String::new();
        push_signed(&mut s, uids[i]);
        all.push(s);
        i = i + 1;
    }
    let res = sorted_unique(&all);
    assert forall|t: Seq<char>| texts(all@).contains(t) <==> exists|i: int| 0 <= i < uids@.len()
        && #[trigger] signed_decimal(uids@[i] as int) == t by {
        if texts(all@).contains(t) {
            let k = choose|k: int| 0 <= k < all@.len() && texts(all@)[k] == t;
            assert(signed_decimal(uids@[k] as int) == t);
        }
        if exists|i: int| 0 <= i < uids@.len() && #[trigger] signed_decimal(uids@[i] as int) == t {
            let k = choose|k: int| 0 <= k < uids@.len() && #[trigger] signed_decimal(uids@[k] as int) == t;
            assert(texts(all@)[k] == t);
        }
    }
    res
}

/// Channel name suggestions: the non-empty labels, sorted, once each.
pub fn channel_suggestions(labels: &Vec<String>) -> (res: Vec<String>)
    ensures
        strictly_sorted(texts(res@)),
        forall|t: Seq<char>| texts(res@).contains(t) <==> (t.len() > 0 && texts(labels@).contains(t)),
{
    let mut all: Vec<String> = Vec::new();
    let mut i: usize = 0;
    while i < labels.len()
        invariant
            i <= labels@.len(),
            forall|t: Seq<char>| texts(all@).contains(t) <==> (t.len() > 0
                && texts(labels@.take(i as int)).contains(t)),
        decreases labels@.len() - i,
    {
        let ghost before = texts(all@);
        let ghost li = labels@[i as int]@;
        assert(labels@.take(i + 1) =~= labels@.take(i as int).push(labels@[i as int]));
        assert(texts(labels@.take(i + 1)) =~= texts(labels@.take(i as int)).push(li));
        if labels[i].as_str().unicode_len() > 0 {
            all.push(String::from_str(labels[i].as_str()));
            assert(texts(all@) =~= before.push(li));
        }
        proof {
            let after = texts(all@);
            let prev = texts(labels@.take(i as int));
            let next = texts(labels@.take(i + 1));
            assert(after == if li.len() > 0 { before.push(li) } else { before });
            assert forall|t: Seq<char>| after.contains(t) <==> (t.len() > 0 && next.contains(t)) by {
                if after.contains(t) {
                    let q = choose|q: int| 0 <= q < after.len() && after[q] == t;
                    if q < before.len() {
                        assert(before[q] == t);
                        assert(before.contains(t));
                        let m = choose|m: int| 0 <= m < prev.len() && prev[m] == t;
                        assert(next[m] == t);
                    } else {
                        assert(t == li);
                        assert(next[i as int] == li);
                    }
                }
                if t.len() > 0 && next.contains(t) {
                    let m = choose|m: int| 0 <= m < next.len() && next[m] == t;
                    if m < i {
                        assert(prev[m] == t);
                        assert(prev.contains(t));
                        assert(before.contains(t));
                        let q = choose|q: int| 0 <= q < before.len() && before[q] == t;
                        assert(after[q] == t);
                    } else {
                        assert(t == li);
                        assert(after[before.len() as int] == li);
                    }
                }
            }
        }
        i = i + 1;
    }
    assert(labels@.take(labels@.len() as int) =~= labels@);
    sorted_unique(&all)
}

} // verus!
