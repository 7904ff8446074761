use vstd::prelude::*;
use crate::dispatch::{has_substring, str_contains};
use crate::filters::{push_signed, signed_decimal};
use crate::strbuf::{lowercase_of, str_eq, to_lowercase};
use std::collections::HashMap;
use vstd::string::{StrSliceExecFns, StringExecFns};

verus! {

/// A talkgroup of the trunked network's directory.
pub struct Talkgroup {
    pub tgid: i32,
    pub name: Option<String>,
    pub department: Option<String>,
    pub tag: Option<String>,
    pub scan_enabled: bool,
}

/// The text of an optional field, empty when absent.
pub open spec fn text_or_empty(o: Option<String>) -> Seq<char> {
    match o {
        Some(s) => s@,
        None => Seq::empty(),
    }
}

/// Whether a talkgroup matches the lower-cased search text `q`: its number,
/// or its lower-cased name, department or tag, contains `q`.
pub open spec fn tg_matches_spec(tg: Talkgroup, q: Seq<char>) -> bool {
    ||| has_substring(signed_decimal(tg.tgid as int), q)
    ||| has_substring(lowercase_of(text_or_empty(tg.name)), q)
    ||| has_substring(lowercase_of(text_or_empty(tg.department)), q)
    ||| has_substring(lowercase_of(text_or_empty(tg.tag)), q)
}

fn lower_contains(o: &Option<String>, q: &str) -> (r: bool)
    ensures
        r == has_substring(lowercase_of(text_or_empty(*o)), q@),
{
    let lower = match o {
        Some(s) => to_lowercase(s.as_str()),
        None => {
            let empty = String::new();
            to_lowercase(empty.as_str())
        },
    };
    str_contains(lower.as_str(), q)
}

/// Whether the directory search (already lower-cased) matches a talkgroup.
pub fn tg_matches(tg: &Talkgroup, q: &str) -> (r: bool)
    ensures
        r == tg_matches_spec(*tg, q@),
{
    let mut num = String::new();
    push_signed(&mut num, tg.tgid as i64);
    assert(num@ == signed_decimal(tg.tgid as int));
    str_contains(num.as_str(), q) || lower_contains(&tg.name, q) || lower_contains(&tg.department, q)
        || lower_contains(&tg.tag, q)
}

/// Indices (ascending) of the first `n` talkgroups that the search `q`
/// shows: all of them when `q` is empty.
pub open spec fn tg_shown(tgs: Seq<Talkgroup>, q: Seq<char>, n: nat) -> Seq<usize>
    decreases n,
{
    if n == 0 {
        Seq::empty()
    } else {
        let p = tg_shown(tgs, q, (n - 1) as nat);
        if q.len() == 0 || tg_matches_spec(tgs[n - 1], q) {
            p.push((n - 1) as usize)
        } else {
            p
        }
    }
}

proof fn lemma_tg_shown_in_range(tgs: Seq<Talkgroup>, q: Seq<char>, n: nat)
    ensures
        forall|k: int| 0 <= k < tg_shown(tgs, q, n).len() ==> #[trigger] tg_shown(tgs, q, n)[k] < n,
    decreases n,
{
    if n > 0 {
        let p = tg_shown(tgs, q, (n - 1) as nat);
        lemma_tg_shown_in_range(tgs, q, (n - 1) as nat);
        assert forall|k: int| 0 <= k < tg_shown(tgs, q, n).len() implies #[trigger] tg_shown(tgs, q, n)[k] < n by {
            if k < p.len() {
                assert(tg_shown(tgs, q, n)[k] == p[k]);
            }
        }
    }
}

/// Indices of the talkgroups that the directory search `search` shows
/// (the search is lower-cased first; an empty one shows all).
pub fn filter_talkgroups(tgs: &Vec<Talkgroup>, search: &str) -> (res: Vec<usize>)
    ensures
        res@ == tg_shown(tgs@, lowercase_of(search@), tgs@.len() as nat),
        forall|k: int| 0 <= k < res@.len() ==> #[trigger] res@[k] < tgs@.len(),
{
    let q = to_lowercase(search);
    let empty = q.as_str().unicode_len() == 0;
    let mut out: Vec<usize> = Vec::new();
    let mut i: usize = 0;
    while i < tgs.len()
        invariant
            i <= tgs@.len(),
            q@ == lowercase_of(search@),
            empty == (q@.len() == 0),
            out@ == tg_shown(tgs@, q@, i as nat),
        decreases tgs@.len() - i,
    {
        if empty || tg_matches(&tgs[i], q.as_str()) {
            out.push(i);
        }
        i = i + 1;
    }
    proof {
        lemma_tg_shown_in_range(tgs@, q@, tgs@.len() as nat);
    }
    out
}

} // verus!

verus! {

/// The department a talkgroup is listed under.
pub open spec fn dept_key(tg: Talkgroup) -> Seq<char> {
    match tg.department {
        Some(d) => d@,
        None => "(Unassigned)"@,
    }
}

/// The distinct entries of `s`, in order of first appearance.
pub open spec fn first_seen(s: Seq<Seq<char>>) -> Seq<Seq<char>>
    decreases s.len(),
{
    if s.len() == 0 {
        s
    } else {
        let p = first_seen(s.drop_last());
        if p.contains(s.last()) {
            p
        } else {
            p.push(s.last())
        }
    }
}

/// Departments of the listed talkgroups, in list order.
pub open spec fn shown_keys(tgs: Seq<Talkgroup>, idx: Seq<usize>) -> Seq<Seq<char>> {
    idx.map_values(|i: usize| dept_key(tgs[i as int]))
}

/// The listed talkgroups (in list order) whose department is `d`.
pub open spec fn members_of(tgs: Seq<Talkgroup>, idx: Seq<usize>, d: Seq<char>) -> Seq<usize> {
    idx.filter(|i: usize| dept_key(tgs[i as int]) == d)
}

/// The department tree: each department in order of first appearance, with
/// the listed talkgroups of that department in list order.
pub open spec fn departments_spec(tgs: Seq<Talkgroup>, idx: Seq<usize>) -> Seq<(Seq<char>, Seq<usize>)> {
    let names = first_seen(shown_keys(tgs, idx));
    Seq::new(names.len(), |j: int| (names[j], members_of(tgs, idx, names[j])))
}

/// Whether no entry occurs twice.
pub open spec fn distinct_texts(s: Seq<Seq<char>>) -> bool {
    forall|a: int, b: int| 0 <= a < b < s.len() ==> s[a] != s[b]
}

pub proof fn lemma_first_seen(s: Seq<Seq<char>>)
    ensures
        forall|v: Seq<char>| first_seen(s).contains(v) <==> s.contains(v),
        distinct_texts(first_seen(s)),
    decreases s.len(),
{
    if s.len() > 0 {
        let t = s.drop_last();
        lemma_first_seen(t);
        let p = first_seen(t);
        assert forall|v: Seq<char>| first_seen(s).contains(v) <==> s.contains(v) by {
            if s.contains(v) {
                let k = choose|k: int| 0 <= k < s.len() && s[k] == v;
                if k < t.len() {
                    assert(t[k] == v);
                    assert(t.contains(v));
                }
                if !p.contains(s.last()) {
                    assert(p.push(s.last())[p.len() as int] == s.last());
                }
                if p.contains(v) && !p.contains(s.last()) {
                    let m = choose|m: int| 0 <= m < p.len() && p[m] == v;
                    assert(p.push(s.last())[m] == v);
                }
            }
            if first_seen(s).contains(v) {
                let f = first_seen(s);
                let m = choose|m: int| 0 <= m < f.len() && f[m] == v;
                if p.contains(s.last()) || m < p.len() {
                    assert(p[m] == v);
                    assert(p.contains(v));
                    assert(t.contains(v));
                    let k = choose|k: int| 0 <= k < t.len() && t[k] == v;
                    assert(s[k] == t[k]);
                    assert(s[k] == v);
                } else {
                    assert(s[s.len() - 1] == v);
                }
            }
        }
        if !p.contains(s.last()) {
            let f = p.push(s.last());
            assert forall|a: int, b: int| 0 <= a < b < f.len() implies f[a] != f[b] by {
                if b == p.len() {
                    assert(f[a] == p[a]);
                }
            }
        }
    }
}

proof fn lemma_filter_push(s: Seq<usize>, x: usize, pred: spec_fn(usize) -> bool)
    ensures
        s.push(x).filter(pred) == if pred(x) { s.filter(pred).push(x) } else { s.filter(pred) },
{
    reveal(Seq::filter);
    assert(s.push(x).drop_last() =~= s);
}

proof fn lemma_filter_none(s: Seq<usize>, pred: spec_fn(usize) -> bool)
    requires
        forall|k: int| 0 <= k < s.len() ==> !pred(#[trigger] s[k]),
    ensures
        s.filter(pred) == Seq::<usize>::empty(),
    decreases s.len(),
{
    reveal(Seq::filter);
    if s.len() > 0 {
        let t = s.drop_last();
        assert forall|k: int| 0 <= k < t.len() implies !pred(#[trigger] t[k]) by {
            assert(t[k] == s[k]);
        }
        lemma_filter_none(t, pred);
    }
}

/// The name a talkgroup is filed under, as text.
fn dept_name(tg: &Talkgroup) -> (res: &str)
    ensures
        res@ == dept_key(*tg),
{
    match &tg.department {
        Some(d) => d.as_str(),
        None => "(Unassigned)",
    }
}

pub(crate) fn find_group<T>(groups: &Vec<(String, T)>, k: &str) -> (r: Option<usize>)
    ensures
        match r {
            Some(j) => j < groups@.len() && groups@[j as int].0@ == k@,
            None => forall|m: int| 0 <= m < groups@.len() ==> #[trigger] groups@[m].0@ != k@,
        },
{
    let mut j: usize = 0;
    while j < groups.len()
        invariant
            j <= groups@.len(),
            forall|m: int| 0 <= m < j ==> #[trigger] groups@[m].0@ != k@,
        decreases groups@.len() - j,
    {
        if str_eq(groups[j].0.as_str(), k) {
            return Some(j);
        }
        j = j + 1;
    }
    None
}

pub open spec fn group_views(g: Seq<(String, Vec<usize>)>) -> Seq<(Seq<char>, Seq<usize>)> {
    g.map_values(|e: (String, Vec<usize>)| (e.0@, e.1@))
}

/// Groups the listed talkgroups (indices into `tgs`) by department, in
/// order of first appearance; a talkgroup without one is filed under
/// `(Unassigned)`.
pub fn group_by_department(tgs: &Vec<Talkgroup>, shown: &Vec<usize>) -> (res: Vec<(String, Vec<usize>)>)
    requires
        forall|k: int| 0 <= k < shown@.len() ==> #[trigger] shown@[k] < tgs@.len(),
    ensures
        group_views(res@) == departments_spec(tgs@, shown@),
{
    let mut out: Vec<(String, Vec<usize>)> = Vec::new();
    let mut i: usize = 0;
    assert(departments_spec(tgs@, shown@.take(0)) =~= Seq::<(Seq<char>, Seq<usize>)>::empty());
    while i < shown.len()
        invariant
            i <= shown@.len(),
            forall|k: int| 0 <= k < shown@.len() ==> #[trigger] shown@[k] < tgs@.len(),
            group_views(out@) == departments_spec(tgs@, shown@.take(i as int)),
        decreases shown@.len() - i,
    {
        let x = shown[i];
        let k = dept_name(&tgs[x]);
        let ghost pre = shown@.take(i as int);
        let ghost post = shown@.take(i + 1);
        let ghost kk = dept_key(tgs@[x as int]);
        let ghost names = first_seen(shown_keys(tgs@, pre));
        assert(post =~= pre.push(x));
        assert(shown_keys(tgs@, post) =~= shown_keys(tgs@, pre).push(kk));
        assert(shown_keys(tgs@, post).drop_last() =~= shown_keys(tgs@, pre));
        proof {
            lemma_first_seen(shown_keys(tgs@, pre));
            assert(group_views(out@).len() == out@.len());
            assert forall|m: int| 0 <= m < out@.len() implies #[trigger] out@[m].0@ == names[m] by {
                assert(group_views(out@)[m] == departments_spec(tgs@, pre)[m]);
            }
        }
        let found = find_group(&out, k);
        if let Some(j) = found {
            let ghost before = group_views(out@);
            let ghost old_out = out@;
            assert(names[j as int] == kk);
            assert(names.contains(kk));
            assert(first_seen(shown_keys(tgs@, post)) == names);
            out[j].1.push(x);
            proof {
                let pred = |m: usize| dept_key(tgs@[m as int]) == kk;
                lemma_filter_push(pre, x, pred);
                assert(members_of(tgs@, post, kk) == members_of(tgs@, pre, kk).push(x));
                assert forall|m: int| 0 <= m < names.len() && m != j implies
                    members_of(tgs@, post, names[m]) == #[trigger] members_of(tgs@, pre, names[m]) by {
                    let pm = |y: usize| dept_key(tgs@[y as int]) == names[m];
                    lemma_filter_push(pre, x, pm);
                    assert(names[m] != names[j as int]);
                }
                assert(out@.len() == old_out.len());
                assert(departments_spec(tgs@, post).len() == names.len());
                assert forall|m: int| 0 <= m < names.len() implies #[trigger] group_views(out@)[m]
                    == departments_spec(tgs@, post)[m] by {
                    assert(before[m] == departments_spec(tgs@, pre)[m]);
                    if m != j {
                        assert(out@[m] == old_out[m]);
                        assert(group_views(out@)[m] == before[m]);
                    } else {
                        assert(out@[m].0 == old_out[m].0);
                        assert(out@[m].1@ == old_out[m].1@.push(x));
                    }
                }
                assert(group_views(out@) =~= departments_spec(tgs@, post));
            }
        } else {
            assert(!names.contains(kk)) by {
                if names.contains(kk) {
                    let m = choose|m: int| 0 <= m < names.len() && names[m] == kk;
                    assert(out@[m].0@ == names[m]);
                }
            }
            assert(first_seen(shown_keys(tgs@, post)) == names.push(kk));
            let ghost old_out = out@;
            let ghost before = group_views(out@);
            let mut members: Vec<usize> = Vec::new();
            members.push(x);
            out.push((String::from_str(k), members));
            proof {
                let pred = |m: usize| dept_key(tgs@[m as int]) == kk;
                assert forall|m: int| 0 <= m < pre.len() implies !pred(#[trigger] pre[m]) by {
                    assert(shown_keys(tgs@, pre)[m] == dept_key(tgs@[pre[m] as int]));
                    assert(shown_keys(tgs@, pre).contains(dept_key(tgs@[pre[m] as int])));
                }
                lemma_filter_none(pre, pred);
                lemma_filter_push(pre, x, pred);
                assert(members_of(tgs@, post, kk) =~= seq![x]);
                assert forall|m: int| 0 <= m < names.len() implies
                    members_of(tgs@, post, names[m]) == #[trigger] members_of(tgs@, pre, names[m]) by {
                    let pm = |y: usize| dept_key(tgs@[y as int]) == names[m];
                    lemma_filter_push(pre, x, pm);
                    assert(names[m] != kk);
                }
                assert(departments_spec(tgs@, post).len() == names.len() + 1);
                assert forall|m: int| 0 <= m <= names.len() implies #[trigger] group_views(out@)[m]
                    == departments_spec(tgs@, post)[m] by {
                    if m < names.len() {
                        assert(out@[m] == old_out[m]);
                        assert(before[m] == departments_spec(tgs@, pre)[m]);
                    }
                }
                assert(group_views(out@) =~= departments_spec(tgs@, post));
            }
        }
        i = i + 1;
    }
    assert(shown@.take(shown@.len() as int) =~= shown@);
    out
}


proof fn lemma_filter_from(s: Seq<usize>, pred: spec_fn(usize) -> bool, x: usize)
    requires
        s.filter(pred).contains(x),
    ensures
        s.contains(x),
        pred(x),
    decreases s.len(),
{
    reveal(Seq::filter);
    broadcast use vstd::seq_lib::group_filter_ensures;
    let f = s.filter(pred);
    let k = choose|k: int| 0 <= k < f.len() && f[k] == x;
    assert(pred(f[k]));
    if s.len() > 0 {
        let t = s.drop_last();
        if pred(s.last()) && k == f.len() - 1 {
            assert(s[s.len() - 1] == x);
        } else {
            assert(t.filter(pred)[k] == x);
            lemma_filter_from(t, pred, x);
            let m = choose|m: int| 0 <= m < t.len() && t[m] == x;
            assert(s[m] == x);
        }
    }
}

/// The department tree files every listed talkgroup under its own
/// department and under no other: each department appears once, a
/// department's list holds exactly the listed talkgroups of that
/// department, and every listed talkgroup's department appears.
pub proof fn law_departments_partition(tgs: Seq<Talkgroup>, idx: Seq<usize>)
    ensures
        forall|a: int, b: int| 0 <= a < b < departments_spec(tgs, idx).len()
            ==> departments_spec(tgs, idx)[a].0 != departments_spec(tgs, idx)[b].0,
        forall|j: int, x: usize| 0 <= j < departments_spec(tgs, idx).len()
            ==> (#[trigger] departments_spec(tgs, idx)[j].1.contains(x)
                <==> (idx.contains(x) && dept_key(tgs[x as int]) == departments_spec(tgs, idx)[j].0)),
        forall|p: int| #![trigger idx[p]] 0 <= p < idx.len() ==> exists|j: int| 0 <= j < departments_spec(tgs, idx).len()
            && #[trigger] departments_spec(tgs, idx)[j].0 == dept_key(tgs[idx[p] as int]),
{
    let keys = shown_keys(tgs, idx);
    let names = first_seen(keys);
    let d = departments_spec(tgs, idx);
    lemma_first_seen(keys);
    assert forall|j: int, x: usize| 0 <= j < d.len() implies
        (#[trigger] d[j].1.contains(x) <==> (idx.contains(x) && dept_key(tgs[x as int]) == d[j].0)) by {
        let pred = |i: usize| dept_key(tgs[i as int]) == names[j];
        broadcast use vstd::seq_lib::group_filter_ensures;
        if d[j].1.contains(x) {
            lemma_filter_from(idx, pred, x);
        }
        if idx.contains(x) && dept_key(tgs[x as int]) == d[j].0 {
            let p = choose|p: int| 0 <= p < idx.len() && idx[p] == x;
            assert(pred(idx[p]));
        }
    }
    assert forall|p: int| #![trigger idx[p]] 0 <= p < idx.len() implies exists|j: int| 0 <= j < d.len()
        && #[trigger] d[j].0 == dept_key(tgs[idx[p] as int]) by {
        assert(keys[p] == dept_key(tgs[idx[p] as int]));
        assert(keys.contains(keys[p]));
        assert(names.contains(keys[p]));
        let j = choose|j: int| 0 <= j < names.len() && names[j] == keys[p];
        assert(d[j].0 == names[j]);
    }
}

} // verus!

verus! {

/// Number of the listed talkgroups that are scanned.
pub open spec fn watched_count(tgs: Seq<Talkgroup>, members: Seq<usize>) -> nat
    decreases members.len(),
{
    if members.len() == 0 {
        0
    } else {
        watched_count(tgs, members.drop_last()) + if tgs[members.last() as int].scan_enabled { 1nat } else { 0nat }
    }
}

/// The scan state of a department row: how many of its talkgroups are
/// scanned, whether all or only some are, and what a click on its box sets
/// (scanning on when none is scanned, off otherwise).
#[derive(Clone, Copy, Debug, PartialEq, Eq, Structural)]
pub struct DeptScan {
    pub watched: usize,
    pub total: usize,
    pub all_watched: bool,
    pub partial: bool,
    pub enable_on_click: bool,
}

pub fn department_scan(tgs: &Vec<Talkgroup>, members: &Vec<usize>) -> (res: DeptScan)
    requires
        forall|k: int| 0 <= k < members@.len() ==> #[trigger] members@[k] < tgs@.len(),
    ensures
        res.watched == watched_count(tgs@, members@),
        res.total == members@.len(),
        res.all_watched == (res.watched == res.total),
        res.partial == (res.watched > 0 && res.watched != res.total),
        res.enable_on_click == (res.watched == 0),
{
    let mut watched: usize = 0;
    let mut i: usize = 0;
    while i < members.len()
        invariant
            i <= members@.len(),
            forall|k: int| 0 <= k < members@.len() ==> #[trigger] members@[k] < tgs@.len(),
            watched == watched_count(tgs@, members@.take(i as int)),
            watched <= i,
        decreases members@.len() - i,
    {
        assert(members@.take(i + 1).drop_last() =~= members@.take(i as int));
        if tgs[members[i]].scan_enabled {
            watched = watched + 1;
        }
        i = i + 1;
    }
    assert(members@.take(members@.len() as int) =~= members@);
    let total = members.len();
    DeptScan {
        watched,
        total,
        all_watched: watched == total,
        partial: watched > 0 && watched != total,
        enable_on_click: watched == 0,
    }
}

/// The directory entry for talkgroup number `id`: the last one with that
/// number, as a lookup table built from the directory in order keeps it.
pub open spec fn lookup_tg(tgs: Seq<Talkgroup>, id: i32) -> Option<Talkgroup>
    decreases tgs.len(),
{
    if tgs.len() == 0 {
        None
    } else if tgs.last().tgid == id {
        Some(tgs.last())
    } else {
        lookup_tg(tgs.drop_last(), id)
    }
}

/// Number of a group's talkgroup numbers that the directory lists as scanned.
pub open spec fn group_watched_count(tgs: Seq<Talkgroup>, ids: Seq<i32>) -> nat
    decreases ids.len(),
{
    if ids.len() == 0 {
        0
    } else {
        group_watched_count(tgs, ids.drop_last()) + match lookup_tg(tgs, ids.last()) {
            Some(tg) => if tg.scan_enabled { 1nat } else { 0nat },
            None => 0nat,
        }
    }
}

fn tg_scanned(tgs: &Vec<Talkgroup>, id: i32) -> (r: bool)
    ensures
        r == (lookup_tg(tgs@, id) matches Some(tg) && tg.scan_enabled),
{
    let mut i: usize = tgs.len();
    assert(tgs@.take(tgs@.len() as int) =~= tgs@);
    while i > 0
        invariant
            i <= tgs@.len(),
            lookup_tg(tgs@, id) == lookup_tg(tgs@.take(i as int), id),
        decreases i,
    {
        let ghost t = tgs@.take(i as int);
        assert(t.drop_last() =~= tgs@.take(i - 1));
        if tgs[i - 1].tgid == id {
            return tgs[i - 1].scan_enabled;
        }
        i = i - 1;
    }
    false
}

/// How many talkgroups of a group are scanned.
pub fn group_watched(tgs: &Vec<Talkgroup>, ids: &Vec<i32>) -> (res: usize)
    ensures
        res == group_watched_count(tgs@, ids@),
{
    let mut n: usize = 0;
    let mut i: usize = 0;
    while i < ids.len()
        invariant
            i <= ids@.len(),
            n == group_watched_count(tgs@, ids@.take(i as int)),
            n <= i,
        decreases ids@.len() - i,
    {
        assert(ids@.take(i + 1).drop_last() =~= ids@.take(i as int));
        if tg_scanned(tgs, ids[i]) {
            n = n + 1;
        }
        i = i + 1;
    }
    assert(ids@.take(ids@.len() as int) =~= ids@);
    n
}

} // verus!

verus! {

broadcast use vstd::std_specs::hash::group_hash_axioms;

/// The name a talkgroup row puts in the name cache: its name when it has
/// one (even an empty one), else its department, else nothing.
pub open spec fn cached_name(tg: Talkgroup) -> Seq<char> {
    match tg.name {
        Some(n) => n@,
        None => text_or_empty(tg.department),
    }
}

/// The name cache built from talkgroup rows in order, keyed by the
/// talkgroup number taken as `u32`: each row with a non-empty cached name
/// sets its entry, a later row overwriting an earlier one.
pub open spec fn name_cache_spec(tgs: Seq<Talkgroup>) -> Map<u32, Seq<char>>
    decreases tgs.len(),
{
    if tgs.len() == 0 {
        Map::empty()
    } else {
        let m = name_cache_spec(tgs.drop_last());
        let tg = tgs.last();
        if cached_name(tg).len() > 0 {
            m.insert(tg.tgid as u32, cached_name(tg))
        } else {
            m
        }
    }
}

/// The department cache built the same way from each row with a non-empty
/// department.
pub open spec fn dept_cache_spec(tgs: Seq<Talkgroup>) -> Map<u32, Seq<char>>
    decreases tgs.len(),
{
    if tgs.len() == 0 {
        Map::empty()
    } else {
        let m = dept_cache_spec(tgs.drop_last());
        let tg = tgs.last();
        if text_or_empty(tg.department).len() > 0 {
            m.insert(tg.tgid as u32, text_or_empty(tg.department))
        } else {
            m
        }
    }
}

/// Whether a map of strings holds, key for key, the texts of `m`.
pub open spec fn holds_texts(h: Map<u32, String>, m: Map<u32, Seq<char>>) -> bool {
    &&& h.dom() == m.dom()
    &&& forall|k: u32| #[trigger] h.contains_key(k) ==> h[k]@ == m[k]
}

/// Builds the talkgroup name and department caches from the directory's
/// rows (name cache first).
pub fn talkgroup_caches(tgs: &Vec<Talkgroup>) -> (res: (HashMap<u32, String>, HashMap<u32, String>))
    ensures
        holds_texts(res.0@, name_cache_spec(tgs@)),
        holds_texts(res.1@, dept_cache_spec(tgs@)),
{
    let mut names: HashMap<u32, String> = HashMap::new();
    let mut depts: HashMap<u32, String> = HashMap::new();
    let mut i: usize = 0;
    assert(tgs@.take(0) =~= Seq::<Talkgroup>::empty());
    while i < tgs.len()
        invariant
            i <= tgs@.len(),
            holds_texts(names@, name_cache_spec(tgs@.take(i as int))),
            holds_texts(depts@, dept_cache_spec(tgs@.take(i as int))),
        decreases tgs@.len() - i,
    {
        let tg = &tgs[i];
        let key = tg.tgid as u32;
        let ghost before = tgs@.take(i as int);
        assert(tgs@.take(i + 1).drop_last() =~= before);
        assert(tgs@.take(i + 1).last() == *tg);
        let name: &str = match &tg.name {
            Some(n) => n.as_str(),
            None => match &tg.department {
                Some(d) => d.as_str(),
                None => "",
            },
        };
        proof {
            reveal_strlit("");
        }
        assert(name@ == cached_name(*tg));
        if name.unicode_len() > 0 {
            names.insert(key, String::from_str(name));
        }
        match &tg.department {
            Some(d) => {
                if d.unicode_len() > 0 {
                    depts.insert(key, String::from_str(d.as_str()));
                }
            },
            None => {},
        }
        i = i + 1;
    }
    assert(tgs@.take(tgs@.len() as int) =~= tgs@);
    (names, depts)
}


/// The directory search looks in every searched field: a talkgroup is
/// matched exactly when its number, or its lower-cased name, department or
/// tag, contains the search text.
pub proof fn law_search_covers_every_field(tg: Talkgroup, q: Seq<char>)
    ensures
        has_substring(signed_decimal(tg.tgid as int), q) ==> tg_matches_spec(tg, q),
        has_substring(lowercase_of(text_or_empty(tg.name)), q) ==> tg_matches_spec(tg, q),
        has_substring(lowercase_of(text_or_empty(tg.department)), q) ==> tg_matches_spec(tg, q),
        has_substring(lowercase_of(text_or_empty(tg.tag)), q) ==> tg_matches_spec(tg, q),
        tg_matches_spec(tg, q) ==> {
            ||| has_substring(signed_decimal(tg.tgid as int), q)
            ||| has_substring(lowercase_of(text_or_empty(tg.name)), q)
            ||| has_substring(lowercase_of(text_or_empty(tg.department)), q)
            ||| has_substring(lowercase_of(text_or_empty(tg.tag)), q)
        },
{
}

proof fn lemma_tg_shown_contains(tgs: Seq<Talkgroup>, q: Seq<char>, n: nat, i: int)
    requires
        n <= tgs.len(),
        0 <= i < tgs.len(),
        tgs.len() <= usize::MAX,
    ensures
        tg_shown(tgs, q, n).contains(i as usize) <==> (i < n && (q.len() == 0 || tg_matches_spec(tgs[i], q))),
    decreases n,
{
    if n > 0 {
        lemma_tg_shown_contains(tgs, q, (n - 1) as nat, i);
        lemma_tg_shown_in_range(tgs, q, (n - 1) as nat);
        let p = tg_shown(tgs, q, (n - 1) as nat);
        if q.len() == 0 || tg_matches_spec(tgs[n - 1], q) {
            let r = p.push((n - 1) as usize);
            if i == n - 1 {
                assert(r[p.len() as int] == (n - 1) as usize);
            } else if r.contains(i as usize) {
                let k = choose|k: int| 0 <= k < r.len() && r[k] == i as usize;
                if k < p.len() {
                    assert(p[k] == i as usize);
                }
            } else if p.contains(i as usize) {
                let k = choose|k: int| 0 <= k < p.len() && p[k] == i as usize;
                assert(r[k] == i as usize);
            }
        } else if p.contains(i as usize) && i == n - 1 {
            let k = choose|k: int| 0 <= k < p.len() && p[k] == i as usize;
            assert(p[k] < n - 1);
        }
    }
}

/// `filter_talkgroups` shows talkgroup `i` exactly when the search is empty
/// or the lower-cased search text occurs in its number, or in its
/// lower-cased name, department or tag.
pub proof fn law_filter_talkgroups_shows_matches(tgs: Seq<Talkgroup>, search: Seq<char>, i: int)
    requires
        0 <= i < tgs.len(),
        tgs.len() <= usize::MAX,
    ensures
        ({
            let q = lowercase_of(search);
            tg_shown(tgs, q, tgs.len()).contains(i as usize) <==> {
                ||| q.len() == 0
                ||| has_substring(signed_decimal(tgs[i].tgid as int), q)
                ||| has_substring(lowercase_of(text_or_empty(tgs[i].name)), q)
                ||| has_substring(lowercase_of(text_or_empty(tgs[i].department)), q)
                ||| has_substring(lowercase_of(text_or_empty(tgs[i].tag)), q)
            }
        }),
{
    lemma_tg_shown_contains(tgs, lowercase_of(search), tgs.len(), i);
    law_search_covers_every_field(tgs[i], lowercase_of(search));
}

} // verus!
