use vstd::prelude::*;
use crate::strbuf::{str_eq, trim, trimmed};
use crate::talkgroups::find_group;

verus! {

/// Groups as (name, talkgroup numbers) pairs.
pub type GroupSeq = Seq<(Seq<char>, Seq<i32>)>;

/// No two groups share a name.
pub open spec fn distinct_names(ev: GroupSeq) -> bool {
    forall|a: int, b: int| 0 <= a < b < ev.len() ==> ev[a].0 != ev[b].0
}

/// No number occurs twice in a member list.
pub open spec fn no_dup_ids(s: Seq<i32>) -> bool {
    forall|a: int, b: int| 0 <= a < b < s.len() ==> s[a] != s[b]
}

/// The groups as a map from name to member numbers.
pub open spec fn group_map(ev: GroupSeq) -> Map<Seq<char>, Seq<i32>> {
    Map::new(
        |k: Seq<char>| exists|i: int| 0 <= i < ev.len() && ev[i].0 == k,
        |k: Seq<char>| ev[choose|i: int| 0 <= i < ev.len() && ev[i].0 == k].1,
    )
}

proof fn lemma_group_map_at(ev: GroupSeq, i: int)
    requires
        distinct_names(ev),
        0 <= i < ev.len(),
    ensures
        group_map(ev).dom().contains(ev[i].0),
        group_map(ev)[ev[i].0] == ev[i].1,
{
    let k = ev[i].0;
    assert(group_map(ev).dom().contains(k));
    let c = choose|c: int| 0 <= c < ev.len() && ev[c].0 == k;
    if c != i {
        if c < i {
            assert(ev[c].0 != ev[i].0);
        } else {
            assert(ev[i].0 != ev[c].0);
        }
    }
}

proof fn lemma_group_map_push(ev: GroupSeq, k: Seq<char>, v: Seq<i32>)
    requires
        distinct_names(ev),
        !group_map(ev).dom().contains(k),
    ensures
        distinct_names(ev.push((k, v))),
        group_map(ev.push((k, v))) == group_map(ev).insert(k, v),
{
    let e2 = ev.push((k, v));
    assert forall|a: int, b: int| 0 <= a < b < e2.len() implies e2[a].0 != e2[b].0 by {
        if b == ev.len() {
            assert(e2[a] == ev[a]);
            assert(group_map(ev).dom().contains(ev[a].0));
        } else {
            assert(e2[a] == ev[a] && e2[b] == ev[b]);
        }
    }
    let m2 = group_map(e2);
    let m = group_map(ev).insert(k, v);
    assert forall|key: Seq<char>| m2.dom().contains(key) <==> m.dom().contains(key) by {
        if m2.dom().contains(key) {
            let i = choose|i: int| 0 <= i < e2.len() && e2[i].0 == key;
            if i < ev.len() {
                assert(ev[i].0 == key);
            }
        }
        if group_map(ev).dom().contains(key) {
            let i = choose|i: int| 0 <= i < ev.len() && ev[i].0 == key;
            assert(e2[i].0 == key);
        }
        if key == k {
            assert(e2[ev.len() as int].0 == key);
        }
    }
    assert forall|key: Seq<char>| m2.dom().contains(key) implies m2[key] == m[key] by {
        if key == k {
            lemma_group_map_at(e2, ev.len() as int);
        } else {
            let i = choose|i: int| 0 <= i < ev.len() && ev[i].0 == key;
            assert(e2[i] == ev[i]);
            lemma_group_map_at(e2, i);
            lemma_group_map_at(ev, i);
        }
    }
    assert(m2 =~= m);
}

proof fn lemma_group_map_update(ev: GroupSeq, j: int, v: Seq<i32>)
    requires
        distinct_names(ev),
        0 <= j < ev.len(),
    ensures
        distinct_names(ev.update(j, (ev[j].0, v))),
        group_map(ev.update(j, (ev[j].0, v))) == group_map(ev).insert(ev[j].0, v),
{
    let e2 = ev.update(j, (ev[j].0, v));
    assert forall|a: int, b: int| 0 <= a < b < e2.len() implies e2[a].0 != e2[b].0 by {
        assert(e2[a].0 == ev[a].0 && e2[b].0 == ev[b].0);
    }
    let m2 = group_map(e2);
    let m = group_map(ev).insert(ev[j].0, v);
    lemma_group_map_at(ev, j);
    assert forall|key: Seq<char>| m2.dom().contains(key) <==> m.dom().contains(key) by {
        if m2.dom().contains(key) {
            let i = choose|i: int| 0 <= i < e2.len() && e2[i].0 == key;
            assert(ev[i].0 == key);
        }
        if group_map(ev).dom().contains(key) {
            let i = choose|i: int| 0 <= i < ev.len() && ev[i].0 == key;
            assert(e2[i].0 == key);
        }
    }
    assert forall|key: Seq<char>| m2.dom().contains(key) implies m2[key] == m[key] by {
        let i = choose|i: int| 0 <= i < e2.len() && e2[i].0 == key;
        lemma_group_map_at(e2, i);
        if i != j {
            assert(e2[i] == ev[i]);
            lemma_group_map_at(ev, i);
        }
    }
    assert(m2 =~= m);
}

proof fn lemma_group_map_remove(ev: GroupSeq, j: int)
    requires
        distinct_names(ev),
        0 <= j < ev.len(),
    ensures
        distinct_names(ev.remove(j)),
        group_map(ev.remove(j)) == group_map(ev).remove(ev[j].0),
{
    let e2 = ev.remove(j);
    assert forall|a: int, b: int| 0 <= a < b < e2.len() implies e2[a].0 != e2[b].0 by {
        if a < j {
            assert(e2[a] == ev[a]);
        } else {
            assert(e2[a] == ev[a + 1]);
        }
        if b < j {
            assert(e2[b] == ev[b]);
        } else {
            assert(e2[b] == ev[b + 1]);
        }
    }
    let m2 = group_map(e2);
    let m = group_map(ev).remove(ev[j].0);
    assert forall|key: Seq<char>| m2.dom().contains(key) <==> m.dom().contains(key) by {
        if m2.dom().contains(key) {
            let i = choose|i: int| 0 <= i < e2.len() && e2[i].0 == key;
            if i < j {
                assert(ev[i].0 == key);
                assert(ev[i].0 != ev[j].0);
            } else {
                assert(ev[i + 1].0 == key);
                assert(ev[j].0 != ev[i + 1].0);
            }
        }
        if m.dom().contains(key) {
            let i = choose|i: int| 0 <= i < ev.len() && ev[i].0 == key;
            assert(i != j);
            if i < j {
                assert(e2[i].0 == key);
            } else {
                assert(e2[i - 1].0 == key);
            }
        }
    }
    assert forall|key: Seq<char>| m2.dom().contains(key) implies m2[key] == m[key] by {
        let i = choose|i: int| 0 <= i < e2.len() && e2[i].0 == key;
        lemma_group_map_at(e2, i);
        if i < j {
            assert(e2[i] == ev[i]);
            lemma_group_map_at(ev, i);
        } else {
            assert(e2[i] == ev[i + 1]);
            lemma_group_map_at(ev, i + 1);
        }
    }
    assert(m2 =~= m);
}

} // verus!

verus! {

/// The groups after creating one from the typed name `text`: the name is
/// trimmed, and a group is added, empty, unless the name is empty or taken.
pub open spec fn create_spec(m: Map<Seq<char>, Seq<i32>>, text: Seq<char>) -> Map<Seq<char>, Seq<i32>> {
    let name = trimmed(text);
    if name.len() > 0 && !m.dom().contains(name) { m.insert(name, Seq::empty()) } else { m }
}

/// Whether renaming `old` to the typed name `text` takes place: the trimmed
/// name is not empty, differs from `old`, and `old` exists.
pub open spec fn renames(m: Map<Seq<char>, Seq<i32>>, old: Seq<char>, text: Seq<char>) -> bool {
    let name = trimmed(text);
    name.len() > 0 && name != old && m.dom().contains(old)
}

/// The groups after renaming `old` to the trimmed `text`; a group already
/// holding that name is replaced.
pub open spec fn rename_spec(m: Map<Seq<char>, Seq<i32>>, old: Seq<char>, text: Seq<char>) -> Map<Seq<char>, Seq<i32>> {
    if renames(m, old, text) { m.remove(old).insert(trimmed(text), m[old]) } else { m }
}

/// The groups after adding talkgroup `id` to group `g` (nothing changes when
/// the group does not exist or already holds it).
pub open spec fn add_member_spec(m: Map<Seq<char>, Seq<i32>>, g: Seq<char>, id: i32) -> Map<Seq<char>, Seq<i32>> {
    if m.dom().contains(g) && !m[g].contains(id) { m.insert(g, m[g].push(id)) } else { m }
}

/// The test that keeps every number but `id`.
pub open spec fn other_than(id: i32) -> spec_fn(i32) -> bool {
    |x: i32| x != id
}

/// The groups after removing talkgroup `id` from group `g`.
pub open spec fn remove_member_spec(m: Map<Seq<char>, Seq<i32>>, g: Seq<char>, id: i32) -> Map<Seq<char>, Seq<i32>> {
    if m.dom().contains(g) { m.insert(g, m[g].filter(other_than(id))) } else { m }
}

proof fn lemma_filter_push_i32(s: Seq<i32>, x: i32, pred: spec_fn(i32) -> bool)
    ensures
        s.push(x).filter(pred) == if pred(x) { s.filter(pred).push(x) } else { s.filter(pred) },
{
    reveal(Seq::filter);
    assert(s.push(x).drop_last() =~= s);
}

proof fn lemma_filter_keeps_distinct(s: Seq<i32>, pred: spec_fn(i32) -> bool)
    requires
        no_dup_ids(s),
    ensures
        no_dup_ids(s.filter(pred)),
        forall|x: i32| s.filter(pred).contains(x) ==> s.contains(x) && pred(x),
    decreases s.len(),
{
    reveal(Seq::filter);
    if s.len() > 0 {
        let t = s.drop_last();
        assert(no_dup_ids(t)) by {
            assert forall|a: int, b: int| 0 <= a < b < t.len() implies t[a] != t[b] by {
                assert(t[a] == s[a] && t[b] == s[b]);
            }
        }
        lemma_filter_keeps_distinct(t, pred);
        let f = t.filter(pred);
        assert forall|x: i32| s.filter(pred).contains(x) implies s.contains(x) && pred(x) by {
            let g = s.filter(pred);
            let k = choose|k: int| 0 <= k < g.len() && g[k] == x;
            if pred(s.last()) && k == f.len() {
                assert(s[s.len() - 1] == x);
            } else {
                assert(f[k] == x);
                assert(f.contains(x));
                assert(t.contains(x) && pred(x));
                let m = choose|m: int| 0 <= m < t.len() && t[m] == x;
                assert(s[m] == t[m]);
                assert(s[m] == x);
            }
        }
        if pred(s.last()) {
            let g = f.push(s.last());
            assert forall|a: int, b: int| 0 <= a < b < g.len() implies g[a] != g[b] by {
                if b == f.len() {
                    assert(g[a] == f[a]);
                    assert(f.contains(f[a]));
                    assert(t.contains(f[a]));
                    let m = choose|m: int| 0 <= m < t.len() && t[m] == f[a];
                    assert(s[m] == t[m]);
                    assert(s[m] != s[s.len() - 1]);
                } else {
                    assert(g[a] == f[a] && g[b] == f[b]);
                }
            }
        }
    }
}

fn contains_id(v: &Vec<i32>, id: i32) -> (r: bool)
    ensures
        r == v@.contains(id),
{
    let mut i: usize = 0;
    while i < v.len()
        invariant
            i <= v@.len(),
            forall|k: int| 0 <= k < i ==> v@[k] != id,
        decreases v@.len() - i,
    {
        if v[i] == id {
            assert(v@[i as int] == id);
            return true;
        }
        i = i + 1;
    }
    false
}

fn without_id(v: &Vec<i32>, id: i32) -> (res: Vec<i32>)
    ensures
        res@ == v@.filter(other_than(id)),
{
    let ghost pred = other_than(id);
    let mut out: Vec<i32> = Vec::new();
    let mut i: usize = 0;
    proof {
        reveal(Seq::filter);
        assert(v@.take(0).filter(pred) =~= Seq::<i32>::empty());
    }
    while i < v.len()
        invariant
            i <= v@.len(),
            pred == other_than(id),
            out@ == v@.take(i as int).filter(pred),
        decreases v@.len() - i,
    {
        proof {
            lemma_filter_push_i32(v@.take(i as int), v@[i as int], pred);
            assert(v@.take(i + 1) =~= v@.take(i as int).push(v@[i as int]));
        }
        if v[i] != id {
            out.push(v[i]);
        }
        i = i + 1;
    }
    assert(v@.take(v@.len() as int) =~= v@);
    out
}

/// Named groups of talkgroup numbers (the user's watch groups): no two
/// groups share a name and no group lists a number twice.
pub struct TgGroups {
    entries: Vec<(String, Vec<i32>)>,
}

impl View for TgGroups {
    type V = Map<Seq<char>, Seq<i32>>;

    closed spec fn view(&self) -> Map<Seq<char>, Seq<i32>> {
        group_map(self.seq_view())
    }
}

impl TgGroups {
    pub closed spec fn seq_view(self) -> GroupSeq {
        self.entries@.map_values(|e: (String, Vec<i32>)| (e.0@, e.1@))
    }

    pub closed spec fn wf(self) -> bool {
        &&& distinct_names(self.seq_view())
        &&& forall|i: int| 0 <= i < self.seq_view().len() ==> no_dup_ids(#[trigger] self.seq_view()[i].1)
    }

    /// In a well-formed value no group lists a number twice.
    pub proof fn law_no_repeated_members(self)
        requires
            self.wf(),
        ensures
            forall|g: Seq<char>| #[trigger] self@.dom().contains(g) ==> no_dup_ids(self@[g]),
    {
        assert forall|g: Seq<char>| #[trigger] self@.dom().contains(g) implies no_dup_ids(self@[g]) by {
            let i = choose|i: int| 0 <= i < self.seq_view().len() && self.seq_view()[i].0 == g;
            lemma_group_map_at(self.seq_view(), i);
        }
    }

    proof fn lemma_find(self, k: Seq<char>, r: Option<usize>)
        requires
            self.wf(),
            match r {
                Some(j) => j < self.entries@.len() && self.entries@[j as int].0@ == k,
                None => forall|m: int| 0 <= m < self.entries@.len() ==> #[trigger] self.entries@[m].0@ != k,
            },
        ensures
            match r {
                Some(j) => self@.dom().contains(k) && self@[k] == self.entries@[j as int].1@,
                None => !self@.dom().contains(k),
            },
    {
        match r {
            Some(j) => {
                assert(self.seq_view()[j as int].0 == k);
                lemma_group_map_at(self.seq_view(), j as int);
            },
            None => {
                if self@.dom().contains(k) {
                    let i = choose|i: int| 0 <= i < self.seq_view().len() && self.seq_view()[i].0 == k;
                    assert(self.entries@[i].0@ == k);
                }
            },
        }
    }

    /// No groups.
    pub fn new() -> (res: Self)
        ensures
            res.wf(),
            res@ == Map::<Seq<char>, Seq<i32>>::empty(),
    {
        let res = TgGroups { entries: Vec::new() };
        assert(res.seq_view() =~= Seq::<(Seq<char>, Seq<i32>)>::empty());
        assert(res@ =~= Map::<Seq<char>, Seq<i32>>::empty());
        res
    }

    /// The members of group `name`, if it exists.
    pub fn members(&self, name: &str) -> (res: Option<&Vec<i32>>)
        requires
            self.wf(),
        ensures
            match res {
                Some(v) => self@.dom().contains(name@) && v@ == self@[name@],
                None => !self@.dom().contains(name@),
            },
    {
        let r = find_group(&self.entries, name);
        proof {
            self.lemma_find(name@, r);
        }
        match r {
            Some(j) => Some(&self.entries[j].1),
            None => None,
        }
    }

    /// The group names, each once.
    pub fn names(&self) -> (res: Vec<String>)
        requires
            self.wf(),
        ensures
            forall|k: Seq<char>| self@.dom().contains(k) <==> res@.map_values(|s: String| s@).contains(k),
            distinct_names(res@.map_values(|s: String| (s@, Seq::<i32>::empty()))),
    {
        let mut out: Vec<String> = Vec::new();
        let mut i: usize = 0;
        while i < self.entries.len()
            invariant
                i <= self.entries@.len(),
                self.wf(),
                out@.len() == i,
                forall|k: int| 0 <= k < i ==> #[trigger] out@[k]@ == self.seq_view()[k].0,
            decreases self.entries@.len() - i,
        {
            out.push(self.entries[i].0.clone());
            i = i + 1;
        }
        proof {
            let t = out@.map_values(|s: String| s@);
            assert forall|k: Seq<char>| self@.dom().contains(k) <==> t.contains(k) by {
                if self@.dom().contains(k) {
                    let m = choose|m: int| 0 <= m < self.seq_view().len() && self.seq_view()[m].0 == k;
                    assert(t[m] == k);
                }
                if t.contains(k) {
                    let m = choose|m: int| 0 <= m < t.len() && t[m] == k;
                    assert(self.seq_view()[m].0 == k);
                }
            }
            let d = out@.map_values(|s: String| (s@, Seq::<i32>::empty()));
            assert forall|a: int, b: int| 0 <= a < b < d.len() implies d[a].0 != d[b].0 by {
                assert(d[a].0 == self.seq_view()[a].0);
                assert(d[b].0 == self.seq_view()[b].0);
            }
        }
        out
    }

    /// Creates an empty group named by the trimmed `text`, unless that name
    /// is empty or taken. Returns whether it was created.
    pub fn create(&mut self, text: &str) -> (created: bool)
        requires
            old(self).wf(),
        ensures
            final(self).wf(),
            created == (trimmed(text@).len() > 0 && !old(self)@.dom().contains(trimmed(text@))),
            final(self)@ == create_spec(old(self)@, text@),
    {
        let name = trim(text);
        if name.unicode_len() == 0 {
            return false;
        }
        let r = find_group(&self.entries, name);
        proof {
            self.lemma_find(name@, r);
        }
        match r {
            Some(_) => false,
            None => {
                let ghost before = self.seq_view();
                self.entries.push((String::from_str(name), Vec::new()));
                proof {
                    assert(self.seq_view() =~= before.push((name@, Seq::<i32>::empty())));
                    lemma_group_map_push(before, name@, Seq::<i32>::empty());
                    assert forall|i: int| 0 <= i < self.seq_view().len() implies no_dup_ids(
                        #[trigger] self.seq_view()[i].1,
                    ) by {
                        if i < before.len() {
                            assert(self.seq_view()[i] == before[i]);
                        }
                    }
                }
                true
            },
        }
    }

    /// Deletes group `name`.
    pub fn delete(&mut self, name: &str)
        requires
            old(self).wf(),
        ensures
            final(self).wf(),
            final(self)@ == old(self)@.remove(name@),
    {
        let r = find_group(&self.entries, name);
        proof {
            self.lemma_find(name@, r);
        }
        match r {
            Some(j) => {
                let ghost before = self.seq_view();
                self.entries.remove(j);
                proof {
                    assert(self.seq_view() =~= before.remove(j as int));
                    lemma_group_map_remove(before, j as int);
                    assert forall|i: int| 0 <= i < self.seq_view().len() implies no_dup_ids(
                        #[trigger] self.seq_view()[i].1,
                    ) by {
                        if i < j {
                            assert(self.seq_view()[i] == before[i]);
                        } else {
                            assert(self.seq_view()[i] == before[i + 1]);
                        }
                    }
                }
            },
            None => {
                assert(old(self)@.remove(name@) =~= old(self)@);
            },
        }
    }

    /// Renames group `old_name` to the trimmed `text`, unless that is empty,
    /// equal to the old name, or `old_name` does not exist; a group already
    /// holding the new name is replaced. Returns whether it was renamed.
    pub fn rename(&mut self, old_name: &str, text: &str) -> (renamed: bool)
        requires
            old(self).wf(),
        ensures
            final(self).wf(),
            renamed == renames(old(self)@, old_name@, text@),
            final(self)@ == rename_spec(old(self)@, old_name@, text@),
    {
        let name = trim(text);
        if name.unicode_len() == 0 || str_eq(name, old_name) {
            return false;
        }
        let r = find_group(&self.entries, old_name);
        proof {
            self.lemma_find(old_name@, r);
        }
        match r {
            None => false,
            Some(j) => {
                let ghost before = self.seq_view();
                let ghost ids_view = self.entries@[j as int].1@;
                let (_, ids) = self.entries.remove(j);
                proof {
                    assert(self.seq_view() =~= before.remove(j as int));
                    lemma_group_map_remove(before, j as int);
                    assert forall|i: int| 0 <= i < self.seq_view().len() implies no_dup_ids(
                        #[trigger] self.seq_view()[i].1,
                    ) by {
                        if i < j {
                            assert(self.seq_view()[i] == before[i]);
                        } else {
                            assert(self.seq_view()[i] == before[i + 1]);
                        }
                    }
                    assert(no_dup_ids(before[j as int].1));
                }
                let ghost mid = self.seq_view();
                let r2 = find_group(&self.entries, name);
                proof {
                    self.lemma_find(name@, r2);
                }
                match r2 {
                    Some(m) => {
                        self.entries[m].1 = ids;
                        proof {
                            assert(self.seq_view() =~= mid.update(m as int, (mid[m as int].0, ids_view)));
                            lemma_group_map_update(mid, m as int, ids_view);
                            assert forall|i: int| 0 <= i < self.seq_view().len() implies no_dup_ids(
                                #[trigger] self.seq_view()[i].1,
                            ) by {
                                if i != m {
                                    assert(self.seq_view()[i] == mid[i]);
                                }
                            }
                        }
                    },
                    None => {
                        self.entries.push((String::from_str(name), ids));
                        proof {
                            assert(self.seq_view() =~= mid.push((name@, ids_view)));
                            lemma_group_map_push(mid, name@, ids_view);
                            assert forall|i: int| 0 <= i < self.seq_view().len() implies no_dup_ids(
                                #[trigger] self.seq_view()[i].1,
                            ) by {
                                if i < mid.len() {
                                    assert(self.seq_view()[i] == mid[i]);
                                }
                            }
                        }
                    },
                }
                true
            },
        }
    }

    /// Adds talkgroup `id` to group `group` when the group exists and does
    /// not hold it yet. Returns whether it was added.
    pub fn add_member(&mut self, group: &str, id: i32) -> (added: bool)
        requires
            old(self).wf(),
        ensures
            final(self).wf(),
            added == (old(self)@.dom().contains(group@) && !old(self)@[group@].contains(id)),
            final(self)@ == add_member_spec(old(self)@, group@, id),
    {
        let r = find_group(&self.entries, group);
        proof {
            self.lemma_find(group@, r);
        }
        match r {
            None => false,
            Some(j) => {
                if contains_id(&self.entries[j].1, id) {
                    false
                } else {
                    let ghost before = self.seq_view();
                    let ghost ids_view = self.entries@[j as int].1@.push(id);
                    self.entries[j].1.push(id);
                    proof {
                        assert(self.seq_view() =~= before.update(j as int, (before[j as int].0, ids_view)));
                        lemma_group_map_update(before, j as int, ids_view);
                        assert forall|i: int| 0 <= i < self.seq_view().len() implies no_dup_ids(
                            #[trigger] self.seq_view()[i].1,
                        ) by {
                            if i != j {
                                assert(self.seq_view()[i] == before[i]);
                            } else {
                                let old_ids = before[j as int].1;
                                assert(no_dup_ids(old_ids));
                                assert forall|a: int, b: int| 0 <= a < b < ids_view.len() implies ids_view[a]
                                    != ids_view[b] by {
                                    if b == old_ids.len() {
                                        assert(ids_view[a] == old_ids[a]);
                                    } else {
                                        assert(ids_view[a] == old_ids[a] && ids_view[b] == old_ids[b]);
                                    }
                                }
                            }
                        }
                    }
                    true
                }
            },
        }
    }

    /// Removes talkgroup `id` from group `group`.
    pub fn remove_member(&mut self, group: &str, id: i32)
        requires
            old(self).wf(),
        ensures
            final(self).wf(),
            final(self)@ == remove_member_spec(old(self)@, group@, id),
    {
        let r = find_group(&self.entries, group);
        proof {
            self.lemma_find(group@, r);
        }
        match r {
            None => {},
            Some(j) => {
                let ghost before = self.seq_view();
                let kept = without_id(&self.entries[j].1, id);
                let ghost ids_view = kept@;
                self.entries[j].1 = kept;
                proof {
                    assert(self.seq_view() =~= before.update(j as int, (before[j as int].0, ids_view)));
                    lemma_group_map_update(before, j as int, ids_view);
                    lemma_filter_keeps_distinct(before[j as int].1, other_than(id));
                    assert forall|i: int| 0 <= i < self.seq_view().len() implies no_dup_ids(
                        #[trigger] self.seq_view()[i].1,
                    ) by {
                        if i != j {
                            assert(self.seq_view()[i] == before[i]);
                        }
                    }
                }
            },
        }
    }
}

} // verus!

verus! {

proof fn lemma_filter_all(s: Seq<i32>, pred: spec_fn(i32) -> bool)
    requires
        forall|k: int| 0 <= k < s.len() ==> pred(#[trigger] s[k]),
    ensures
        s.filter(pred) == s,
    decreases s.len(),
{
    reveal(Seq::filter);
    if s.len() > 0 {
        let t = s.drop_last();
        assert forall|k: int| 0 <= k < t.len() implies pred(#[trigger] t[k]) by {
            assert(t[k] == s[k]);
        }
        lemma_filter_all(t, pred);
        assert(pred(s[s.len() - 1]));
        assert(t.push(s.last()) =~= s);
    }
}

/// Adding a talkgroup to a group that does not hold it and removing it
/// again leaves the groups as they were.
pub proof fn law_add_then_remove(m: Map<Seq<char>, Seq<i32>>, g: Seq<char>, id: i32)
    requires
        m.dom().contains(g),
        !m[g].contains(id),
    ensures
        remove_member_spec(add_member_spec(m, g, id), g, id) == m,
{
    let s = m[g];
    let pred = other_than(id);
    lemma_filter_push_i32(s, id, pred);
    assert forall|k: int| 0 <= k < s.len() implies pred(#[trigger] s[k]) by {
        if s[k] == id {
            assert(s.contains(id));
        }
    }
    lemma_filter_all(s, pred);
    assert(remove_member_spec(add_member_spec(m, g, id), g, id) =~= m);
}

/// After removing a talkgroup from a group, the group does not hold it.
pub proof fn law_removed_member_absent(m: Map<Seq<char>, Seq<i32>>, g: Seq<char>, id: i32)
    requires
        m.dom().contains(g),
    ensures
        !remove_member_spec(m, g, id)[g].contains(id),
{
    broadcast use vstd::seq_lib::group_filter_ensures;
    let f = m[g].filter(other_than(id));
    if f.contains(id) {
        let k = choose|k: int| 0 <= k < f.len() && f[k] == id;
        assert(other_than(id)(f[k]));
    }
}

/// Creating a group under a new, non-empty name and deleting that name
/// leaves the groups as they were.
pub proof fn law_create_then_delete(m: Map<Seq<char>, Seq<i32>>, text: Seq<char>)
    requires
        trimmed(text).len() > 0,
        !m.dom().contains(trimmed(text)),
    ensures
        create_spec(m, text).dom().contains(trimmed(text)),
        create_spec(m, text)[trimmed(text)] == Seq::<i32>::empty(),
        create_spec(m, text).remove(trimmed(text)) == m,
{
    assert(create_spec(m, text).remove(trimmed(text)) =~= m);
}

/// A rename moves the members to the new name, drops the old name and
/// leaves every other group alone.
pub proof fn law_rename_moves_members(m: Map<Seq<char>, Seq<i32>>, old: Seq<char>, text: Seq<char>)
    requires
        renames(m, old, text),
    ensures
        rename_spec(m, old, text).dom().contains(trimmed(text)),
        rename_spec(m, old, text)[trimmed(text)] == m[old],
        !rename_spec(m, old, text).dom().contains(old),
        forall|k: Seq<char>| k != old && k != trimmed(text) ==> (#[trigger] rename_spec(m, old, text).dom().contains(k)
            <==> m.dom().contains(k)),
        forall|k: Seq<char>| k != old && k != trimmed(text) && m.dom().contains(k)
            ==> #[trigger] rename_spec(m, old, text)[k] == m[k],
{
}

} // verus!
