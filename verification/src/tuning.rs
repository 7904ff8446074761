use vstd::prelude::*;
use crate::strbuf::str_eq;
use vstd::string::StringExecFns;

verus! {

/// Power of ten, `10^e`.
pub open spec fn pow10(e: nat) -> nat
    decreases e,
{
    if e == 0 { 1 } else { 10 * pow10((e - 1) as nat) }
}

/// The seven digits shown for a frequency given in ten-thousandths of a MHz
/// (`XXX.XXXX`): hundreds, tens and units of MHz, then four decimals.
pub open spec fn freq_digits_spec(ticks: u64) -> Seq<u8> {
    Seq::new(7, |i: int| (((ticks as nat) / pow10((6 - i) as nat)) % 10) as u8)
}

/// Splits a frequency in ten-thousandths of a MHz (the display's rounded
/// value) into its seven display digits.
pub fn freq_to_digits(ticks: u64) -> (res: [u8; 7])
    ensures
        res@ == freq_digits_spec(ticks),
{
    proof {
        assert(pow10(0) == 1);
        assert(pow10(1) == 10);
        assert(pow10(2) == 100);
        assert(pow10(3) == 1000);
        assert(pow10(4) == 10000);
        assert(pow10(5) == 100000);
        assert(pow10(6) == 1000000);
    }
    let res = [
        ((ticks / 1_000_000) % 10) as u8,
        ((ticks / 100_000) % 10) as u8,
        ((ticks / 10_000) % 10) as u8,
        ((ticks / 1_000) % 10) as u8,
        ((ticks / 100) % 10) as u8,
        ((ticks / 10) % 10) as u8,
        (ticks % 10) as u8,
    ];
    assert forall|i: int| 0 <= i < 7 implies #[trigger] res@[i] == freq_digits_spec(ticks)[i] by {
        if i == 6 {
            assert((ticks as nat) / 1 == ticks as nat);
        }
    }
    assert(res@ =~= freq_digits_spec(ticks));
    res
}

/// Views of a list of strings.
pub open spec fn texts(v: Seq<String>) -> Seq<Seq<char>> {
    v.map_values(|s: String| s@)
}

/// `s` with every entry equal to `k` removed, order kept.
pub open spec fn without(s: Seq<Seq<char>>, k: Seq<char>) -> Seq<Seq<char>>
    decreases s.len(),
{
    if s.len() == 0 {
        s
    } else if s.last() == k {
        without(s.drop_last(), k)
    } else {
        without(s.drop_last(), k).push(s.last())
    }
}

/// Selecting a band tab: an active band (any copy of it) is removed, an
/// inactive one is appended.
pub open spec fn toggle_spec(s: Seq<Seq<char>>, k: Seq<char>) -> Seq<Seq<char>> {
    if s.contains(k) { without(s, k) } else { s.push(k) }
}

pub proof fn lemma_without(s: Seq<Seq<char>>, k: Seq<char>)
    ensures
        !without(s, k).contains(k),
        forall|x: Seq<char>| x != k ==> (without(s, k).contains(x) <==> s.contains(x)),
        !s.contains(k) ==> without(s, k) == s,
    decreases s.len(),
{
    if s.len() > 0 {
        let t = s.drop_last();
        lemma_without(t, k);
        let w = without(t, k);
        assert forall|x: Seq<char>| x != k implies (without(s, k).contains(x) <==> s.contains(x)) by {
            if s.contains(x) {
                let i = choose|i: int| 0 <= i < s.len() && s[i] == x;
                if i < t.len() {
                    assert(t[i] == x);
                }
            }
            if t.contains(x) {
                let i = choose|i: int| 0 <= i < t.len() && t[i] == x;
                assert(s[i] == x);
            }
            if s.last() != k {
                if w.push(s.last()).contains(x) && x != s.last() {
                    let i = choose|i: int| 0 <= i < w.push(s.last()).len() && w.push(s.last())[i] == x;
                    assert(w[i] == x);
                }
                if w.contains(x) {
                    let i = choose|i: int| 0 <= i < w.len() && w[i] == x;
                    assert(w.push(s.last())[i] == x);
                }
                if x == s.last() {
                    assert(w.push(s.last())[w.len() as int] == x);
                }
            }
        }
        if s.last() != k {
            assert forall|i: int| 0 <= i < w.push(s.last()).len() implies w.push(s.last())[i] != k by {
                if i < w.len() {
                    assert(w.push(s.last())[i] == w[i]);
                }
            }
        }
        if !s.contains(k) {
            assert(!t.contains(k)) by {
                if t.contains(k) {
                    let i = choose|i: int| 0 <= i < t.len() && t[i] == k;
                    assert(s[i] == k);
                }
            }
            assert(s.last() != k) by {
                assert(s[s.len() - 1] == s.last());
            }
            assert(t.push(s.last()) =~= s);
        }
    }
}

/// Toggling a band flips its membership and leaves every other band's as it was.
pub proof fn law_toggle_flips(s: Seq<Seq<char>>, k: Seq<char>)
    ensures
        toggle_spec(s, k).contains(k) == !s.contains(k),
        forall|x: Seq<char>| x != k ==> (toggle_spec(s, k).contains(x) <==> s.contains(x)),
{
    lemma_without(s, k);
    if !s.contains(k) {
        let t = s.push(k);
        assert(t[s.len() as int] == k);
        assert forall|x: Seq<char>| x != k implies (t.contains(x) <==> s.contains(x)) by {
            if t.contains(x) {
                let i = choose|i: int| 0 <= i < t.len() && t[i] == x;
                assert(s[i] == x);
            }
            if s.contains(x) {
                let i = choose|i: int| 0 <= i < s.len() && s[i] == x;
                assert(t[i] == x);
            }
        }
    }
}

/// Selecting an inactive band and then selecting it again restores the list.
pub proof fn law_toggle_twice_restores(s: Seq<Seq<char>>, k: Seq<char>)
    requires
        !s.contains(k),
    ensures
        toggle_spec(toggle_spec(s, k), k) == s,
{
    let t = s.push(k);
    assert(t[s.len() as int] == k);
    assert(t.drop_last() =~= s);
    lemma_without(s, k);
}

/// Flips `key` in the active band list (the band selector's click).
pub fn toggle_band(bands: &mut Vec<String>, key: &str)
    ensures
        texts(final(bands)@) == toggle_spec(texts(old(bands)@), key@),
{
    let ghost old_t = texts(bands@);
    let mut kept: Vec<String> = Vec::new();
    let mut found = false;
    let mut i: usize = 0;
    while i < bands.len()
        invariant
            i <= bands@.len(),
            old_t == texts(bands@),
            texts(kept@) == without(old_t.take(i as int), key@),
            found == old_t.take(i as int).contains(key@),
        decreases bands@.len() - i,
    {
        let ghost pre = old_t.take(i as int);
        assert(old_t.take(i + 1).drop_last() =~= pre);
        assert(old_t.take(i + 1).last() == bands@[i as int]@);
        let b = &bands[i];
        if str_eq(b.as_str(), key) {
            found = true;
            assert(old_t.take(i + 1)[i as int] == key@);
        } else {
            kept.push(b.clone());
            assert(texts(kept@) =~= without(pre, key@).push(bands@[i as int]@));
            assert(old_t.take(i + 1).contains(key@) == pre.contains(key@)) by {
                let nxt = old_t.take(i + 1);
                if nxt.contains(key@) {
                    let j = choose|j: int| 0 <= j < nxt.len() && nxt[j] == key@;
                    assert(j < i);
                    assert(pre[j] == key@);
                }
                if pre.contains(key@) {
                    let j = choose|j: int| 0 <= j < i && pre[j] == key@;
                    assert(nxt[j] == key@);
                }
            }
        }
        i = i + 1;
    }
    assert(old_t.take(bands@.len() as int) =~= old_t);
    if found {
        *bands = kept;
    } else {
        bands.push(String::from_str(key));
        assert(texts(bands@) =~= old_t.push(key@));
    }
}

} // verus!
