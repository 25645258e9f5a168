//! Ordering of text the way `String`'s `Ord` orders it (code point by code
//! point, which is the byte order of UTF-8), and a stable sort of records by
//! a text key.

use vstd::prelude::*;
use crate::entities::{ModEntry, Modpack};

verus! {

broadcast use vstd::seq_lib::group_seq_properties;

/// `a <= b` in lexicographic order of code points.
pub open spec fn text_le(a: Seq<char>, b: Seq<char>) -> bool
    decreases a.len(),
{
    if a.len() == 0 {
        true
    } else if b.len() == 0 {
        false
    } else if a[0] == b[0] {
        text_le(a.drop_first(), b.drop_first())
    } else {
        a[0] < b[0]
    }
}

pub proof fn lemma_text_le_total(a: Seq<char>, b: Seq<char>)
    ensures
        text_le(a, b) || text_le(b, a),
    decreases a.len(),
{
    if a.len() > 0 && b.len() > 0 && a[0] == b[0] {
        lemma_text_le_total(a.drop_first(), b.drop_first());
    }
}

pub proof fn lemma_text_le_trans(a: Seq<char>, b: Seq<char>, c: Seq<char>)
    requires
        text_le(a, b),
        text_le(b, c),
    ensures
        text_le(a, c),
    decreases a.len(),
{
    if a.len() > 0 && b.len() > 0 && c.len() > 0 && a[0] == b[0] && b[0] == c[0] {
        lemma_text_le_trans(a.drop_first(), b.drop_first(), c.drop_first());
    }
}

pub proof fn lemma_text_le_antisym(a: Seq<char>, b: Seq<char>)
    requires
        text_le(a, b),
        text_le(b, a),
    ensures
        a == b,
    decreases a.len(),
{
    if a.len() > 0 && b.len() > 0 {
        lemma_text_le_antisym(a.drop_first(), b.drop_first());
        assert(a == seq![a[0]] + a.drop_first());
        assert(b == seq![b[0]] + b.drop_first());
    }
}

/// Whether `a <= b` in `String` order.
pub fn text_le_exec(a: &[char], b: &[char]) -> (r: bool)
    ensures
        r == text_le(a@, b@),
{
    let mut i: usize = 0;
    while i < a.len() && i < b.len() && a[i] == b[i]
        invariant
            i <= a@.len(),
            i <= b@.len(),
            text_le(a@, b@) == text_le(a@.skip(i as int), b@.skip(i as int)),
        decreases a.len() - i,
    {
        assert(a@.skip(i as int).drop_first() == a@.skip(i + 1));
        assert(b@.skip(i as int).drop_first() == b@.skip(i + 1));
        i = i + 1;
    }
    if i == a.len() {
        true
    } else if i == b.len() {
        false
    } else {
        a[i] < b[i]
    }
}

/// A record sorted by a text key.
pub trait Keyed: Sized {
    spec fn sort_key(&self) -> Seq<char>;

    fn key_text(&self) -> (r: &str)
        ensures
            r@ == self.sort_key(),
    ;
}

impl Keyed for ModEntry {
    open spec fn sort_key(&self) -> Seq<char> {
        self.file_name@
    }

    fn key_text(&self) -> (r: &str) {
        self.file_name.as_str()
    }
}

impl Keyed for Modpack {
    open spec fn sort_key(&self) -> Seq<char> {
        self.name@
    }

    fn key_text(&self) -> (r: &str) {
        self.name.as_str()
    }
}

/// Ascending by key.
pub open spec fn sorted_by_key<T: Keyed>(s: Seq<T>) -> bool {
    forall|i: int, j: int| 0 <= i < j < s.len() ==> text_le(#[trigger] s[i].sort_key(), #[trigger] s[j].sort_key())
}

/// Having key `k`.
pub open spec fn key_is<T: Keyed>(k: Seq<char>) -> spec_fn(T) -> bool {
    |x: T| x.sort_key() == k
}

proof fn lemma_filter_none<T: Keyed>(s: Seq<T>, k: Seq<char>)
    requires
        forall|i: int| 0 <= i < s.len() ==> #[trigger] s[i].sort_key() != k,
    ensures
        s.filter(key_is(k)) == Seq::<T>::empty(),
    decreases s.len(),
{
    reveal(Seq::filter);
    if s.len() > 0 {
        lemma_filter_none(s.drop_last(), k);
    }
}

/// Sorts by key, keeping the original order among records with equal keys
/// (`sort_by` on the key is stable).
pub fn sort_by_key_stable<T: Keyed>(v: Vec<T>) -> (r: Vec<T>)
    ensures
        sorted_by_key(r@),
        forall|k: Seq<char>| #[trigger] r@.filter(key_is(k)) == v@.filter(key_is(k)),
        r@.len() == v@.len(),
{
    let ghost orig = v@;
    let total = v.len();
    let mut rest = v;
    let mut out: Vec<T> = Vec::new();
    let mut i: usize = 0;
    while rest.len() > 0
        invariant
            orig.len() == total,
            i <= orig.len(),
            rest@ == orig.skip(i as int),
            out@.len() == i,
            sorted_by_key(out@),
            forall|k: Seq<char>| #[trigger] out@.filter(key_is(k)) == orig.take(i as int).filter(key_is(k)),
        decreases rest.len(),
    {
        let x = rest.remove(0);
        assert(x == orig[i as int]);
        assert(rest@ == orig.skip(i + 1));
        let xk: Vec<char> = crate::text::chars_of(x.key_text());
        let mut p: usize = 0;
        while p < out.len() && text_le_exec(crate::text::chars_of(out[p].key_text()).as_slice(), xk.as_slice())
            invariant
                p <= out@.len(),
                xk@ == x.sort_key(),
                forall|k: int| 0 <= k < p ==> text_le(#[trigger] out@[k].sort_key(), x.sort_key()),
            decreases out.len() - p,
        {
            p = p + 1;
        }
        let ghost old_out = out@;
        let ghost key = x.sort_key();
        out.insert(p, x);
        proof {
            let a = old_out.take(p as int);
            let b = old_out.skip(p as int);
            assert(old_out == a + b);
            assert(old_out.subrange(0, p as int) == a);
            assert(old_out.subrange(p as int, old_out.len() as int) == b);
            assert(out@ == a.push(x) + b);
            // everything after the insertion point has a strictly greater key
            assert forall|k: int| 0 <= k < b.len() implies !text_le(#[trigger] b[k].sort_key(), key) by {
                assert(b[k] == old_out[p + k]);
                assert(!text_le(old_out[p as int].sort_key(), key));
                if k > 0 {
                    assert(text_le(old_out[p as int].sort_key(), old_out[p + k].sort_key()));
                    if text_le(old_out[p + k].sort_key(), key) {
                        lemma_text_le_trans(old_out[p as int].sort_key(), old_out[p + k].sort_key(), key);
                    }
                }
            }
            assert forall|k: Seq<char>| #[trigger] out@.filter(key_is(k)) == orig.take(i + 1).filter(key_is(k)) by {
                let pred = key_is::<T>(k);
                Seq::filter_distributes_over_add(a.push(x), b, pred);
                Seq::filter_distributes_over_add(a, b, pred);
                a.lemma_filter_push(x, pred);
                assert(orig.take(i + 1) == orig.take(i as int).push(x));
                orig.take(i as int).lemma_filter_push(x, pred);
                assert(old_out.filter(pred) == orig.take(i as int).filter(pred));
                if k == key {
                    assert forall|j: int| 0 <= j < b.len() implies #[trigger] b[j].sort_key() != k by {
                        crate::order::lemma_text_le_total(key, key);
                    }
                    lemma_filter_none(b, k);
                    assert(a.filter(pred) + b.filter(pred) == a.filter(pred));
                    assert(a.filter(pred).push(x) + b.filter(pred) == a.filter(pred).push(x));
                } else {
                    assert(!pred(x));
                }
            }
            assert forall|s: int, t: int|
                0 <= s < t < out@.len() implies text_le(#[trigger] out@[s].sort_key(), #[trigger] out@[t].sort_key()) by {
                if t < p {
                    assert(out@[s] == old_out[s] && out@[t] == old_out[t]);
                } else if t == p {
                    assert(out@[s] == old_out[s]);
                } else if s < p {
                    assert(out@[s] == old_out[s] && out@[t] == old_out[t - 1]);
                    assert(b[t - 1 - p] == old_out[t - 1]);
                    lemma_text_le_total(old_out[t - 1].sort_key(), key);
                    lemma_text_le_trans(old_out[s].sort_key(), key, old_out[t - 1].sort_key());
                } else if s == p {
                    assert(out@[t] == old_out[t - 1]);
                    assert(b[t - 1 - p] == old_out[t - 1]);
                    lemma_text_le_total(old_out[t - 1].sort_key(), key);
                } else {
                    assert(out@[s] == old_out[s - 1] && out@[t] == old_out[t - 1]);
                }
            }
        }
        i = i + 1;
    }
    assert(orig.take(orig.len() as int) == orig);
    out
}

} // verus!
