//! Strings in order: sorted lists without repetition, and maps keyed by
//! strings.

use crate::text::{chars_of, same, views};
use vstd::prelude::*;

verus! {

/// `a` comes before `b` in dictionary order of their characters.
pub open spec fn before(a: Seq<char>, b: Seq<char>) -> bool
    decreases a.len(),
{
    if b.len() == 0 {
        false
    } else if a.len() == 0 {
        true
    } else if a[0] == b[0] {
        before(a.drop_first(), b.drop_first())
    } else {
        a[0] < b[0]
    }
}

pub proof fn lemma_before_irreflexive(a: Seq<char>)
    ensures
        !before(a, a),
    decreases a.len(),
{
    if a.len() > 0 {
        lemma_before_irreflexive(a.drop_first());
    }
}

pub proof fn lemma_before_transitive(a: Seq<char>, b: Seq<char>, c: Seq<char>)
    requires
        before(a, b),
        before(b, c),
    ensures
        before(a, c),
    decreases a.len(),
{
    if a.len() > 0 && a[0] == b[0] && b[0] == c[0] {
        lemma_before_transitive(a.drop_first(), b.drop_first(), c.drop_first());
    }
}

pub proof fn lemma_before_total(a: Seq<char>, b: Seq<char>)
    ensures
        a == b || before(a, b) || before(b, a),
    decreases a.len(),
{
    if a.len() == 0 || b.len() == 0 {
        assert(a.len() == 0 && b.len() == 0 ==> a =~= b);
    } else if a[0] == b[0] {
        lemma_before_total(a.drop_first(), b.drop_first());
        if a.drop_first() == b.drop_first() {
            assert(a =~= seq![a[0]] + a.drop_first());
            assert(b =~= seq![b[0]] + b.drop_first());
        }
    }
}

/// Whether `a` comes before `b`.
pub fn is_before(a: &str, b: &str) -> (r: bool)
    ensures
        r == before(a@, b@),
{
    let v = chars_of(a);
    let w = chars_of(b);
    let mut i: usize = 0;
    assert(v@.skip(0) =~= v@);
    assert(w@.skip(0) =~= w@);
    while i < v.len() && i < w.len() && v[i] == w[i]
        invariant
            i <= v@.len(),
            i <= w@.len(),
            before(v@, w@) == before(v@.skip(i as int), w@.skip(i as int)),
        decreases v@.len() - i,
    {
        assert(v@.skip(i as int).drop_first() =~= v@.skip(i + 1));
        assert(w@.skip(i as int).drop_first() =~= w@.skip(i + 1));
        i += 1;
    }
    if i == w.len() {
        false
    } else if i == v.len() {
        true
    } else {
        v[i] < w[i]
    }
}

/// Each string comes before those that follow it, so none occurs twice.
pub open spec fn strictly_sorted(s: Seq<Seq<char>>) -> bool {
    forall|i: int, j: int| 0 <= i < j < s.len() ==> before(#[trigger] s[i], #[trigger] s[j])
}

/// `out` holds the strings of `input`, sorted and each once.
pub open spec fn sorted_set_of(input: Seq<Seq<char>>, out: Seq<Seq<char>>) -> bool {
    &&& strictly_sorted(out)
    &&& forall|x: Seq<char>| #[trigger] out.contains(x) <==> input.contains(x)
}

/// Adds `s` to a sorted list, where it is missing.
pub fn insert_sorted(v: Vec<String>, s: String) -> (r: Vec<String>)
    requires
        strictly_sorted(views(v@)),
    ensures
        strictly_sorted(views(r@)),
        forall|x: Seq<char>|
            #[trigger] views(r@).contains(x) <==> (views(v@).contains(x) || x == s@),
{
    let mut out = v;
    let n: usize = out.len();
    let mut p: usize = 0;
    while p < n && is_before(out[p].as_str(), s.as_str())
        invariant
            p <= n,
            n == out@.len(),
            out@ == v@,
            forall|i: int| 0 <= i < p ==> before(#[trigger] views(out@)[i], s@),
        decreases n - p,
    {
        p += 1;
    }
    let ghost old_views = views(out@);
    if p < n && same(out[p].as_str(), s.as_str()) {
        assert(views(v@)[p as int] == s@);
        return out;
    }
    proof {
        if p < n {
            lemma_before_total(s@, old_views[p as int]);
            assert forall|i: int| p <= i < n implies before(s@, #[trigger] old_views[i]) by {
                if i > p {
                    lemma_before_transitive(s@, old_views[p as int], old_views[i]);
                }
            }
        }
    }
    let ghost text = s@;
    out.insert(p, s);
    proof {
        let new_views = views(out@);
        assert(new_views =~= old_views.insert(p as int, text));
        assert forall|i: int, j: int| 0 <= i < j < new_views.len() implies before(
            #[trigger] new_views[i],
            #[trigger] new_views[j],
        ) by {
            let oi = if i < p { i } else { i - 1 };
            let oj = if j < p { j } else { j - 1 };
            if i != p && j != p {
                assert(new_views[i] == old_views[oi]);
                assert(new_views[j] == old_views[oj]);
            } else if i == p {
                assert(new_views[j] == old_views[oj]);
            } else {
                assert(new_views[i] == old_views[oi]);
            }
        }
        assert forall|x: Seq<char>| #[trigger] new_views.contains(x) <==> (old_views.contains(x)
            || x == text) by {
            if old_views.contains(x) {
                let k = choose|k: int| 0 <= k < old_views.len() && old_views[k] == x;
                let nk = if k < p { k } else { k + 1 };
                assert(new_views[nk] == x);
            }
            if x == text {
                assert(new_views[p as int] == x);
            }
            if new_views.contains(x) && x != text {
                let k = choose|k: int| 0 <= k < new_views.len() && new_views[k] == x;
                let ok = if k < p { k } else { k - 1 };
                assert(old_views[ok] == x);
            }
        }
    }
    out
}

/// The strings of `v`, sorted and each once.
pub fn sorted_set(v: &Vec<String>) -> (r: Vec<String>)
    ensures
        sorted_set_of(views(v@), views(r@)),
{
    let mut out: Vec<String> = Vec::new();
    let mut i: usize = 0;
    while i < v.len()
        invariant
            i <= v@.len(),
            strictly_sorted(views(out@)),
            forall|x: Seq<char>|
                #[trigger] views(out@).contains(x) <==> views(v@).take(i as int).contains(x),
        decreases v@.len() - i,
    {
        let ghost before_out = views(out@);
        out = insert_sorted(out, v[i].clone());
        proof {
            let t = views(v@).take(i as int);
            let u = views(v@).take(i + 1);
            assert(u =~= t.push(v@[i as int]@));
            assert forall|x: Seq<char>| #[trigger] views(out@).contains(x) <==> u.contains(x) by {
                assert(before_out.contains(x) <==> t.contains(x));
                if t.contains(x) {
                    let k = choose|k: int| 0 <= k < t.len() && t[k] == x;
                    assert(u[k] == x);
                }
                if x == v@[i as int]@ {
                    assert(u[i as int] == x);
                }
                if u.contains(x) && x != v@[i as int]@ {
                    let k = choose|k: int| 0 <= k < u.len() && u[k] == x;
                    assert(t[k] == x);
                }
            }
        }
        i += 1;
    }
    assert(views(v@).take(i as int) =~= views(v@));
    out
}

/// There is one sorted list without repetition of a set of strings.
pub proof fn law_sorted_set_unique(a: Seq<Seq<char>>, b: Seq<Seq<char>>)
    requires
        strictly_sorted(a),
        strictly_sorted(b),
        forall|x: Seq<char>| #[trigger] a.contains(x) <==> b.contains(x),
    ensures
        a == b,
    decreases a.len(),
{
    if a.len() == 0 {
        if b.len() > 0 {
            assert(b.contains(b[0]));
            assert(a.contains(b[0]));
        }
        assert(a =~= b);
    } else {
        assert(a.contains(a[0]));
        let k = choose|k: int| 0 <= k < b.len() && b[k] == a[0];
        assert(b.contains(b[0]));
        assert(a.contains(b[0]));
        let l = choose|l: int| 0 <= l < a.len() && a[l] == b[0];
        if k != 0 {
            if l == 0 {
                lemma_before_irreflexive(b[0]);
            } else {
                lemma_before_transitive(a[0], b[0], a[0]);
                lemma_before_irreflexive(a[0]);
            }
        }
        assert(a[0] == b[0]);
        let x = a.drop_first();
        let y = b.drop_first();
        assert forall|i: int, j: int| 0 <= i < j < x.len() implies before(#[trigger] x[i], #[trigger] x[j]) by {
            assert(x[i] == a[i + 1] && x[j] == a[j + 1]);
        }
        assert forall|i: int, j: int| 0 <= i < j < y.len() implies before(#[trigger] y[i], #[trigger] y[j]) by {
            assert(y[i] == b[i + 1] && y[j] == b[j + 1]);
        }
        assert forall|z: Seq<char>| #[trigger] x.contains(z) <==> y.contains(z) by {
            if x.contains(z) {
                let i = choose|i: int| 0 <= i < x.len() && x[i] == z;
                assert(a[i + 1] == z);
                assert(before(a[0], a[i + 1]));
                lemma_before_irreflexive(z);
                assert(a.contains(z));
                let m = choose|m: int| 0 <= m < b.len() && b[m] == z;
                assert(y[m - 1] == z);
            }
            if y.contains(z) {
                let i = choose|i: int| 0 <= i < y.len() && y[i] == z;
                assert(b[i + 1] == z);
                assert(before(b[0], b[i + 1]));
                lemma_before_irreflexive(z);
                assert(b.contains(z));
                assert(a.contains(z));
                let m = choose|m: int| 0 <= m < a.len() && a[m] == z;
                assert(x[m - 1] == z);
            }
        }
        law_sorted_set_unique(x, y);
        assert(a =~= seq![a[0]] + x);
        assert(b =~= seq![b[0]] + y);
    }
}

/// The strings of a list, sorted and each once.
pub open spec fn sorted_list(input: Seq<Seq<char>>) -> Seq<Seq<char>> {
    choose|s: Seq<Seq<char>>| sorted_set_of(input, s)
}

/// What holds the strings of a list, sorted and each once, is that list.
pub proof fn lemma_sorted_list(input: Seq<Seq<char>>, s: Seq<Seq<char>>)
    requires
        sorted_set_of(input, s),
    ensures
        s == sorted_list(input),
{
    let t = sorted_list(input);
    assert(sorted_set_of(input, t));
    assert forall|x: Seq<char>| #[trigger] s.contains(x) <==> t.contains(x) by {
        assert(t.contains(x) <==> input.contains(x));
    }
    law_sorted_set_unique(s, t);
}

/// A sorted list with one more string.
proof fn lemma_sorted_with(v: Seq<Seq<char>>, s: Seq<char>, p: int) -> (r: Seq<Seq<char>>)
    requires
        strictly_sorted(v),
        0 <= p <= v.len(),
        forall|i: int| 0 <= i < p ==> before(#[trigger] v[i], s),
    ensures
        strictly_sorted(r),
        forall|x: Seq<char>| #[trigger] r.contains(x) <==> (v.contains(x) || x == s),
    decreases v.len() - p,
{
    if p < v.len() && before(v[p], s) {
        lemma_sorted_with(v, s, p + 1)
    } else if p < v.len() && v[p] == s {
        v
    } else {
        if p < v.len() {
            lemma_before_total(s, v[p]);
            assert forall|i: int| p <= i < v.len() implies before(s, #[trigger] v[i]) by {
                if i > p {
                    lemma_before_transitive(s, v[p], v[i]);
                }
            }
        }
        let r = v.insert(p, s);
        assert forall|i: int, j: int| 0 <= i < j < r.len() implies before(
            #[trigger] r[i],
            #[trigger] r[j],
        ) by {
            let oi = if i < p { i } else { i - 1 };
            let oj = if j < p { j } else { j - 1 };
            if i != p && j != p {
                assert(r[i] == v[oi]);
                assert(r[j] == v[oj]);
            } else if i == p {
                assert(r[j] == v[oj]);
            } else {
                assert(r[i] == v[oi]);
            }
        }
        assert forall|x: Seq<char>| #[trigger] r.contains(x) <==> (v.contains(x) || x == s) by {
            if v.contains(x) {
                let k = choose|k: int| 0 <= k < v.len() && v[k] == x;
                let nk = if k < p { k } else { k + 1 };
                assert(r[nk] == x);
            }
            if x == s {
                assert(r[p] == x);
            }
            if r.contains(x) && x != s {
                let k = choose|k: int| 0 <= k < r.len() && r[k] == x;
                let ok = if k < p { k } else { k - 1 };
                assert(v[ok] == x);
            }
        }
        r
    }
}

proof fn lemma_sorted_exists(input: Seq<Seq<char>>) -> (r: Seq<Seq<char>>)
    ensures
        sorted_set_of(input, r),
    decreases input.len(),
{
    if input.len() == 0 {
        assert(input =~= Seq::empty());
        input
    } else {
        let v = lemma_sorted_exists(input.drop_last());
        let r = lemma_sorted_with(v, input.last(), 0);
        assert forall|x: Seq<char>| #[trigger] r.contains(x) <==> input.contains(x) by {
            let d = input.drop_last();
            assert(v.contains(x) <==> d.contains(x));
            if d.contains(x) {
                let k = choose|k: int| 0 <= k < d.len() && d[k] == x;
                assert(input[k] == x);
            }
            if input.contains(x) && x != input.last() {
                let k = choose|k: int| 0 <= k < input.len() && input[k] == x;
                assert(d[k] == x);
            }
        }
        r
    }
}

/// Every list of strings can be sorted: the sorted list holds the same strings,
/// each once and in order.
pub proof fn law_lists_can_be_sorted(input: Seq<Seq<char>>)
    ensures
        strictly_sorted(sorted_list(input)),
        forall|x: Seq<char>| #[trigger] sorted_list(input).contains(x) <==> input.contains(x),
        sorted_set_of(input, sorted_list(input)),
{
    let r = lemma_sorted_exists(input);
    assert(sorted_set_of(input, r));
}

/// The keys of a list of entries.
pub open spec fn entry_keys<V>(e: Seq<(String, V)>) -> Seq<Seq<char>> {
    Seq::new(e.len(), |i: int| e[i].0@)
}

/// The map that a list of entries with different keys stands for.
pub open spec fn entry_map<V>(e: Seq<(String, V)>) -> Map<Seq<char>, V>
    decreases e.len(),
{
    if e.len() == 0 {
        Map::empty()
    } else {
        entry_map(e.drop_last()).insert(e.last().0@, e.last().1)
    }
}

/// A list with different keys stands for the map from each key to its value.
pub proof fn lemma_entry_map<V>(e: Seq<(String, V)>)
    requires
        strictly_sorted(entry_keys(e)),
    ensures
        forall|k: Seq<char>|
            #[trigger] entry_map(e).contains_key(k) <==> exists|i: int|
                0 <= i < e.len() && #[trigger] e[i].0@ == k,
        forall|i: int| 0 <= i < e.len() ==> entry_map(e)[#[trigger] e[i].0@] == e[i].1,
    decreases e.len(),
{
    if e.len() > 0 {
        let d = e.drop_last();
        let last = e.last();
        assert forall|i: int, j: int| 0 <= i < j < entry_keys(d).len() implies before(
            #[trigger] entry_keys(d)[i],
            #[trigger] entry_keys(d)[j],
        ) by {
            assert(entry_keys(d)[i] == entry_keys(e)[i] && entry_keys(d)[j] == entry_keys(e)[j]);
        }
        lemma_entry_map(d);
        assert forall|k: Seq<char>| #[trigger] entry_map(e).contains_key(k) implies exists|i: int|
            0 <= i < e.len() && #[trigger] e[i].0@ == k by {
            if k == last.0@ {
                assert(e[e.len() - 1].0@ == k);
            } else {
                assert(entry_map(d).contains_key(k));
                let i = choose|i: int| 0 <= i < d.len() && #[trigger] d[i].0@ == k;
                assert(e[i].0@ == k);
            }
        }
        assert forall|k: Seq<char>|
            (exists|i: int| 0 <= i < e.len() && #[trigger] e[i].0@ == k) implies #[trigger] entry_map(
            e,
        ).contains_key(k) by {
            let i = choose|i: int| 0 <= i < e.len() && #[trigger] e[i].0@ == k;
            if i < d.len() {
                assert(d[i].0@ == k);
            }
        }
        assert forall|i: int| 0 <= i < e.len() implies entry_map(e)[#[trigger] e[i].0@] == e[i].1 by {
            if i < d.len() {
                assert(d[i] == e[i]);
                assert(before(entry_keys(e)[i], entry_keys(e)[e.len() - 1]));
                lemma_before_irreflexive(last.0@);
            }
        }
    }
}

/// A map keyed by strings, whose entries are kept in the order of their keys.
#[derive(Debug)]
pub struct Dict<V> {
    entries: Vec<(String, V)>,
}

impl<V> View for Dict<V> {
    type V = Map<Seq<char>, V>;

    closed spec fn view(&self) -> Map<Seq<char>, V> {
        entry_map(self.entries@)
    }
}

impl<V> Dict<V> {
    #[verifier::type_invariant]
    pub closed spec fn sorted(self) -> bool {
        strictly_sorted(entry_keys(self.entries@))
    }

    /// The entries, in the order of their keys.
    pub closed spec fn items(self) -> Seq<(String, V)> {
        self.entries@
    }

    pub fn new() -> (r: Dict<V>)
        ensures
            r@ == Map::<Seq<char>, V>::empty(),
            r.items().len() == 0,
    {
        Dict { entries: Vec::new() }
    }

    /// The number of entries. Their keys are sorted, and they are the keys of
    /// the map.
    pub fn len(&self) -> (r: usize)
        ensures
            r == self.items().len(),
            strictly_sorted(entry_keys(self.items())),
            forall|k: Seq<char>|
                #[trigger] self@.contains_key(k) <==> exists|i: int|
                    0 <= i < self.items().len() && #[trigger] self.items()[i].0@ == k,
            forall|i: int|
                0 <= i < self.items().len() ==> self@[#[trigger] self.items()[i].0@]
                    == self.items()[i].1,
    {
        proof {
            use_type_invariant(self);
            lemma_entry_map(self.entries@);
        }
        self.entries.len()
    }

    /// The key of the entry at position `i`.
    pub fn key_at(&self, i: usize) -> (r: &String)
        requires
            i < self.items().len(),
        ensures
            *r == self.items()[i as int].0,
            self@.contains_key(r@),
            self@[r@] == self.items()[i as int].1,
    {
        proof {
            use_type_invariant(self);
            lemma_entry_map(self.entries@);
        }
        &self.entries[i].0
    }

    /// The value of the entry at position `i`.
    pub fn value_at(&self, i: usize) -> (r: &V)
        requires
            i < self.items().len(),
        ensures
            *r == self.items()[i as int].1,
    {
        &self.entries[i].1
    }

    /// The value of `k`.
    pub fn get(&self, k: &str) -> (r: Option<&V>)
        ensures
            match r {
                Some(v) => self@.contains_key(k@) && self@[k@] == *v,
                None => !self@.contains_key(k@),
            },
    {
        proof {
            use_type_invariant(self);
            lemma_entry_map(self.entries@);
        }
        let mut i: usize = 0;
        while i < self.entries.len()
            invariant
                i <= self.entries@.len(),
                forall|j: int| 0 <= j < i ==> #[trigger] self.entries@[j].0@ != k@,
                forall|j: int|
                    0 <= j < self.entries@.len() ==> entry_map(self.entries@)[#[trigger] self.entries@[j].0@]
                        == self.entries@[j].1,
                forall|x: Seq<char>|
                    #[trigger] entry_map(self.entries@).contains_key(x) <==> exists|j: int|
                        0 <= j < self.entries@.len() && #[trigger] self.entries@[j].0@ == x,
            decreases self.entries@.len() - i,
        {
            if same(self.entries[i].0.as_str(), k) {
                assert(self.entries@[i as int].0@ == k@);
                return Some(&self.entries[i].1);
            }
            i += 1;
        }
        None
    }

    pub fn contains_key(&self, k: &str) -> (r: bool)
        ensures
            r == self@.contains_key(k@),
    {
        self.get(k).is_some()
    }

    /// The map with `k` bound to `v`, whatever it was bound to before.
    pub fn insert(self, k: String, v: V) -> (r: Dict<V>)
        ensures
            r@ == self@.insert(k@, v),
    {
        proof {
            use_type_invariant(&self);
            lemma_entry_map(self.entries@);
        }
        let ghost e = self.entries@;
        let ghost text = k@;
        let mut entries = self.entries;
        let n: usize = entries.len();
        let mut p: usize = 0;
        while p < n && is_before(entries[p].0.as_str(), k.as_str())
            invariant
                p <= n,
                n == entries@.len(),
                entries@ == e,
                forall|i: int| 0 <= i < p ==> before(#[trigger] entry_keys(e)[i], k@),
            decreases n - p,
        {
            p += 1;
        }
        if p < n && same(entries[p].0.as_str(), k.as_str()) {
            entries.set(p, (k, v));
            proof {
                let f = entries@;
                assert(entry_keys(f) =~= entry_keys(e));
                lemma_entry_map(f);
                assert forall|x: Seq<char>| entry_map(f).contains_key(x) <==> #[trigger] entry_map(
                    e,
                ).insert(text, v).contains_key(x) by {
                    if entry_map(f).contains_key(x) {
                        let i = choose|i: int| 0 <= i < f.len() && #[trigger] f[i].0@ == x;
                        assert(entry_keys(e)[i] == x);
                        assert(e[i].0@ == x);
                    }
                    if entry_map(e).contains_key(x) {
                        let i = choose|i: int| 0 <= i < e.len() && #[trigger] e[i].0@ == x;
                        assert(entry_keys(f)[i] == x);
                        assert(f[i].0@ == x);
                    }
                    assert(f[p as int].0@ == text);
                }
                assert forall|x: Seq<char>| entry_map(f).contains_key(x) implies #[trigger] entry_map(
                    f,
                )[x] == entry_map(e).insert(text, v)[x] by {
                    let i = choose|i: int| 0 <= i < f.len() && #[trigger] f[i].0@ == x;
                    assert(entry_keys(f)[i] == entry_keys(e)[i]);
                    assert(e[i].0@ == x);
                    if i != p {
                        assert(f[i] == e[i]);
                        if x == text {
                            assert(entry_keys(e)[i] == entry_keys(e)[p as int]);
                            if i < p {
                                lemma_before_irreflexive(x);
                            } else {
                                assert(before(entry_keys(e)[p as int], entry_keys(e)[i]));
                                lemma_before_irreflexive(x);
                            }
                        }
                    }
                }
                assert(entry_map(f) =~= entry_map(e).insert(text, v));
            }
            return Dict { entries };
        }
        proof {
            if p < n {
                lemma_before_total(text, entry_keys(e)[p as int]);
            }
            assert forall|i: int| p <= i < n implies before(text, #[trigger] entry_keys(e)[i]) by {
                if i > p {
                    lemma_before_transitive(text, entry_keys(e)[p as int], entry_keys(e)[i]);
                }
            }
        }
        entries.insert(p, (k, v));
        proof {
            let f = entries@;
            let ek = entry_keys(e);
            let fk = entry_keys(f);
            assert(fk =~= ek.insert(p as int, text));
            assert forall|i: int, j: int| 0 <= i < j < fk.len() implies before(
                #[trigger] fk[i],
                #[trigger] fk[j],
            ) by {
                let oi = if i < p { i } else { i - 1 };
                let oj = if j < p { j } else { j - 1 };
                if i != p && j != p {
                    assert(fk[i] == ek[oi] && fk[j] == ek[oj]);
                } else if i == p {
                    assert(fk[j] == ek[oj]);
                } else {
                    assert(fk[i] == ek[oi]);
                }
            }
            lemma_entry_map(f);
            assert forall|x: Seq<char>| entry_map(f).contains_key(x) <==> #[trigger] entry_map(
                e,
            ).insert(text, v).contains_key(x) by {
                if entry_map(f).contains_key(x) && x != text {
                    let i = choose|i: int| 0 <= i < f.len() && #[trigger] f[i].0@ == x;
                    assert(fk[i] == x);
                    let oi = if i < p { i } else { i - 1 };
                    assert(e[oi].0@ == x);
                }
                if entry_map(e).contains_key(x) {
                    let i = choose|i: int| 0 <= i < e.len() && #[trigger] e[i].0@ == x;
                    let ni = if i < p { i } else { i + 1 };
                    assert(f[ni].0@ == x);
                }
                assert(f[p as int].0@ == text);
            }
            assert forall|x: Seq<char>| entry_map(f).contains_key(x) implies #[trigger] entry_map(
                f,
            )[x] == entry_map(e).insert(text, v)[x] by {
                let i = choose|i: int| 0 <= i < f.len() && #[trigger] f[i].0@ == x;
                assert(fk[i] == x);
                if i != p {
                    let oi = if i < p { i } else { i - 1 };
                    assert(f[i] == e[oi]);
                    assert(ek[oi] == x);
                    lemma_before_irreflexive(x);
                }
            }
            assert(entry_map(f) =~= entry_map(e).insert(text, v));
        }
        Dict { entries }
    }
}

} // verus!
