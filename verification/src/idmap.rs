//! Provider identifiers keyed by provider name, kept in the order a
//! `BTreeMap<String, String>` walks them: strictly ascending by key, each
//! key once, a later insert replacing the earlier value.

use vstd::prelude::*;

verus! {

/// Lexicographic order on characters by code point, which is the order of
/// `String`'s `Ord` (UTF-8 preserves code point order).
pub open spec fn lex_lt(a: Seq<char>, b: Seq<char>) -> bool
    decreases a.len(),
{
    if a.len() == 0 {
        b.len() > 0
    } else if b.len() == 0 {
        false
    } else if a[0] != b[0] {
        a[0] < b[0]
    } else {
        lex_lt(a.drop_first(), b.drop_first())
    }
}

pub proof fn lemma_lex_irreflexive(a: Seq<char>)
    ensures
        !lex_lt(a, a),
    decreases a.len(),
{
    if a.len() > 0 {
        lemma_lex_irreflexive(a.drop_first());
    }
}

pub proof fn lemma_lex_transitive(a: Seq<char>, b: Seq<char>, c: Seq<char>)
    requires
        lex_lt(a, b),
        lex_lt(b, c),
    ensures
        lex_lt(a, c),
    decreases a.len(),
{
    if a.len() > 0 && b.len() > 0 && c.len() > 0 {
        if a[0] == b[0] && b[0] == c[0] {
            lemma_lex_transitive(a.drop_first(), b.drop_first(), c.drop_first());
        }
    }
}

pub proof fn lemma_lex_total(a: Seq<char>, b: Seq<char>)
    ensures
        lex_lt(a, b) || lex_lt(b, a) || a == b,
    decreases a.len(),
{
    if a.len() > 0 && b.len() > 0 {
        if a[0] == b[0] {
            lemma_lex_total(a.drop_first(), b.drop_first());
            if a.drop_first() == b.drop_first() {
                assert(a =~= seq![a[0]] + a.drop_first());
                assert(b =~= seq![b[0]] + b.drop_first());
            }
        }
    } else if a.len() == 0 && b.len() == 0 {
        assert(a =~= b);
    }
}

/// `Ord::cmp` for strings, as three outcomes.
pub fn chars_lt(a: &[char], b: &[char]) -> (r: bool)
    ensures
        r == lex_lt(a@, b@),
{
    let mut i: usize = 0;
    assert(a@.subrange(0, a@.len() as int) =~= a@);
    assert(b@.subrange(0, b@.len() as int) =~= b@);
    while i < a.len() && i < b.len()
        invariant
            i <= a@.len(),
            i <= b@.len(),
            forall|j: int| 0 <= j < i ==> a@[j] == b@[j],
            lex_lt(a@, b@) == lex_lt(a@.subrange(i as int, a@.len() as int), b@.subrange(
                i as int,
                b@.len() as int,
            )),
        decreases a@.len() - i,
    {
        let x = a[i];
        let y = b[i];
        proof {
            let sa = a@.subrange(i as int, a@.len() as int);
            let sb = b@.subrange(i as int, b@.len() as int);
            assert(sa.drop_first() =~= a@.subrange(i + 1, a@.len() as int));
            assert(sb.drop_first() =~= b@.subrange(i + 1, b@.len() as int));
        }
        if x != y {
            return x < y;
        }
        i = i + 1;
    }
    i < b.len()
}

/// Whether the keys of `entries` ascend strictly.
pub open spec fn keys_ascend(entries: Seq<(Seq<char>, Seq<char>)>) -> bool {
    forall|i: int, j: int| 0 <= i < j < entries.len() ==> lex_lt(entries[i].0, entries[j].0)
}

/// `BTreeMap::insert` on ascending entries: the value of an existing key
/// is replaced, a new key is placed before the first greater key.
pub open spec fn sorted_insert(
    entries: Seq<(Seq<char>, Seq<char>)>,
    key: Seq<char>,
    value: Seq<char>,
) -> Seq<(Seq<char>, Seq<char>)>
    decreases entries.len(),
{
    if entries.len() == 0 {
        seq![(key, value)]
    } else if entries[0].0 == key {
        entries.update(0, (key, value))
    } else if lex_lt(key, entries[0].0) {
        entries.insert(0, (key, value))
    } else {
        seq![entries[0]] + sorted_insert(entries.drop_first(), key, value)
    }
}

/// The entries that inserting `pairs` one after another into an empty map
/// leaves.
pub open spec fn inserted_all(pairs: Seq<(Seq<char>, Seq<char>)>) -> Seq<(Seq<char>, Seq<char>)>
    decreases pairs.len(),
{
    if pairs.len() == 0 {
        seq![]
    } else {
        sorted_insert(inserted_all(pairs.drop_last()), pairs.last().0, pairs.last().1)
    }
}

proof fn lemma_lex_asymmetric(a: Seq<char>, b: Seq<char>)
    requires
        lex_lt(a, b),
    ensures
        !lex_lt(b, a),
        a != b,
{
    lemma_lex_irreflexive(a);
    if lex_lt(b, a) {
        lemma_lex_transitive(a, b, a);
    }
}

proof fn lemma_sorted_insert_at(
    entries: Seq<(Seq<char>, Seq<char>)>,
    key: Seq<char>,
    value: Seq<char>,
    p: int,
)
    requires
        keys_ascend(entries),
        0 <= p <= entries.len(),
        forall|j: int| 0 <= j < p ==> lex_lt(#[trigger] entries[j].0, key),
        p < entries.len() ==> !lex_lt(entries[p].0, key),
    ensures
        sorted_insert(entries, key, value) == if p < entries.len() && entries[p].0 == key {
            entries.update(p, (key, value))
        } else {
            entries.insert(p, (key, value))
        },
    decreases p,
{
    if entries.len() == 0 {
        assert(seq![(key, value)] =~= entries.insert(0, (key, value)));
    } else if p == 0 {
        if entries[0].0 != key {
            lemma_lex_total(entries[0].0, key);
        }
    } else {
        lemma_lex_asymmetric(entries[0].0, key);
        let rest = entries.drop_first();
        assert forall|j: int| 0 <= j < p - 1 implies lex_lt(#[trigger] rest[j].0, key) by {
            assert(rest[j] == entries[j + 1]);
        }
        lemma_sorted_insert_at(rest, key, value, p - 1);
        if p < entries.len() && entries[p].0 == key {
            assert(seq![entries[0]] + rest.update(p - 1, (key, value)) =~= entries.update(
                p,
                (key, value),
            ));
        } else {
            assert(seq![entries[0]] + rest.insert(p - 1, (key, value)) =~= entries.insert(
                p,
                (key, value),
            ));
        }
    }
}

/// No key occurs twice among `pairs`.
pub open spec fn distinct_keys(pairs: Seq<(Seq<char>, Seq<char>)>) -> bool {
    forall|i: int, j: int| 0 <= i < j < pairs.len() ==> #[trigger] pairs[i].0 != #[trigger] pairs[j].0
}

proof fn lemma_sorted_insert_fresh(
    entries: Seq<(Seq<char>, Seq<char>)>,
    key: Seq<char>,
    value: Seq<char>,
)
    requires
        keys_ascend(entries),
        forall|i: int| 0 <= i < entries.len() ==> #[trigger] entries[i].0 != key,
    ensures
        keys_ascend(sorted_insert(entries, key, value)),
        forall|x: (Seq<char>, Seq<char>)|
            #[trigger] sorted_insert(entries, key, value).contains(x) <==> (entries.contains(x) || x
                == (key, value)),
    decreases entries.len(),
{
    let r = sorted_insert(entries, key, value);
    if entries.len() == 0 {
        assert(r =~= seq![(key, value)]);
        assert forall|x: (Seq<char>, Seq<char>)| r.contains(x) <==> (entries.contains(x) || x == (
        key,
        value,
        )) by {
            if x == (key, value) {
                assert(r[0] == x);
            }
        }
    } else if lex_lt(key, entries[0].0) {
        assert(r =~= entries.insert(0, (key, value)));
        assert forall|i: int, j: int| 0 <= i < j < r.len() implies lex_lt(r[i].0, r[j].0) by {
            if i == 0 && j > 1 {
                lemma_lex_transitive(key, entries[0].0, entries[j - 1].0);
            }
        }
        assert forall|x: (Seq<char>, Seq<char>)| r.contains(x) <==> (entries.contains(x) || x == (
        key,
        value,
        )) by {
            if r.contains(x) {
                let k = choose|k: int| 0 <= k < r.len() && r[k] == x;
                if k > 0 {
                    assert(entries[k - 1] == x);
                }
            }
            if entries.contains(x) {
                let k = choose|k: int| 0 <= k < entries.len() && entries[k] == x;
                assert(r[k + 1] == x);
            }
            if x == (key, value) {
                assert(r[0] == x);
            }
        }
    } else {
        lemma_lex_total(key, entries[0].0);
        let rest = entries.drop_first();
        assert forall|i: int| 0 <= i < rest.len() implies #[trigger] rest[i].0 != key by {
            assert(rest[i] == entries[i + 1]);
        }
        lemma_sorted_insert_fresh(rest, key, value);
        let t = sorted_insert(rest, key, value);
        assert(r =~= seq![entries[0]] + t);
        assert forall|i: int, j: int| 0 <= i < j < r.len() implies lex_lt(r[i].0, r[j].0) by {
            if i == 0 {
                let y = r[j];
                assert(t[j - 1] == y);
                assert(t.contains(y));
                if y == (key, value) {
                } else {
                    let k = choose|k: int| 0 <= k < rest.len() && rest[k] == y;
                    assert(rest[k] == entries[k + 1]);
                }
            } else {
                assert(r[i] == t[i - 1] && r[j] == t[j - 1]);
            }
        }
        assert forall|x: (Seq<char>, Seq<char>)| r.contains(x) <==> (entries.contains(x) || x == (
        key,
        value,
        )) by {
            if r.contains(x) {
                let k = choose|k: int| 0 <= k < r.len() && r[k] == x;
                if k == 0 {
                    assert(entries[0] == x);
                } else {
                    assert(t[k - 1] == x);
                    assert(t.contains(x));
                    if rest.contains(x) {
                        let m = choose|m: int| 0 <= m < rest.len() && rest[m] == x;
                        assert(entries[m + 1] == x);
                    }
                }
            }
            if entries.contains(x) {
                let k = choose|k: int| 0 <= k < entries.len() && entries[k] == x;
                if k == 0 {
                    assert(r[0] == x);
                } else {
                    assert(rest[k - 1] == x);
                    assert(rest.contains(x));
                    assert(t.contains(x));
                    let m = choose|m: int| 0 <= m < t.len() && t[m] == x;
                    assert(r[m + 1] == x);
                }
            }
            if x == (key, value) {
                assert(t.contains(x));
                let m = choose|m: int| 0 <= m < t.len() && t[m] == x;
                assert(r[m + 1] == x);
            }
        }
    }
}

proof fn lemma_inserted_all_distinct(pairs: Seq<(Seq<char>, Seq<char>)>)
    requires
        distinct_keys(pairs),
    ensures
        keys_ascend(inserted_all(pairs)),
        forall|x: (Seq<char>, Seq<char>)| #[trigger] inserted_all(pairs).contains(x) <==> pairs.contains(x),
    decreases pairs.len(),
{
    if pairs.len() > 0 {
        let init = pairs.drop_last();
        assert forall|i: int, j: int| 0 <= i < j < init.len() implies #[trigger] init[i].0
            != #[trigger] init[j].0 by {
            assert(init[i] == pairs[i] && init[j] == pairs[j]);
        }
        lemma_inserted_all_distinct(init);
        let e = inserted_all(init);
        let (k, v) = pairs.last();
        assert forall|i: int| 0 <= i < e.len() implies #[trigger] e[i].0 != k by {
            assert(e.contains(e[i]));
            assert(init.contains(e[i]));
            let m = choose|m: int| 0 <= m < init.len() && init[m] == e[i];
            assert(pairs[m] == e[i]);
            assert(pairs[pairs.len() - 1].0 == k);
        }
        lemma_sorted_insert_fresh(e, k, v);
        assert forall|x: (Seq<char>, Seq<char>)| #[trigger] inserted_all(pairs).contains(x)
            <==> pairs.contains(x) by {
            if pairs.contains(x) {
                let m = choose|m: int| 0 <= m < pairs.len() && pairs[m] == x;
                if m < pairs.len() - 1 {
                    assert(init[m] == x);
                    assert(init.contains(x));
                }
            }
            if init.contains(x) {
                let m = choose|m: int| 0 <= m < init.len() && init[m] == x;
                assert(pairs[m] == x);
            }
            if x == (k, v) {
                assert(pairs[pairs.len() - 1] == x);
            }
        }
    }
}

proof fn lemma_ascending_unique(a: Seq<(Seq<char>, Seq<char>)>, b: Seq<(Seq<char>, Seq<char>)>)
    requires
        keys_ascend(a),
        keys_ascend(b),
        forall|x: (Seq<char>, Seq<char>)|
            #![trigger a.contains(x)]
            #![trigger b.contains(x)]
            a.contains(x) <==> b.contains(x),
    ensures
        a == b,
    decreases a.len() + b.len(),
{
    if a.len() == 0 {
        if b.len() > 0 {
            assert(b.contains(b[0]));
        }
        assert(a =~= b);
    } else if b.len() == 0 {
        assert(a.contains(a[0]));
    } else {
        assert(a.contains(a[0]));
        assert(b.contains(b[0]));
        let j = choose|j: int| 0 <= j < b.len() && b[j] == a[0];
        let i = choose|i: int| 0 <= i < a.len() && a[i] == b[0];
        if j > 0 {
            if i > 0 {
                lemma_lex_asymmetric(a[0].0, a[i].0);
            } else {
                lemma_lex_irreflexive(b[0].0);
            }
        }
        assert(a[0] == b[0]);
        let ra = a.drop_first();
        let rb = b.drop_first();
        assert forall|x: (Seq<char>, Seq<char>)|
            #![trigger ra.contains(x)]
            #![trigger rb.contains(x)]
            ra.contains(x) <==> rb.contains(x) by {
            if ra.contains(x) {
                let m = choose|m: int| 0 <= m < ra.len() && ra[m] == x;
                assert(a[m + 1] == x);
                assert(a.contains(x));
                let n = choose|n: int| 0 <= n < b.len() && b[n] == x;
                if n == 0 {
                    lemma_lex_irreflexive(a[0].0);
                }
                assert(rb[n - 1] == x);
            }
            if rb.contains(x) {
                let m = choose|m: int| 0 <= m < rb.len() && rb[m] == x;
                assert(b[m + 1] == x);
                assert(b.contains(x));
                let n = choose|n: int| 0 <= n < a.len() && a[n] == x;
                if n == 0 {
                    lemma_lex_irreflexive(b[0].0);
                }
                assert(ra[n - 1] == x);
            }
        }
        lemma_ascending_unique(ra, rb);
        assert(a =~= seq![a[0]] + ra);
        assert(b =~= seq![b[0]] + rb);
    }
}

/// The map that inserting pairs with distinct keys leaves does not depend
/// on their order: any two such lists naming the same pairs give the same
/// entries.
pub proof fn lemma_inserted_all_order_independent(
    p: Seq<(Seq<char>, Seq<char>)>,
    q: Seq<(Seq<char>, Seq<char>)>,
)
    requires
        distinct_keys(p),
        distinct_keys(q),
        forall|x: (Seq<char>, Seq<char>)|
            #![trigger p.contains(x)]
            #![trigger q.contains(x)]
            p.contains(x) <==> q.contains(x),
    ensures
        inserted_all(p) == inserted_all(q),
{
    lemma_inserted_all_distinct(p);
    lemma_inserted_all_distinct(q);
    lemma_ascending_unique(inserted_all(p), inserted_all(q));
}

/// Provider identifiers in ascending key order.
pub struct IdMap {
    entries: Vec<(String, String)>,
}

pub open spec fn pair_view(p: (String, String)) -> (Seq<char>, Seq<char>) {
    (p.0@, p.1@)
}

impl View for IdMap {
    type V = Seq<(Seq<char>, Seq<char>)>;

    closed spec fn view(&self) -> Seq<(Seq<char>, Seq<char>)> {
        Seq::new(self.entries@.len(), |i: int| pair_view(self.entries@[i]))
    }
}

impl IdMap {
    #[verifier::type_invariant]
    spec fn ascending(&self) -> bool {
        keys_ascend(self@)
    }

    /// An empty map.
    pub fn new() -> (m: IdMap)
        ensures
            m@ == Seq::<(Seq<char>, Seq<char>)>::empty(),
    {
        let m = IdMap { entries: Vec::new() };
        assert(m@ =~= Seq::<(Seq<char>, Seq<char>)>::empty());
        m
    }

    /// The entries, in ascending key order.
    pub fn entries(&self) -> (e: &Vec<(String, String)>)
        ensures
            e@.len() == self@.len(),
            forall|i: int| 0 <= i < e@.len() ==> #[trigger] pair_view(e@[i]) == self@[i],
            keys_ascend(self@),
    {
        proof {
            use_type_invariant(self);
        }
        &self.entries
    }

    /// `BTreeMap::insert`: the key is placed in order, or its value replaced.
    pub fn insert(&mut self, key: String, value: String)
        ensures
            keys_ascend(final(self)@),
            final(self)@ == sorted_insert(old(self)@, key@, value@),
    {
        proof {
            use_type_invariant(&*self);
        }
        let ghost before = self@;
        let kc = crate::text::chars_of(key.as_str());
        let n = self.entries.len();
        let mut p: usize = 0;
        while p < n
            invariant
                n == self.entries@.len(),
                n == before.len(),
                before == self@,
                kc@ == key@,
                keys_ascend(before),
                p <= n,
                forall|j: int| 0 <= j < p ==> lex_lt(#[trigger] before[j].0, key@),
            ensures
                p <= n,
                forall|j: int| 0 <= j < p ==> lex_lt(#[trigger] before[j].0, key@),
                p < n ==> !lex_lt(before[p as int].0, key@),
            decreases n - p,
        {
            let existing = crate::text::chars_of(self.entries[p].0.as_str());
            assert(existing@ == before[p as int].0);
            if chars_lt(&existing, &kc) {
                p = p + 1;
            } else {
                break;
            }
        }
        let mut entries: Vec<(String, String)> = Vec::new();
        std::mem::swap(&mut entries, &mut self.entries);
        assert(Seq::new(entries@.len(), |i: int| pair_view(entries@[i])) == before);
        if p < n {
            let existing = crate::text::chars_of(entries[p].0.as_str());
            if crate::text::chars_eq(&existing, &kc) {
                entries.set(p, (key, value));
                proof {
                    let after = Seq::new(entries@.len(), |i: int| pair_view(entries@[i]));
                    assert(after =~= before.update(p as int, (key@, value@)));
                    assert(keys_ascend(after));
                }
                self.entries = entries;
                proof {
                    assert(self@ =~= before.update(p as int, (key@, value@)));
                    lemma_sorted_insert_at(before, key@, value@, p as int);
                }
                return;
            }
            proof {
                lemma_lex_total(before[p as int].0, key@);
            }
        }
        proof {
            assert forall|j: int| p <= j < n implies lex_lt(key@, #[trigger] before[j].0) by {
                if j > p {
                    lemma_lex_transitive(key@, before[p as int].0, before[j].0);
                }
            }
        }
        entries.insert(p, (key, value));
        proof {
            let after = Seq::new(entries@.len(), |i: int| pair_view(entries@[i]));
            assert(after =~= before.insert(p as int, (key@, value@)));
            assert forall|i: int, j: int| 0 <= i < j < after.len() implies lex_lt(
                after[i].0,
                after[j].0,
            ) by {
                if i < p && j > p {
                    lemma_lex_transitive(after[i].0, key@, after[j].0);
                }
            }
        }
        self.entries = entries;
        proof {
            assert(self@ =~= before.insert(p as int, (key@, value@)));
            if p < n {
                lemma_lex_asymmetric(key@, before[p as int].0);
            }
            lemma_sorted_insert_at(before, key@, value@, p as int);
            assert forall|i: int, j: int| 0 <= i < j < self@.len() implies lex_lt(
                self@[i].0,
                self@[j].0,
            ) by {
                if i < p && j > p {
                    lemma_lex_transitive(self@[i].0, key@, self@[j].0);
                }
            }
        }
    }
}


impl IdMap {
    /// A map holding `pairs` inserted in order: later pairs replace the
    /// values of earlier ones with the same key.
    pub fn from_pairs(pairs: &[(String, String)]) -> (m: IdMap)
        ensures
            m@ == inserted_all(Seq::new(pairs@.len(), |i: int| pair_view(pairs@[i]))),
    {
        let ghost views = Seq::new(pairs@.len(), |i: int| pair_view(pairs@[i]));
        let mut m = IdMap::new();
        let mut i: usize = 0;
        let n = pairs.len();
        assert(views.subrange(0, 0) =~= Seq::<(Seq<char>, Seq<char>)>::empty());
        while i < n
            invariant
                n == views.len(),
                n == pairs@.len(),
                views == Seq::new(pairs@.len(), |i: int| pair_view(pairs@[i])),
                i <= n,
                m@ == inserted_all(views.subrange(0, i as int)),
            decreases n - i,
        {
            let key = pairs[i].0.clone();
            let value = pairs[i].1.clone();
            proof {
                assert(views.subrange(0, i + 1).drop_last() =~= views.subrange(0, i as int));
                assert(views[i as int] == pair_view(pairs@[i as int]));
            }
            m.insert(key, value);
            i = i + 1;
        }
        assert(views.subrange(0, n as int) =~= views);
        m
    }
}

} // verus!
