use vstd::prelude::*;
use vstd::pervasive::VecAdditionalExecFns;

use crate::text::chars_eq;
use crate::text::to_chars;

verus! {

// ---------------------------------------------------------------------------
// Lexicographic order on character sequences
// ---------------------------------------------------------------------------
/// `a` comes strictly before `b` in code-point order.  For valid UTF-8 this
/// agrees with the byte-wise order std uses on `String`.
pub open spec fn lex_lt(a: Seq<char>, b: Seq<char>) -> bool
    decreases a.len(),
{
    if b.len() == 0 {
        false
    } else if a.len() == 0 {
        true
    } else if (a[0] as int) < (b[0] as int) {
        true
    } else if a[0] == b[0] {
        lex_lt(a.drop_first(), b.drop_first())
    } else {
        false
    }
}

pub proof fn lemma_lex_irrefl(a: Seq<char>)
    ensures
        !lex_lt(a, a),
    decreases a.len(),
{
    if a.len() > 0 {
        lemma_lex_irrefl(a.drop_first());
    }
}

pub proof fn lemma_lex_trans(a: Seq<char>, b: Seq<char>, c: Seq<char>)
    requires
        lex_lt(a, b),
        lex_lt(b, c),
    ensures
        lex_lt(a, c),
    decreases a.len() + b.len() + c.len(),
{
    if a.len() > 0 && b.len() > 0 && c.len() > 0 {
        if a[0] == b[0] && b[0] == c[0] {
            lemma_lex_trans(a.drop_first(), b.drop_first(), c.drop_first());
        }
    }
}

/// One of the three holds: `a` before `b`, equal, or `b` before `a`.
pub proof fn lemma_lex_total(a: Seq<char>, b: Seq<char>)
    ensures
        lex_lt(a, b) || a == b || lex_lt(b, a),
    decreases a.len(),
{
    if a.len() == 0 && b.len() == 0 {
        assert(a =~= b);
    }
    if a.len() > 0 && b.len() > 0 && a[0] != b[0] {
        if (a[0] as int) < (b[0] as int) {
            assert(lex_lt(a, b));
        } else {
            assert((b[0] as int) < (a[0] as int));
            assert(lex_lt(b, a));
        }
    }
    if a.len() > 0 && b.len() > 0 && a[0] == b[0] {
        lemma_lex_total(a.drop_first(), b.drop_first());
        if !lex_lt(a, b) && !lex_lt(b, a) {
            assert(a.drop_first() == b.drop_first());
            assert(a.len() == b.len());
            assert forall|i: int| 0 <= i < a.len() implies a[i] == b[i] by {
                if i > 0 {
                    assert(a[i] == a.drop_first()[i - 1]);
                    assert(b[i] == b.drop_first()[i - 1]);
                }
            }
            assert(a =~= b);
        }
    }
}

/// Decide `lex_lt(a@, b@)`.
pub fn str_lt(a: &Vec<char>, b: &Vec<char>) -> (r: bool)
    ensures
        r == lex_lt(a@, b@),
{
    let mut i: usize = 0;
    proof {
        assert(a@.skip(0) =~= a@);
        assert(b@.skip(0) =~= b@);
    }
    loop
        invariant
            i <= a@.len(),
            i <= b@.len(),
            lex_lt(a@, b@) == lex_lt(a@.skip(i as int), b@.skip(i as int)),
        decreases a@.len() - i,
    {
        let ghost sa = a@.skip(i as int);
        let ghost sb = b@.skip(i as int);
        if i == b.len() {
            assert(sb.len() == 0);
            return false;
        }
        if i == a.len() {
            assert(sa.len() == 0 && sb.len() > 0);
            return true;
        }
        let ca = a[i];
        let cb = b[i];
        assert(sa[0] == a@[i as int] && sb[0] == b@[i as int]);
        if ca < cb {
            return true;
        }
        if ca != cb {
            assert(!lex_lt(sa, sb));
            return false;
        }
        proof {
            assert(sa.drop_first() =~= a@.skip(i + 1));
            assert(sb.drop_first() =~= b@.skip(i + 1));
        }
        i = i + 1;
    }
}

// ---------------------------------------------------------------------------
// Ordered association entries, the model of a name-to-version map
// ---------------------------------------------------------------------------
pub type Entry = (Seq<char>, Seq<char>);

/// Keys are strictly ascending, hence also pairwise distinct.
pub open spec fn sorted_keys<V>(s: Seq<(Seq<char>, V)>) -> bool {
    forall|i: int, j: int| 0 <= i < j < s.len() ==> lex_lt(s[i].0, s[j].0)
}

/// Insert `k = v`, keeping order; an existing entry for `k` is overwritten.
pub open spec fn entries_insert<V>(s: Seq<(Seq<char>, V)>, k: Seq<char>, v: V) -> Seq<(Seq<char>, V)>
    decreases s.len(),
{
    if s.len() == 0 {
        seq![(k, v)]
    } else if lex_lt(k, s[0].0) {
        seq![(k, v)] + s
    } else if k == s[0].0 {
        seq![(k, v)] + s.drop_first()
    } else {
        seq![s[0]] + entries_insert(s.drop_first(), k, v)
    }
}

/// Remove the entry for `k`, if any; keys after the removal point keep order.
pub open spec fn entries_remove<V>(s: Seq<(Seq<char>, V)>, k: Seq<char>) -> Seq<(Seq<char>, V)>
    decreases s.len(),
{
    if s.len() == 0 {
        s
    } else if k == s[0].0 {
        s.drop_first()
    } else {
        seq![s[0]] + entries_remove(s.drop_first(), k)
    }
}

/// The value bound to `k`, if any.
pub open spec fn entries_get<V>(s: Seq<(Seq<char>, V)>, k: Seq<char>) -> Option<V>
    decreases s.len(),
{
    if s.len() == 0 {
        None
    } else if k == s[0].0 {
        Some(s[0].1)
    } else {
        entries_get(s.drop_first(), k)
    }
}

pub open spec fn has_key<V>(s: Seq<(Seq<char>, V)>, k: Seq<char>) -> bool {
    entries_get(s, k) is Some
}

// ---------------------------------------------------------------------------
// Laws of the entry model
// ---------------------------------------------------------------------------
pub proof fn lemma_insert_sorted<V>(s: Seq<(Seq<char>, V)>, k: Seq<char>, v: V)
    requires
        sorted_keys(s),
    ensures
        sorted_keys(entries_insert(s, k, v)),
    decreases s.len(),
{
    if s.len() == 0 {
    } else if lex_lt(k, s[0].0) {
        let r = seq![(k, v)] + s;
        assert forall|i: int, j: int| 0 <= i < j < r.len() implies lex_lt(r[i].0, r[j].0) by {
            if i == 0 && j > 1 {
                lemma_lex_trans(k, s[0].0, s[j - 1].0);
            }
        }
    } else if k == s[0].0 {
        let r = seq![(k, v)] + s.drop_first();
        assert forall|i: int, j: int| 0 <= i < j < r.len() implies lex_lt(r[i].0, r[j].0) by {
            if i == 0 {
                assert(lex_lt(s[0].0, s[j].0));
            } else {
                assert(lex_lt(s[i].0, s[j].0));
            }
        }
    } else {
        let tail = s.drop_first();
        lemma_sorted_tail(s);
        lemma_insert_sorted(tail, k, v);
        lemma_lex_total(k, s[0].0);
        assert(lex_lt(s[0].0, k));
        let rt = entries_insert(tail, k, v);
        let r = seq![s[0]] + rt;
        lemma_insert_keys(tail, k, v);
        assert forall|i: int, j: int| 0 <= i < j < r.len() implies lex_lt(r[i].0, r[j].0) by {
            if i == 0 {
                let q = rt[j - 1].0;
                if q == k {
                    assert(lex_lt(s[0].0, q));
                } else {
                    assert(has_key(tail, q));
                    lemma_get_to_index(tail, q);
                    let m0 = choose|m: int| 0 <= m < tail.len() && (#[trigger] tail[m]).0 == q;
                    assert(tail[m0] == s[m0 + 1]);
                    assert(lex_lt(s[0].0, s[m0 + 1].0));
                }
                assert(lex_lt(s[0].0, rt[j - 1].0));
            } else {
                assert(lex_lt(rt[i - 1].0, rt[j - 1].0));
            }
        }
    }
}

/// Every key of the inserted sequence is `k` or an old key, and the head
/// key of a sorted sequence only moves back when `k` goes in front.
pub proof fn lemma_insert_keys<V>(s: Seq<(Seq<char>, V)>, k: Seq<char>, v: V)
    requires
        sorted_keys(s),
    ensures
        forall|j: int|
            0 <= j < entries_insert(s, k, v).len() ==> (#[trigger] entries_insert(s, k, v)[j].0
                == k || has_key(s, entries_insert(s, k, v)[j].0)),
        forall|j: int|
            0 <= j < entries_insert(s, k, v).len() ==> (entries_insert(s, k, v)[j].0 == k
                || lex_lt(k, #[trigger] entries_insert(s, k, v)[j].0) || lex_lt(
                entries_insert(s, k, v)[j].0,
                k,
            )),
    decreases s.len(),
{
    let r = entries_insert(s, k, v);
    if s.len() == 0 {
    } else if lex_lt(k, s[0].0) {
        assert forall|j: int| 0 <= j < r.len() implies (r[j].0 == k || has_key(s, r[j].0)) by {
            if j > 0 {
                lemma_get_present(s, j - 1);
            }
        }
        assert forall|j: int|
            0 <= j < r.len() implies (r[j].0 == k || lex_lt(k, r[j].0) || lex_lt(r[j].0, k)) by {
            if j == 1 {
            } else if j > 1 {
                lemma_lex_trans(k, s[0].0, s[j - 1].0);
            }
        }
    } else if k == s[0].0 {
        assert forall|j: int| 0 <= j < r.len() implies (r[j].0 == k || has_key(s, r[j].0)) by {
            if j > 0 {
                lemma_get_present(s, j);
            }
        }
        assert forall|j: int|
            0 <= j < r.len() implies (r[j].0 == k || lex_lt(k, r[j].0) || lex_lt(r[j].0, k)) by {
            if j > 0 {
                assert(lex_lt(s[0].0, s[j].0));
            }
        }
    } else {
        let tail = s.drop_first();
        lemma_sorted_tail(s);
        lemma_insert_keys(tail, k, v);
        lemma_lex_total(k, s[0].0);
        assert forall|j: int| 0 <= j < r.len() implies (r[j].0 == k || has_key(s, r[j].0)) by {
            if j == 0 {
                lemma_get_present(s, 0);
            } else {
                let rt = entries_insert(tail, k, v);
                assert(r[j].0 == rt[j - 1].0);
                if rt[j - 1].0 != k {
                    assert(has_key(tail, rt[j - 1].0));
                    if rt[j - 1].0 != s[0].0 {
                        assert(entries_get(s, rt[j - 1].0) == entries_get(tail, rt[j - 1].0));
                    }
                    assert(has_key(s, rt[j - 1].0));
                }
            }
        }
        assert forall|j: int|
            0 <= j < r.len() implies (r[j].0 == k || lex_lt(k, r[j].0) || lex_lt(r[j].0, k)) by {
            if j == 0 {
                assert(r[0].0 == s[0].0);
                assert(lex_lt(s[0].0, k));
            } else {
                let rt = entries_insert(tail, k, v);
                assert(r[j].0 == rt[j - 1].0);
            }
        }
    }
}

/// An entry read off by index is found by key lookup.
pub proof fn lemma_get_present<V>(s: Seq<(Seq<char>, V)>, i: int)
    requires
        sorted_keys(s),
        0 <= i < s.len(),
    ensures
        entries_get(s, s[i].0) is Some,
    decreases s.len(),
{
    if i > 0 {
        assert(lex_lt(s[0].0, s[i].0));
        lemma_lex_irrefl(s[0].0);
        assert(s[i].0 != s[0].0);
        assert(sorted_keys(s.drop_first()));
        lemma_get_present(s.drop_first(), i - 1);
    }
}


/// A sorted sequence stays sorted when its head is dropped.
pub proof fn lemma_sorted_tail<V>(s: Seq<(Seq<char>, V)>)
    requires
        sorted_keys(s),
        s.len() > 0,
    ensures
        sorted_keys(s.drop_first()),
{
    assert forall|i: int, j: int|
        0 <= i < j < s.drop_first().len() implies lex_lt(
        s.drop_first()[i].0,
        s.drop_first()[j].0,
    ) by {
        assert(s.drop_first()[i] == s[i + 1]);
        assert(s.drop_first()[j] == s[j + 1]);
    }
}

/// A key that lookup finds stands at some index.
pub proof fn lemma_get_to_index<V>(s: Seq<(Seq<char>, V)>, q: Seq<char>)
    requires
        has_key(s, q),
    ensures
        exists|m: int| 0 <= m < s.len() && (#[trigger] s[m]).0 == q,
    decreases s.len(),
{
    if s.len() > 0 {
        if q == s[0].0 {
            assert(0 <= 0 < s.len() && s[0].0 == q);
        } else {
            lemma_get_to_index(s.drop_first(), q);
            let m0 = choose|m: int| 0 <= m < s.drop_first().len() && (#[trigger] s.drop_first()[m]).0 == q;
            assert(0 <= m0 + 1 < s.len() && s[m0 + 1].0 == q);
        }
    }
}

/// Lookup after insert: the inserted key answers `v`, others are unchanged.
pub proof fn lemma_insert_get<V>(s: Seq<(Seq<char>, V)>, k: Seq<char>, v: V, q: Seq<char>)
    requires
        sorted_keys(s),
    ensures
        q == k ==> entries_get(entries_insert(s, k, v), q) == Some(v),
        q != k ==> entries_get(entries_insert(s, k, v), q) == entries_get(s, q),
    decreases s.len(),
{
    if s.len() == 0 {
        let r = entries_insert(s, k, v);
        assert(r == seq![(k, v)]);
        assert(r[0] == (k, v));
        if q != k {
            assert(entries_get(r, q) == entries_get(r.drop_first(), q));
            assert(r.drop_first().len() == 0);
        }
    } else if lex_lt(k, s[0].0) {
        let r = seq![(k, v)] + s;
        assert(r[0] == (k, v));
        assert(r.drop_first() =~= s);
        if q != k {
            assert(entries_get(r, q) == entries_get(s, q));
        }
    } else if k == s[0].0 {
        let r = seq![(k, v)] + s.drop_first();
        assert(r[0] == (k, v));
        assert(r.drop_first() =~= s.drop_first());
        if q != k {
            assert(entries_get(r, q) == entries_get(s.drop_first(), q));
            assert(entries_get(s, q) == entries_get(s.drop_first(), q));
        }
    } else {
        let tail = s.drop_first();
        lemma_sorted_tail(s);
        lemma_insert_get(tail, k, v, q);
        let r = seq![s[0]] + entries_insert(tail, k, v);
        assert(r[0] == s[0]);
        assert(r.drop_first() =~= entries_insert(tail, k, v));
        assert(entries_insert(s, k, v) == r);
        if q == s[0].0 {
            assert(entries_get(r, q) == Some(r[0].1));
            assert(entries_get(s, q) == Some(s[0].1));
        } else {
            assert(entries_get(r, q) == entries_get(entries_insert(tail, k, v), q));
            assert(entries_get(s, q) == entries_get(tail, q));
        }
    }
}

/// Insert of a fresh key grows the length by one; overwrite keeps it.
pub proof fn lemma_insert_len<V>(s: Seq<(Seq<char>, V)>, k: Seq<char>, v: V)
    requires
        sorted_keys(s),
    ensures
        has_key(s, k) ==> entries_insert(s, k, v).len() == s.len(),
        !has_key(s, k) ==> entries_insert(s, k, v).len() == s.len() + 1,
    decreases s.len(),
{
    if s.len() == 0 {
    } else if lex_lt(k, s[0].0) {
        if has_key(s, k) {
            lemma_lex_irrefl(k);
            lemma_not_get_below(s, k);
        }
    } else if k == s[0].0 {
    } else {
        lemma_sorted_tail(s);
        lemma_insert_len(s.drop_first(), k, v);
    }
}

/// In a sorted sequence, a key below the head is absent.
pub proof fn lemma_not_get_below<V>(s: Seq<(Seq<char>, V)>, k: Seq<char>)
    requires
        sorted_keys(s),
        s.len() > 0,
        lex_lt(k, s[0].0),
    ensures
        !has_key(s, k),
    decreases s.len(),
{
    lemma_lex_irrefl(k);
    assert(k != s[0].0);
    if s.len() > 1 {
        lemma_lex_trans(k, s[0].0, s[1].0);
        assert(sorted_keys(s.drop_first()));
        lemma_not_get_below(s.drop_first(), k);
    }
}

/// Remove keeps order.
pub proof fn lemma_remove_sorted<V>(s: Seq<(Seq<char>, V)>, k: Seq<char>)
    requires
        sorted_keys(s),
    ensures
        sorted_keys(entries_remove(s, k)),
        entries_remove(s, k).len() <= s.len(),
        has_key(s, k) ==> entries_remove(s, k).len() == s.len() - 1,
        !has_key(s, k) ==> entries_remove(s, k) == s,
    decreases s.len(),
{
    if s.len() == 0 {
    } else if k == s[0].0 {
        assert(sorted_keys(s.drop_first()));
    } else {
        let tail = s.drop_first();
        assert(sorted_keys(tail));
        lemma_remove_sorted(tail, k);
        let rt = entries_remove(tail, k);
        let r = seq![s[0]] + rt;
        lemma_remove_keys(tail, k);
        assert forall|i: int, j: int| 0 <= i < j < r.len() implies lex_lt(r[i].0, r[j].0) by {
            if i == 0 {
                let idx = choose|m: int|
                    0 <= m < tail.len() && (#[trigger] tail[m]).0 == rt[j - 1].0;
                assert(lex_lt(s[0].0, tail[idx].0));
            }
        }
        if !has_key(s, k) {
            assert(r =~= s);
        }
    }
}

/// Every key surviving a removal was already there.
pub proof fn lemma_remove_keys<V>(s: Seq<(Seq<char>, V)>, k: Seq<char>)
    ensures
        forall|j: int|
            0 <= j < entries_remove(s, k).len() ==> exists|m: int|
                0 <= m < s.len() && (#[trigger] s[m]).0 == #[trigger] entries_remove(s, k)[j].0,
    decreases s.len(),
{
    let r = entries_remove(s, k);
    if s.len() == 0 {
    } else if k == s[0].0 {
        assert forall|j: int| #![trigger r[j]] 0 <= j < r.len() implies exists|m: int|
            0 <= m < s.len() && (#[trigger] s[m]).0 == r[j].0 by {
            assert(0 <= j + 1 < s.len() && s[j + 1].0 == r[j].0);
        }
    } else {
        let tail = s.drop_first();
        lemma_remove_keys(tail, k);
        let rt = entries_remove(tail, k);
        assert forall|j: int| #![trigger r[j]] 0 <= j < r.len() implies exists|m: int|
            0 <= m < s.len() && (#[trigger] s[m]).0 == r[j].0 by {
            if j == 0 {
                assert(0 <= 0 < s.len() && s[0].0 == r[0].0);
            } else {
                assert(r[j].0 == rt[j - 1].0);
                let m0 = choose|m: int| 0 <= m < tail.len() && (#[trigger] tail[m]).0 == rt[j
                    - 1].0;
                assert(0 <= m0 + 1 < s.len() && s[m0 + 1].0 == r[j].0);
            }
        }
    }
}

/// Lookup after remove: the removed key is gone, others are unchanged.
pub proof fn lemma_remove_get<V>(s: Seq<(Seq<char>, V)>, k: Seq<char>, q: Seq<char>)
    requires
        sorted_keys(s),
    ensures
        q == k ==> entries_get(entries_remove(s, k), q) is None,
        q != k ==> entries_get(entries_remove(s, k), q) == entries_get(s, q),
    decreases s.len(),
{
    if s.len() == 0 {
    } else if k == s[0].0 {
        if q == k {
            assert(sorted_keys(s.drop_first()));
            if s.len() > 1 {
                lemma_not_get_below(s.drop_first(), q);
            }
        }
    } else {
        let tail = s.drop_first();
        assert(sorted_keys(tail));
        lemma_remove_get(tail, k, q);
        let r = seq![s[0]] + entries_remove(tail, k);
        assert(r.drop_first() =~= entries_remove(tail, k));
    }
}

/// Inserting a key above every present key appends at the end.
pub proof fn lemma_insert_append<V>(s: Seq<(Seq<char>, V)>, k: Seq<char>, v: V)
    requires
        sorted_keys(s),
        forall|i: int| 0 <= i < s.len() ==> lex_lt((#[trigger] s[i]).0, k),
    ensures
        entries_insert(s, k, v) == s.push((k, v)),
    decreases s.len(),
{
    if s.len() == 0 {
        assert(entries_insert(s, k, v) =~= s.push((k, v)));
    } else {
        assert(lex_lt(s[0].0, k));
        lemma_lex_irrefl(k);
        if lex_lt(k, s[0].0) {
            lemma_lex_trans(k, s[0].0, k);
            assert(false);
        }
        if k == s[0].0 {
            assert(lex_lt(k, k));
            assert(false);
        }
        lemma_sorted_tail(s);
        assert forall|i: int| 0 <= i < s.drop_first().len() implies lex_lt(
            (#[trigger] s.drop_first()[i]).0,
            k,
        ) by {
            assert(s.drop_first()[i] == s[i + 1]);
        }
        lemma_insert_append(s.drop_first(), k, v);
        assert(entries_insert(s, k, v) == seq![s[0]] + s.drop_first().push((k, v)));
        assert(seq![s[0]] + s.drop_first().push((k, v)) =~= s.push((k, v)));
    }
}

// ---------------------------------------------------------------------------
// The executable map
// ---------------------------------------------------------------------------
/// A name-to-text map kept in ascending key order, the shape in which
/// manifests list their dependencies.
pub struct StrMap {
    entries: Vec<(String, String)>,
}

impl View for StrMap {
    type V = Seq<Entry>;

    closed spec fn view(&self) -> Seq<Entry> {
        self.entries.deep_view()
    }
}

impl StrMap {
    pub open spec fn wf(&self) -> bool {
        sorted_keys(self@)
    }

    pub fn new() -> (r: StrMap)
        ensures
            r@ =~= Seq::<Entry>::empty(),
            r.wf(),
    {
        let r = StrMap { entries: Vec::new() };
        proof {
            assert(r@ =~= Seq::<Entry>::empty());
        }
        r
    }

    pub fn len(&self) -> (r: usize)
        ensures
            r == self@.len(),
    {
        self.entries.len()
    }

    pub fn key_at(&self, i: usize) -> (r: String)
        requires
            i < self@.len(),
        ensures
            r@ == self@[i as int].0,
    {
        self.entries[i].0.clone()
    }

    pub fn val_at(&self, i: usize) -> (r: String)
        requires
            i < self@.len(),
        ensures
            r@ == self@[i as int].1,
    {
        self.entries[i].1.clone()
    }

    /// Look the name up.
    pub fn get(&self, k: &str) -> (r: Option<String>)
        requires
            self.wf(),
        ensures
            match r {
                Some(v) => entries_get(self@, k@) == Some(v@),
                None => entries_get(self@, k@) is None,
            },
    {
        let kc = to_chars(k);
        let mut i: usize = 0;
        proof {
            assert(self@.skip(0) =~= self@);
        }
        loop
            invariant
                i <= self@.len(),
                kc@ == k@,
                entries_get(self@, k@) == entries_get(self@.skip(i as int), k@),
            decreases self@.len() - i,
        {
            let ghost rest = self@.skip(i as int);
            if i == self.entries.len() {
                return None;
            }
            assert(rest[0] == self@[i as int]);
            let ec = to_chars(self.entries[i].0.as_str());
            if chars_eq(&kc, &ec) {
                return Some(self.entries[i].1.clone());
            }
            proof {
                assert(rest.drop_first() =~= self@.skip(i + 1));
            }
            i = i + 1;
        }
    }

    /// Bind `k` to `v`, inserting in order or overwriting in place.
    pub fn insert(&mut self, k: &str, v: &str)
        requires
            old(self).wf(),
        ensures
            final(self)@ == entries_insert(old(self)@, k@, v@),
            final(self).wf(),
    {
        let kc = to_chars(k);
        let mut i: usize = 0;
        proof {
            assert(self@.skip(0) =~= self@);
            assert(self@.take(0) + entries_insert(self@.skip(0), k@, v@) =~= entries_insert(
                self@,
                k@,
                v@,
            ));
        }
        loop
            invariant
                i <= self@.len(),
                self@ == old(self)@,
                kc@ == k@,
                sorted_keys(self@),
                entries_insert(self@, k@, v@) == self@.take(i as int) + entries_insert(
                    self@.skip(i as int),
                    k@,
                    v@,
                ),
            decreases self@.len() - i,
        {
            let ghost whole = self@;
            let ghost rest = self@.skip(i as int);
            if i == self.entries.len() {
                let ghost before = self.entries.deep_view();
                self.entries.push((k.to_owned(), v.to_owned()));
                proof {
                    assert(self.entries.deep_view() =~~= before.push((k@, v@)));
                    assert(rest.len() == 0);
                    assert(entries_insert(rest, k@, v@) =~= seq![(k@, v@)]);
                    assert(self@ =~= whole.take(i as int) + entries_insert(rest, k@, v@));
                    lemma_insert_sorted(whole, k@, v@);
                }
                return ;
            }
            assert(rest[0] == whole[i as int]);
            let ec = to_chars(self.entries[i].0.as_str());
            if str_lt(&kc, &ec) {
                let ghost before = self.entries.deep_view();
                self.entries.insert(i, (k.to_owned(), v.to_owned()));
                proof {
                    assert(self.entries.deep_view() =~~= before.insert(i as int, (k@, v@)));
                    assert(entries_insert(rest, k@, v@) == seq![(k@, v@)] + rest);
                    assert(self@ =~= whole.take(i as int) + (seq![(k@, v@)] + rest));
                    lemma_insert_sorted(whole, k@, v@);
                }
                return ;
            }
            if chars_eq(&kc, &ec) {
                let ghost before = self.entries.deep_view();
                self.entries.set(i, (k.to_owned(), v.to_owned()));
                proof {
                    assert(self.entries.deep_view() =~~= before.update(i as int, (k@, v@)));
                    assert(entries_insert(rest, k@, v@) == seq![(k@, v@)] + rest.drop_first());
                    assert(self@ =~= whole.take(i as int) + (seq![(k@, v@)] + rest.drop_first()));
                    lemma_insert_sorted(whole, k@, v@);
                }
                return ;
            }
            proof {
                assert(entries_insert(rest, k@, v@) == seq![rest[0]] + entries_insert(
                    rest.drop_first(),
                    k@,
                    v@,
                ));
                assert(rest.drop_first() =~= whole.skip(i + 1));
                assert(whole.take(i as int) + (seq![rest[0]] + entries_insert(
                    whole.skip(i + 1),
                    k@,
                    v@,
                )) =~= whole.take(i + 1) + entries_insert(whole.skip(i + 1), k@, v@));
            }
            i = i + 1;
        }
    }

    /// The entries as a list of pairs, in key order.
    pub fn to_pairs(&self) -> (r: Vec<(String, String)>)
        ensures
            r.deep_view() == self@,
    {
        let mut r: Vec<(String, String)> = Vec::new();
        proof {
            assert(r.deep_view() =~~= self@.take(0));
        }
        let mut i: usize = 0;
        while i < self.len()
            invariant
                i <= self@.len(),
                r.deep_view() == self@.take(i as int),
            decreases self@.len() - i,
        {
            let ghost before = r.deep_view();
            r.push((self.key_at(i), self.val_at(i)));
            proof {
                assert(r.deep_view() =~~= before.push(self@[i as int]));
                assert(before.push(self@[i as int]) =~~= self@.take(i + 1));
            }
            i = i + 1;
        }
        proof {
            assert(self@.take(self@.len() as int) =~= self@);
        }
        r
    }

    /// Drop the entry for `k`, if present.
    pub fn remove(&mut self, k: &str)
        requires
            old(self).wf(),
        ensures
            final(self)@ == entries_remove(old(self)@, k@),
            final(self).wf(),
    {
        let kc = to_chars(k);
        let mut i: usize = 0;
        proof {
            assert(self@.skip(0) =~= self@);
            assert(self@.take(0) + entries_remove(self@.skip(0), k@) =~= entries_remove(
                self@,
                k@,
            ));
        }
        loop
            invariant
                i <= self@.len(),
                self@ == old(self)@,
                kc@ == k@,
                sorted_keys(self@),
                entries_remove(self@, k@) == self@.take(i as int) + entries_remove(
                    self@.skip(i as int),
                    k@,
                ),
            decreases self@.len() - i,
        {
            let ghost whole = self@;
            let ghost rest = self@.skip(i as int);
            if i == self.entries.len() {
                proof {
                    assert(entries_remove(rest, k@) =~= rest);
                    assert(whole.take(i as int) + rest =~= whole);
                    lemma_remove_sorted(whole, k@);
                }
                return ;
            }
            assert(rest[0] == whole[i as int]);
            let ec = to_chars(self.entries[i].0.as_str());
            if chars_eq(&kc, &ec) {
                let ghost before = self.entries.deep_view();
                self.entries.remove(i);
                proof {
                    assert(self.entries.deep_view() =~~= before.remove(i as int));
                    assert(entries_remove(rest, k@) == rest.drop_first());
                    assert(before.remove(i as int) =~= whole.take(i as int) + rest.drop_first());
                    lemma_remove_sorted(whole, k@);
                }
                return ;
            }
            proof {
                assert(entries_remove(rest, k@) == seq![rest[0]] + entries_remove(
                    rest.drop_first(),
                    k@,
                ));
                assert(rest.drop_first() =~= whole.skip(i + 1));
                assert(whole.take(i as int) + (seq![rest[0]] + entries_remove(
                    whole.skip(i + 1),
                    k@,
                )) =~= whole.take(i + 1) + entries_remove(whole.skip(i + 1), k@));
            }
            i = i + 1;
        }
    }
}

} // verus!
