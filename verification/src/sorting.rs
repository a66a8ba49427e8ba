//! Stable sorting by a comparison, and the lexicographic order of strings.
use vstd::prelude::*;

verus! {

/// `le` is a total preorder: any two values compare, and the order is
/// transitive.
pub open spec fn total_preorder<T>(le: spec_fn(T, T) -> bool) -> bool {
    &&& forall|a: T, b: T| #[trigger] le(a, b) || #[trigger] le(b, a)
    &&& forall|a: T, b: T, c: T| #[trigger] le(a, b) && #[trigger] le(b, c) ==> le(a, c)
}

/// Where `x` goes in `s` so that it comes after every element that is not
/// greater than it, scanning from the end.
pub open spec fn insert_pos<T>(s: Seq<T>, x: T, le: spec_fn(T, T) -> bool) -> int
    decreases s.len(),
{
    if s.len() == 0 {
        0
    } else if le(s.last(), x) {
        s.len() as int
    } else {
        insert_pos(s.drop_last(), x, le)
    }
}

/// The stable sort of `s` by `le`: each element in turn is inserted after
/// the elements sorted so far that are not greater than it (equal elements
/// keep their order).
pub open spec fn sorted_by<T>(s: Seq<T>, le: spec_fn(T, T) -> bool) -> Seq<T>
    decreases s.len(),
{
    if s.len() == 0 {
        s
    } else {
        let t = sorted_by(s.drop_last(), le);
        t.insert(insert_pos(t, s.last(), le), s.last())
    }
}

/// Every element of `s` is not greater than the ones after it.
pub open spec fn is_sorted_by<T>(s: Seq<T>, le: spec_fn(T, T) -> bool) -> bool {
    forall|i: int, j: int| 0 <= i < j < s.len() ==> le(#[trigger] s[i], #[trigger] s[j])
}

/// In a sorted sequence, the insertion point of `x` comes after every
/// element not greater than `x` and before every other.
proof fn lemma_insert_pos_splits<T>(t: Seq<T>, x: T, le: spec_fn(T, T) -> bool)
    requires
        total_preorder(le),
        is_sorted_by(t, le),
    ensures
        0 <= insert_pos(t, x, le) <= t.len(),
        forall|i: int| 0 <= i < insert_pos(t, x, le) ==> le(#[trigger] t[i], x),
        forall|i: int| insert_pos(t, x, le) <= i < t.len() ==> !le(#[trigger] t[i], x),
    decreases t.len(),
{
    if t.len() > 0 {
        if le(t.last(), x) {
            assert forall|i: int| 0 <= i < t.len() implies le(#[trigger] t[i], x) by {
                if i < t.len() - 1 {
                    assert(le(t[i], t[t.len() - 1]));
                }
            }
        } else {
            let u = t.drop_last();
            assert(is_sorted_by(u, le)) by {
                assert forall|i: int, j: int| 0 <= i < j < u.len() implies le(#[trigger] u[i], #[trigger] u[j]) by {
                    assert(u[i] == t[i] && u[j] == t[j]);
                }
            }
            lemma_insert_pos_splits(u, x, le);
            assert forall|i: int| 0 <= i < insert_pos(t, x, le) implies le(#[trigger] t[i], x) by {
                assert(t[i] == u[i]);
            }
            assert forall|i: int| insert_pos(t, x, le) <= i < t.len() implies !le(#[trigger] t[i], x) by {
                if i < t.len() - 1 {
                    assert(t[i] == u[i]);
                }
            }
        }
    }
}

/// The stable sort puts the elements in order, keeps every one of them,
/// and is as long as the sequence sorted.
pub proof fn lemma_sorted_by_sorts<T>(s: Seq<T>, le: spec_fn(T, T) -> bool)
    requires
        total_preorder(le),
    ensures
        is_sorted_by(sorted_by(s, le), le),
        sorted_by(s, le).to_multiset() == s.to_multiset(),
        sorted_by(s, le).len() == s.len(),
    decreases s.len(),
{
    broadcast use vstd::seq_lib::to_multiset_insert, vstd::seq_lib::to_multiset_build;

    if s.len() > 0 {
        let t = sorted_by(s.drop_last(), le);
        let x = s.last();
        lemma_sorted_by_sorts(s.drop_last(), le);
        lemma_insert_pos_splits(t, x, le);
        let p = insert_pos(t, x, le);
        let r = t.insert(p, x);
        assert(r == sorted_by(s, le));
        assert forall|i: int, j: int| 0 <= i < j < r.len() implies le(#[trigger] r[i], #[trigger] r[j]) by {
            if j < p {
                assert(r[i] == t[i] && r[j] == t[j]);
            } else if j == p {
                assert(r[i] == t[i] && r[j] == x);
            } else if i < p {
                assert(r[i] == t[i] && r[j] == t[j - 1]);
                assert(le(t[i], x));
                assert(!le(t[j - 1], x));
                assert(le(x, t[j - 1]));
            } else if i == p {
                assert(r[i] == x && r[j] == t[j - 1]);
                assert(!le(t[j - 1], x));
            } else {
                assert(r[i] == t[i - 1] && r[j] == t[j - 1]);
            }
        }
        assert(s.drop_last().push(x) =~= s);
    }
}

/// Finds where `x` goes among the sorted `r` (as `insert_pos` says).
fn find_insert_pos<T, F: Fn(&T, &T) -> bool>(
    r: &Vec<T>,
    x: &T,
    le: &F,
    Ghost(spec_le): Ghost<spec_fn(T, T) -> bool>,
) -> (p: usize)
    requires
        forall|a: &T, b: &T| #[trigger] le.requires((a, b)),
        forall|a: &T, b: &T, res: bool| le.ensures((a, b), res) ==> res == spec_le(*a, *b),
    ensures
        p == insert_pos(r@, *x, spec_le),
{
    let mut p: usize = r.len();
    proof {
        assert(r@.take(r@.len() as int) =~= r@);
    }
    while p > 0
        invariant
            p <= r@.len(),
            insert_pos(r@, *x, spec_le) == insert_pos(r@.take(p as int), *x, spec_le),
            forall|a: &T, b: &T| #[trigger] le.requires((a, b)),
            forall|a: &T, b: &T, res: bool| le.ensures((a, b), res) ==> res == spec_le(*a, *b),
        decreases p,
    {
        proof {
            assert(r@.take(p as int).drop_last() =~= r@.take(p - 1));
        }
        if le(&r[p - 1], x) {
            return p;
        }
        p = p - 1;
    }
    p
}

/// Sorts `v` stably by `le`, whose meaning is `spec_le`.
pub(crate) fn stable_sort_by<T, F: Fn(&T, &T) -> bool>(
    v: Vec<T>,
    le: F,
    Ghost(spec_le): Ghost<spec_fn(T, T) -> bool>,
) -> (r: Vec<T>)
    requires
        forall|a: &T, b: &T| #[trigger] le.requires((a, b)),
        forall|a: &T, b: &T, res: bool| le.ensures((a, b), res) ==> res == spec_le(*a, *b),
    ensures
        r@ == sorted_by(v@, spec_le),
{
    let mut rest = v;
    let ghost orig = rest@;
    let mut r: Vec<T> = Vec::new();
    let mut k: usize = 0;
    let n = rest.len();
    let mut rev: Vec<T> = Vec::new();
    while rest.len() > 0
        invariant
            rev@ + rest@.reverse() =~= orig.reverse(),
        decreases rest@.len(),
    {
        let x = rest.pop().unwrap();
        proof {
            assert(rest@.push(x).reverse() =~= seq![x] + rest@.reverse());
        }
        rev.push(x);
    }
    proof {
        assert(rev@ =~= orig.reverse());
        assert(orig.take(0) =~= Seq::<T>::empty());
    }
    while k < n
        invariant
            k <= n,
            n == orig.len(),
            rev@.len() == n - k,
            forall|i: int| 0 <= i < n - k ==> #[trigger] rev@[i] == orig[n - 1 - i],
            r@ == sorted_by(orig.take(k as int), spec_le),
            forall|a: &T, b: &T| #[trigger] le.requires((a, b)),
            forall|a: &T, b: &T, res: bool| le.ensures((a, b), res) ==> res == spec_le(*a, *b),
        decreases n - k,
    {
        let x = rev.pop().unwrap();
        proof {
            assert(x == orig[k as int]);
            assert(orig.take(k + 1).drop_last() =~= orig.take(k as int));
            assert(orig.take(k + 1).last() == x);
        }
        let p = find_insert_pos(&r, &x, &le, Ghost(spec_le));
        proof {
            lemma_insert_pos_bound(r@, x, spec_le);
        }
        r.insert(p, x);
        k = k + 1;
    }
    proof {
        assert(orig.take(n as int) =~= orig);
    }
    r
}

proof fn lemma_insert_pos_bound<T>(s: Seq<T>, x: T, le: spec_fn(T, T) -> bool)
    ensures
        0 <= insert_pos(s, x, le) <= s.len(),
    decreases s.len(),
{
    if s.len() > 0 && !le(s.last(), x) {
        lemma_insert_pos_bound(s.drop_last(), x, le);
    }
}

/// `a` comes before `b` or equals it in the lexicographic order of their
/// characters' code points (the order of `String`, whose byte order is the
/// code point order).
pub open spec fn chars_le(a: Seq<char>, b: Seq<char>) -> bool
    decreases a.len(),
{
    if a.len() == 0 {
        true
    } else if b.len() == 0 {
        false
    } else if a[0] != b[0] {
        (a[0] as u32) < (b[0] as u32)
    } else {
        chars_le(a.drop_first(), b.drop_first())
    }
}

/// Compares two strings in `String` order.
pub fn str_le(a: &str, b: &str) -> (r: bool)
    ensures
        r == chars_le(a@, b@),
{
    let x = crate::text::chars_of(a);
    let y = crate::text::chars_of(b);
    let mut k: usize = 0;
    proof {
        assert(x@.skip(0) =~= x@);
        assert(y@.skip(0) =~= y@);
    }
    while k < x.len() && k < y.len() && x[k] == y[k]
        invariant
            k <= x@.len(),
            k <= y@.len(),
            chars_le(x@, y@) == chars_le(x@.skip(k as int), y@.skip(k as int)),
        decreases x@.len() - k,
    {
        proof {
            assert(x@.skip(k as int).drop_first() =~= x@.skip(k + 1));
            assert(y@.skip(k as int).drop_first() =~= y@.skip(k + 1));
        }
        k = k + 1;
    }
    if k == x.len() {
        true
    } else if k == y.len() {
        false
    } else {
        (x[k] as u32) < (y[k] as u32)
    }
}

/// Distinct characters have distinct code points.
proof fn lemma_code_points_distinct(c: char, d: char)
    ensures
        c != d ==> (c as u32) != (d as u32),
{
    vstd::utf8::char_u32_cast(c, c as u32);
    vstd::utf8::char_u32_cast(d, d as u32);
}

/// The string order is total and antisymmetric.
pub proof fn lemma_chars_le_total(a: Seq<char>, b: Seq<char>)
    ensures
        chars_le(a, b) || chars_le(b, a),
        chars_le(a, b) && chars_le(b, a) ==> a == b,
    decreases a.len(),
{
    if a.len() > 0 && b.len() > 0 {
        lemma_code_points_distinct(a[0], b[0]);
        lemma_chars_le_total(a.drop_first(), b.drop_first());
        if chars_le(a, b) && chars_le(b, a) {
            assert(a =~= seq![a[0]] + a.drop_first());
            assert(b =~= seq![b[0]] + b.drop_first());
        }
    }
}

/// The string order is lexicographic: a text comes before every text that
/// extends it, and after a common start the text with the smaller code point
/// at the first difference comes first, whatever follows.
pub proof fn lemma_chars_le_lexicographic(s: Seq<char>, x: Seq<char>, y: Seq<char>, c: char, d: char)
    ensures
        chars_le(s, s + x),
        (c as u32) < (d as u32) ==> chars_le(s + seq![c] + x, s + seq![d] + y) && !chars_le(
            s + seq![d] + y,
            s + seq![c] + x,
        ),
    decreases s.len(),
{
    if s.len() > 0 {
        lemma_chars_le_lexicographic(s.drop_first(), x, y, c, d);
        assert((s + x).drop_first() =~= s.drop_first() + x);
        assert((s + x)[0] == s[0]);
        assert((s + seq![c] + x).drop_first() =~= s.drop_first() + seq![c] + x);
        assert((s + seq![d] + y).drop_first() =~= s.drop_first() + seq![d] + y);
        assert((s + seq![c] + x)[0] == s[0]);
        assert((s + seq![d] + y)[0] == s[0]);
    } else {
        assert(s + seq![c] + x =~= seq![c] + x);
        assert(s + seq![d] + y =~= seq![d] + y);
        assert((seq![c] + x)[0] == c);
        assert((seq![d] + y)[0] == d);
    }
}

/// The string order is transitive.
pub proof fn lemma_chars_le_transitive(a: Seq<char>, b: Seq<char>, c: Seq<char>)
    requires
        chars_le(a, b),
        chars_le(b, c),
    ensures
        chars_le(a, c),
    decreases a.len(),
{
    if a.len() > 0 && b.len() > 0 && c.len() > 0 {
        lemma_code_points_distinct(a[0], b[0]);
        lemma_code_points_distinct(b[0], c[0]);
        lemma_code_points_distinct(a[0], c[0]);
        if a[0] == b[0] && b[0] == c[0] {
            lemma_chars_le_transitive(a.drop_first(), b.drop_first(), c.drop_first());
        }
    }
}

} // verus!
