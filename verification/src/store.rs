//! The key-value protocol behind every entity collection.
//!
//! The backend is a flat map from key strings to stored documents. The five
//! operations the directory performs against it — point read, prefix scan,
//! unconditional write, create-if-absent, delete-returning-previous — are
//! modelled here as functions of that map, and the protocol's guarantees are
//! proved of the model. The executable entity modules phrase their contracts
//! against these functions, and the process around the library performs the
//! backend round trips in the order the model prescribes.

use vstd::prelude::*;

verus! {

/// A point read: the document stored under `key`, if any.
pub open spec fn kv_get<V>(m: Map<Seq<char>, V>, key: Seq<char>) -> Option<V> {
    if m.dom().contains(key) {
        Some(m[key])
    } else {
        None
    }
}

/// An unconditional write of `v` under `key`.
pub open spec fn kv_put<V>(m: Map<Seq<char>, V>, key: Seq<char>, v: V) -> Map<Seq<char>, V> {
    m.insert(key, v)
}

/// Create-if-absent: writes `v` under `key` unless the key is already
/// bound. The second component reports whether the write happened.
pub open spec fn kv_create<V>(m: Map<Seq<char>, V>, key: Seq<char>, v: V) -> (
    Map<Seq<char>, V>,
    bool,
) {
    if m.dom().contains(key) {
        (m, false)
    } else {
        (m.insert(key, v), true)
    }
}

/// Delete-returning-previous: unbinds `key` and reports the document that
/// was bound to it, if any.
pub open spec fn kv_delete<V>(m: Map<Seq<char>, V>, key: Seq<char>) -> (
    Map<Seq<char>, V>,
    Option<V>,
) {
    if m.dom().contains(key) {
        (m.remove(key), Some(m[key]))
    } else {
        (m, None)
    }
}

/// A prefix scan: the set of bound keys that start with `prefix`.
pub open spec fn kv_prefix_keys<V>(m: Map<Seq<char>, V>, prefix: Seq<char>) -> Set<Seq<char>> {
    m.dom().filter(|k: Seq<char>| prefix.is_prefix_of(k))
}

/// Creating a document under an absent key succeeds and stores exactly that
/// document: a point read of the same key afterwards returns it.
pub proof fn lemma_create_then_get<V>(m: Map<Seq<char>, V>, key: Seq<char>, v: V)
    requires
        kv_get(m, key) is None,
    ensures
        kv_create(m, key, v).1,
        kv_get(kv_create(m, key, v).0, key) == Some(v),
{
}

/// Creating twice under one key succeeds the first time and is refused the
/// second time, and the store after both calls holds exactly what the first
/// call wrote.
pub proof fn lemma_second_create_is_refused<V>(
    m: Map<Seq<char>, V>,
    key: Seq<char>,
    first: V,
    second: V,
)
    requires
        kv_get(m, key) is None,
    ensures
        ({
            let (m1, ok1) = kv_create(m, key, first);
            let (m2, ok2) = kv_create(m1, key, second);
            ok1 && !ok2 && m2 == m1 && kv_get(m2, key) == Some(first)
        }),
{
}

/// Deleting a key right after a write returns exactly the value most
/// recently written under it, and unbinds only that key.
pub proof fn lemma_delete_returns_previous<V>(m: Map<Seq<char>, V>, key: Seq<char>, v: V)
    ensures
        kv_delete(kv_put(m, key, v), key).1 == Some(v),
        kv_delete(kv_put(m, key, v), key).0 == m.remove(key),
{
    assert(kv_put(m, key, v).remove(key) =~= m.remove(key));
}

/// Deleting an absent key reports nothing and leaves the store unchanged.
pub proof fn lemma_delete_absent<V>(m: Map<Seq<char>, V>, key: Seq<char>)
    requires
        kv_get::<V>(m, key) is None,
    ensures
        kv_delete(m, key) == (m, Option::<V>::None),
{
}

// --- key shapes -----------------------------------------------------------
//
// Every key the directory builds is a run of path segments separated by
// `/`. A scan prefix always ends in `/`, so a scan under one parent can
// only cover keys whose leading segments name that same parent — provided
// the names themselves contain no separator. The lemmas below carry that
// argument; the entity modules instantiate them for their own key shapes.

/// Whether a path segment is free of the key separator.
pub open spec fn no_slash(s: Seq<char>) -> bool {
    forall|i: int| 0 <= i < s.len() ==> s[i] != '/'
}

/// Dropping a shared lead keeps the prefix relation.
pub proof fn lemma_strip_common_prefix(c: Seq<char>, u: Seq<char>, w: Seq<char>)
    requires
        (c + u).is_prefix_of(c + w),
    ensures
        u.is_prefix_of(w),
{
    assert forall|i: int| 0 <= i < u.len() implies u[i] == w[i] by {
        assert((c + u)[c.len() + i] == u[i]);
        assert((c + w)[c.len() + i] == w[i]);
    }
    assert(u =~= w.subrange(0, u.len() as int));
}

/// Two separated segments can only line up if the first segments agree:
/// a separator-free segment cannot absorb a `/`.
pub proof fn lemma_segment_prefix(a: Seq<char>, x: Seq<char>, b: Seq<char>, y: Seq<char>)
    requires
        no_slash(a),
        no_slash(b),
        (a + seq!['/'] + x).is_prefix_of(b + seq!['/'] + y),
    ensures
        a == b,
        x.is_prefix_of(y),
{
    let l = a + seq!['/'] + x;
    let r = b + seq!['/'] + y;
    assert(forall|i: int| 0 <= i < l.len() ==> l[i] == r.subrange(0, l.len() as int)[i]);
    assert(forall|i: int| 0 <= i < l.len() ==> l[i] == r[i]);
    if a.len() < b.len() {
        assert(l[a.len() as int] == '/');
        assert(r[a.len() as int] == b[a.len() as int]);
        assert(false);
    } else if a.len() > b.len() {
        assert(l[b.len() as int] == a[b.len() as int]);
        assert(r[b.len() as int] == '/');
        assert(false);
    } else {
        assert forall|i: int| 0 <= i < a.len() implies a[i] == b[i] by {
            assert(l[i] == a[i]);
            assert(r[i] == b[i]);
        }
        assert(a =~= b);
        assert forall|j: int| 0 <= j < x.len() implies x[j] == y[j] by {
            assert(l[a.len() + 1 + j] == x[j]);
            assert(r[b.len() + 1 + j] == y[j]);
        }
        assert(x =~= y.subrange(0, x.len() as int));
    }
}

/// A scan prefix `p + a + s` (with `s` the trailing separator run) never
/// covers a key `p + b + s + n` that lies under a different parent `b`.
pub proof fn lemma_two_level_scoped(
    p: Seq<char>,
    a: Seq<char>,
    s: Seq<char>,
    b: Seq<char>,
    n: Seq<char>,
)
    requires
        no_slash(a),
        no_slash(b),
        a != b,
        s.len() > 0,
        s[0] == '/',
    ensures
        !(p + a + s).is_prefix_of(p + b + s + n),
{
    if (p + a + s).is_prefix_of(p + b + s + n) {
        assert(p + a + s =~= p + (a + s));
        assert(p + b + s + n =~= p + (b + s + n));
        lemma_strip_common_prefix(p, a + s, b + s + n);
        let s1 = s.drop_first();
        assert(a + s =~= a + seq!['/'] + s1);
        assert(b + s + n =~= b + seq!['/'] + (s1 + n));
        lemma_segment_prefix(a, s1, b, s1 + n);
        assert(false);
    }
}

/// The same for keys three segments deep: a scan prefix
/// `p + a1 + s1 + a2 + s2` never covers a key `p + b1 + s1 + b2 + s2 + n`
/// stored under a different grandparent or parent.
pub proof fn lemma_three_level_scoped(
    p: Seq<char>,
    a1: Seq<char>,
    s1: Seq<char>,
    a2: Seq<char>,
    s2: Seq<char>,
    b1: Seq<char>,
    b2: Seq<char>,
    n: Seq<char>,
)
    requires
        no_slash(a1),
        no_slash(b1),
        no_slash(a2),
        no_slash(b2),
        a1 != b1 || a2 != b2,
        s1.len() > 0,
        s1[0] == '/',
        s2.len() > 0,
        s2[0] == '/',
    ensures
        !(p + a1 + s1 + a2 + s2).is_prefix_of(p + b1 + s1 + b2 + s2 + n),
{
    if (p + a1 + s1 + a2 + s2).is_prefix_of(p + b1 + s1 + b2 + s2 + n) {
        assert(p + a1 + s1 + a2 + s2 =~= p + (a1 + s1 + a2 + s2));
        assert(p + b1 + s1 + b2 + s2 + n =~= p + (b1 + s1 + b2 + s2 + n));
        lemma_strip_common_prefix(p, a1 + s1 + a2 + s2, b1 + s1 + b2 + s2 + n);
        let t1 = s1.drop_first();
        assert(a1 + s1 + a2 + s2 =~= a1 + seq!['/'] + (t1 + a2 + s2));
        assert(b1 + s1 + b2 + s2 + n =~= b1 + seq!['/'] + (t1 + b2 + s2 + n));
        lemma_segment_prefix(a1, t1 + a2 + s2, b1, t1 + b2 + s2 + n);
        assert(a1 == b1);
        assert((t1 + a2 + s2).is_prefix_of(t1 + b2 + s2 + n));
        assert(t1 + a2 + s2 =~= t1 + (a2 + s2));
        assert(t1 + b2 + s2 + n =~= t1 + (b2 + s2 + n));
        lemma_strip_common_prefix(t1, a2 + s2, b2 + s2 + n);
        let t2 = s2.drop_first();
        assert(a2 + s2 =~= a2 + seq!['/'] + t2);
        assert(b2 + s2 + n =~= b2 + seq!['/'] + (t2 + n));
        lemma_segment_prefix(a2, t2, b2, t2 + n);
        assert(false);
    }
}

/// What a prefix scan can return: a key outside the scanned prefix is never
/// part of the result set.
pub proof fn lemma_scan_excludes<V>(m: Map<Seq<char>, V>, prefix: Seq<char>, key: Seq<char>)
    requires
        !prefix.is_prefix_of(key),
    ensures
        !kv_prefix_keys(m, prefix).contains(key),
{
}

} // verus!
