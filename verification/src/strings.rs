//! Small verified helpers over strings: byte-wise ordering (the order of `str`'s
//! `Ord`), duplicate-free lists used as sets, and string-keyed counts.

use vstd::prelude::*;

verus! {

/// Byte-wise lexicographic "less than": a proper prefix is smaller, otherwise the
/// first differing byte decides.
pub open spec fn bytes_lt(a: Seq<u8>, b: Seq<u8>) -> bool
    decreases a.len(),
{
    if a.len() == 0 {
        b.len() > 0
    } else if b.len() == 0 {
        false
    } else if a[0] != b[0] {
        a[0] < b[0]
    } else {
        bytes_lt(a.drop_first(), b.drop_first())
    }
}

/// The bytes of a string (its UTF-8 encoding).
pub open spec fn str_bytes(s: Seq<char>) -> Seq<u8> {
    vstd::utf8::encode_utf8(s)
}

/// `a` comes before `b` in the order of `str`.
pub open spec fn str_lt(a: Seq<char>, b: Seq<char>) -> bool {
    bytes_lt(str_bytes(a), str_bytes(b))
}

/// The views of a list of strings.
pub open spec fn str_views(v: Seq<String>) -> Seq<Seq<char>> {
    v.map_values(|s: String| s@)
}

/// No string occurs twice.
pub open spec fn no_dups(s: Seq<Seq<char>>) -> bool {
    forall|i: int, j: int| 0 <= i < s.len() && 0 <= j < s.len() && i != j ==> s[i] != s[j]
}

/// Every string is at most its successors in the order of `str`.
pub open spec fn sorted_strs(s: Seq<Seq<char>>) -> bool {
    forall|i: int, j: int| 0 <= i < j < s.len() ==> !str_lt(#[trigger] s[j], #[trigger] s[i])
}

/// Byte-wise "less than" is transitive.
pub proof fn lemma_bytes_lt_transitive(a: Seq<u8>, b: Seq<u8>, c: Seq<u8>)
    requires
        bytes_lt(a, b),
        bytes_lt(b, c),
    ensures
        bytes_lt(a, c),
    decreases a.len(),
{
    if a.len() == 0 {
    } else if a[0] != b[0] {
        if b[0] != c[0] {
        } else {
        }
    } else if b[0] != c[0] {
    } else {
        lemma_bytes_lt_transitive(a.drop_first(), b.drop_first(), c.drop_first());
    }
}

/// No byte string comes before itself.
pub proof fn lemma_bytes_lt_irreflexive(a: Seq<u8>)
    ensures
        !bytes_lt(a, a),
    decreases a.len(),
{
    if a.len() > 0 {
        lemma_bytes_lt_irreflexive(a.drop_first());
    }
}

/// Whether `a` comes before `b` byte-wise.
pub fn bytes_less(a: &[u8], b: &[u8]) -> (r: bool)
    ensures
        r == bytes_lt(a@, b@),
{
    let n = if a.len() < b.len() { a.len() } else { b.len() };
    let mut i: usize = 0;
    assert(a@.skip(0) =~= a@);
    assert(b@.skip(0) =~= b@);
    while i < n
        invariant
            n <= a@.len(),
            n <= b@.len(),
            n == a@.len() || n == b@.len(),
            0 <= i <= n,
            bytes_lt(a@, b@) == bytes_lt(a@.skip(i as int), b@.skip(i as int)),
        decreases n - i,
    {
        let ghost sa = a@.skip(i as int);
        let ghost sb = b@.skip(i as int);
        assert(sa[0] == a@[i as int]);
        assert(sb[0] == b@[i as int]);
        if a[i] != b[i] {
            return a[i] < b[i];
        }
        assert(sa.drop_first() =~= a@.skip(i + 1));
        assert(sb.drop_first() =~= b@.skip(i + 1));
        i = i + 1;
    }
    let ghost sa = a@.skip(i as int);
    let ghost sb = b@.skip(i as int);
    assert(sa.len() == 0 || sb.len() == 0);
    a.len() < b.len()
}

/// Whether `a` comes before `b` in the order of `str`.
pub fn str_less(a: &String, b: &String) -> (r: bool)
    ensures
        r == str_lt(a@, b@),
{
    bytes_less(a.as_str().as_bytes(), b.as_str().as_bytes())
}

/// Whether `v` holds `s`.
pub fn contains_str(v: &Vec<String>, s: &String) -> (r: bool)
    ensures
        r == str_views(v@).contains(s@),
{
    let n = v.len();
    let mut i: usize = 0;
    while i < n
        invariant
            n == v@.len(),
            0 <= i <= n,
            forall|k: int| 0 <= k < i ==> str_views(v@)[k] != s@,
        decreases n - i,
    {
        if v[i] == *s {
            assert(str_views(v@)[i as int] == s@);
            return true;
        }
        i = i + 1;
    }
    false
}

/// Adds `s` to the duplicate-free list `v` unless it is there already.
pub fn set_insert(v: &mut Vec<String>, s: String)
    requires
        no_dups(str_views(old(v)@)),
    ensures
        no_dups(str_views(final(v)@)),
        str_views(old(v)@).contains(s@) ==> final(v)@ == old(v)@,
        !str_views(old(v)@).contains(s@) ==> str_views(final(v)@) == str_views(old(v)@).push(s@),
{
    if !contains_str(v, &s) {
        let ghost old_v = str_views(v@);
        let ghost sv = s@;
        v.push(s);
        assert(str_views(v@) =~= old_v.push(sv));
        assert(no_dups(str_views(v@))) by {
            let w = str_views(v@);
            assert forall|i: int, j: int| 0 <= i < w.len() && 0 <= j < w.len() && i != j implies w[i] != w[j] by {
                if i < old_v.len() && j < old_v.len() {
                } else if i < old_v.len() {
                    assert(old_v[i] == w[i]);
                    assert(old_v.contains(w[i]));
                } else {
                    assert(old_v[j] == w[j]);
                    assert(old_v.contains(w[j]));
                }
            }
        }
    }
}

/// Removes `s` from the duplicate-free list `v` (order of the rest kept).
pub fn set_remove(v: &mut Vec<String>, s: &String)
    requires
        no_dups(str_views(old(v)@)),
    ensures
        no_dups(str_views(final(v)@)),
        forall|x: Seq<char>| str_views(final(v)@).contains(x) <==> (str_views(old(v)@).contains(x) && x != s@),
{
    let n = v.len();
    let mut i: usize = 0;
    while i < n
        invariant
            n == v@.len(),
            0 <= i <= n,
            no_dups(str_views(v@)),
            v@ == old(v)@,
            forall|k: int| 0 <= k < i ==> str_views(v@)[k] != s@,
        decreases n - i,
    {
        if v[i] == *s {
            let ghost w = str_views(v@);
            v.remove(i);
            assert(str_views(v@) =~= w.remove(i as int));
            let ghost r = str_views(v@);
            assert forall|a: int, b: int| 0 <= a < r.len() && 0 <= b < r.len() && a != b implies r[a] != r[b] by {
                let a2 = if a < i { a } else { a + 1 };
                let b2 = if b < i { b } else { b + 1 };
                assert(r[a] == w[a2]);
                assert(r[b] == w[b2]);
            }
            assert(w[i as int] == s@);
            assert forall|x: Seq<char>| r.contains(x) implies (w.contains(x) && x != s@) by {
                let a = choose|a: int| 0 <= a < r.len() && r[a] == x;
                let a2 = if a < i { a } else { a + 1 };
                assert(r[a] == w[a2]);
                assert(a2 != i);
                assert(w[a2] != w[i as int]);
                assert(w.contains(x));
            }
            assert forall|x: Seq<char>| (w.contains(x) && x != s@) implies r.contains(x) by {
                let a2 = choose|a2: int| 0 <= a2 < w.len() && w[a2] == x;
                assert(a2 != i);
                let a = if a2 < i { a2 } else { a2 - 1 };
                assert(r[a] == w[a2]);
                assert(r.contains(x));
            }
            return;
        }
        i = i + 1;
    }
    let ghost w = str_views(v@);
    assert forall|x: Seq<char>| w.contains(x) <==> (w.contains(x) && x != s@) by {
        if w.contains(x) {
            let a = choose|a: int| 0 <= a < w.len() && w[a] == x;
        }
    }
}

/// Inserts `s` into the sorted duplicate-free list `v`, keeping it sorted, unless it is there already.
pub fn sorted_insert(v: &mut Vec<String>, s: String)
    requires
        no_dups(str_views(old(v)@)),
        sorted_strs(str_views(old(v)@)),
    ensures
        no_dups(str_views(final(v)@)),
        sorted_strs(str_views(final(v)@)),
        forall|x: Seq<char>| str_views(final(v)@).contains(x) <==> (str_views(old(v)@).contains(x) || x == s@),
{
    let ghost w = str_views(v@);
    if contains_str(v, &s) {
        return;
    }
    let n = v.len();
    let mut p: usize = 0;
    while p < n
        invariant
            n == v@.len(),
            w == str_views(v@),
            0 <= p <= n,
            forall|k: int| 0 <= k < p ==> !str_lt(s@, #[trigger] w[k]),
        ensures
            0 <= p <= n,
            p == n || str_lt(s@, w[p as int]),
            forall|k: int| 0 <= k < p ==> !str_lt(s@, #[trigger] w[k]),
        decreases n - p,
    {
        assert(w[p as int] == v@[p as int]@);
        if str_less(&s, &v[p]) {
            break;
        }
        p = p + 1;
    }
    let ghost sv = s@;
    v.insert(p, s);
    let ghost r = str_views(v@);
    assert(r =~= w.insert(p as int, sv));
    assert(no_dups(r)) by {
        assert forall|i: int, j: int| 0 <= i < r.len() && 0 <= j < r.len() && i != j implies r[i] != r[j] by {
            if i != p && j != p {
                let i2 = if i < p { i } else { i - 1 };
                let j2 = if j < p { j } else { j - 1 };
                assert(r[i] == w[i2]);
                assert(r[j] == w[j2]);
            } else if i == p {
                let j2 = if j < p { j } else { j - 1 };
                assert(r[j] == w[j2]);
                assert(w.contains(w[j2]));
            } else {
                let i2 = if i < p { i } else { i - 1 };
                assert(r[i] == w[i2]);
                assert(w.contains(w[i2]));
            }
        }
    }
    assert(sorted_strs(r)) by {
        assert forall|i: int, j: int| 0 <= i < j < r.len() implies !str_lt(#[trigger] r[j], #[trigger] r[i]) by {
            if i != p && j != p {
                let i2 = if i < p { i } else { i - 1 };
                let j2 = if j < p { j } else { j - 1 };
                assert(r[i] == w[i2]);
                assert(r[j] == w[j2]);
                assert(i2 < j2);
            } else if i == p {
                // s is before w[p] (if any), and w[p] <= w[j-1]
                let j2 = j - 1;
                assert(r[j] == w[j2]);
                assert(p < n);
                assert(str_lt(sv, w[p as int]));
                if str_lt(w[j2], sv) {
                    lemma_bytes_lt_transitive(str_bytes(w[j2]), str_bytes(sv), str_bytes(w[p as int]));
                    if j2 > p {
                        assert(!str_lt(w[j2], w[p as int]));
                    } else {
                        lemma_bytes_lt_irreflexive(str_bytes(w[p as int]));
                    }
                }
            } else {
                assert(r[i] == w[i]);
                assert(!str_lt(sv, w[i]));
            }
        }
    }
    assert forall|x: Seq<char>| r.contains(x) <==> (w.contains(x) || x == sv) by {
        if r.contains(x) {
            let a = choose|a: int| 0 <= a < r.len() && r[a] == x;
            if a != p {
                let a2 = if a < p { a } else { a - 1 };
                assert(r[a] == w[a2]);
            }
        }
        if w.contains(x) {
            let a2 = choose|a2: int| 0 <= a2 < w.len() && w[a2] == x;
            let a = if a2 < p { a2 } else { a2 + 1 };
            assert(r[a] == w[a2]);
        }
        if x == sv {
            assert(r[p as int] == sv);
        }
    }
}

/// A peer's self-reported count of known peers.
#[derive(Debug, Clone)]
pub struct PeerCount {
    pub addr: String,
    pub count: usize,
}

/// (address, count) pairs.
pub open spec fn counts_views(v: Seq<PeerCount>) -> Seq<(Seq<char>, usize)> {
    v.map_values(|c: PeerCount| (c.addr@, c.count))
}

/// No address occurs twice.
pub open spec fn counts_unique(s: Seq<(Seq<char>, usize)>) -> bool {
    forall|i: int, j: int| 0 <= i < s.len() && 0 <= j < s.len() && i != j ==> s[i].0 != s[j].0
}

/// The count recorded for `addr`, if any.
pub open spec fn count_of(s: Seq<(Seq<char>, usize)>, addr: Seq<char>) -> Option<usize> {
    if exists|i: int| 0 <= i < s.len() && (#[trigger] s[i]).0 == addr {
        Some(s[choose|i: int| 0 <= i < s.len() && (#[trigger] s[i]).0 == addr].1)
    } else {
        None
    }
}

/// The count recorded for `addr`, if any.
pub fn get_count(v: &Vec<PeerCount>, addr: &String) -> (r: Option<usize>)
    requires
        counts_unique(counts_views(v@)),
    ensures
        r == count_of(counts_views(v@), addr@),
{
    let ghost s = counts_views(v@);
    let n = v.len();
    let mut i: usize = 0;
    while i < n
        invariant
            n == v@.len(),
            s == counts_views(v@),
            counts_unique(s),
            0 <= i <= n,
            forall|k: int| 0 <= k < i ==> (#[trigger] s[k]).0 != addr@,
        decreases n - i,
    {
        assert(s[i as int] == (v@[i as int].addr@, v@[i as int].count));
        if v[i].addr == *addr {
            assert(s[i as int].0 == addr@);
            let ghost j = choose|j: int| 0 <= j < s.len() && (#[trigger] s[j]).0 == addr@;
            assert(j == i);
            return Some(v[i].count);
        }
        i = i + 1;
    }
    None
}

/// Records `count` for `addr`, replacing an earlier count.
pub fn put_count(v: &mut Vec<PeerCount>, addr: String, count: usize)
    requires
        counts_unique(counts_views(old(v)@)),
    ensures
        counts_unique(counts_views(final(v)@)),
        count_of(counts_views(final(v)@), addr@) == Some(count),
        forall|a: Seq<char>| a != addr@ ==> count_of(counts_views(final(v)@), a) == count_of(counts_views(old(v)@), a),
{
    let ghost s = counts_views(v@);
    let ghost av = addr@;
    let n = v.len();
    let mut i: usize = 0;
    while i < n
        invariant
            n == v@.len(),
            s == counts_views(v@),
            v@ == old(v)@,
            av == addr@,
            counts_unique(s),
            0 <= i <= n,
            forall|k: int| 0 <= k < i ==> (#[trigger] s[k]).0 != av,
        decreases n - i,
    {
        assert(s[i as int] == (v@[i as int].addr@, v@[i as int].count));
        if v[i].addr == addr {
            v.set(i, PeerCount { addr, count });
            let ghost t = counts_views(v@);
            assert(t =~= s.update(i as int, (av, count)));
            proof { lemma_counts_update(s, i as int, av, count); }
            return;
        }
        i = i + 1;
    }
    v.push(PeerCount { addr, count });
    let ghost t = counts_views(v@);
    assert(t =~= s.push((av, count)));
    proof { lemma_counts_push(s, av, count); }
}

/// Forgets the count of `addr`.
pub fn drop_count(v: &mut Vec<PeerCount>, addr: &String)
    requires
        counts_unique(counts_views(old(v)@)),
    ensures
        counts_unique(counts_views(final(v)@)),
        count_of(counts_views(final(v)@), addr@) is None,
        forall|a: Seq<char>| a != addr@ ==> count_of(counts_views(final(v)@), a) == count_of(counts_views(old(v)@), a),
{
    let ghost s = counts_views(v@);
    let n = v.len();
    let mut i: usize = 0;
    while i < n
        invariant
            n == v@.len(),
            s == counts_views(v@),
            v@ == old(v)@,
            counts_unique(s),
            0 <= i <= n,
            forall|k: int| 0 <= k < i ==> (#[trigger] s[k]).0 != addr@,
        decreases n - i,
    {
        assert(s[i as int] == (v@[i as int].addr@, v@[i as int].count));
        if v[i].addr == *addr {
            v.remove(i);
            let ghost t = counts_views(v@);
            assert(t =~= s.remove(i as int));
            proof { lemma_counts_remove(s, i as int); }
            return;
        }
        i = i + 1;
    }
}

proof fn lemma_counts_update(s: Seq<(Seq<char>, usize)>, i: int, a: Seq<char>, c: usize)
    requires
        counts_unique(s),
        0 <= i < s.len(),
        s[i].0 == a,
    ensures
        counts_unique(s.update(i, (a, c))),
        count_of(s.update(i, (a, c)), a) == Some(c),
        forall|b: Seq<char>| b != a ==> count_of(s.update(i, (a, c)), b) == count_of(s, b),
{
    let t = s.update(i, (a, c));
    assert(t[i].0 == a);
    let j = choose|j: int| 0 <= j < t.len() && (#[trigger] t[j]).0 == a;
    assert(j == i);
    assert forall|b: Seq<char>| b != a implies count_of(t, b) == count_of(s, b) by {
        if exists|k: int| 0 <= k < s.len() && (#[trigger] s[k]).0 == b {
            let k = choose|k: int| 0 <= k < s.len() && (#[trigger] s[k]).0 == b;
            assert(t[k] == s[k]);
            let k2 = choose|k2: int| 0 <= k2 < t.len() && (#[trigger] t[k2]).0 == b;
            assert(k2 == k);
        }
        if exists|k: int| 0 <= k < t.len() && (#[trigger] t[k]).0 == b {
            let k = choose|k: int| 0 <= k < t.len() && (#[trigger] t[k]).0 == b;
            assert(t[k] == s[k]);
        }
    }
}

proof fn lemma_counts_push(s: Seq<(Seq<char>, usize)>, a: Seq<char>, c: usize)
    requires
        counts_unique(s),
        forall|k: int| 0 <= k < s.len() ==> (#[trigger] s[k]).0 != a,
    ensures
        counts_unique(s.push((a, c))),
        count_of(s.push((a, c)), a) == Some(c),
        forall|b: Seq<char>| b != a ==> count_of(s.push((a, c)), b) == count_of(s, b),
{
    let t = s.push((a, c));
    assert(t[s.len() as int].0 == a);
    let j = choose|j: int| 0 <= j < t.len() && (#[trigger] t[j]).0 == a;
    assert(j == s.len());
    assert forall|b: Seq<char>| b != a implies count_of(t, b) == count_of(s, b) by {
        if exists|k: int| 0 <= k < s.len() && (#[trigger] s[k]).0 == b {
            let k = choose|k: int| 0 <= k < s.len() && (#[trigger] s[k]).0 == b;
            assert(t[k] == s[k]);
            let k2 = choose|k2: int| 0 <= k2 < t.len() && (#[trigger] t[k2]).0 == b;
            assert(k2 == k);
        }
        if exists|k: int| 0 <= k < t.len() && (#[trigger] t[k]).0 == b {
            let k = choose|k: int| 0 <= k < t.len() && (#[trigger] t[k]).0 == b;
            assert(t[k] == s[k]);
        }
    }
}

proof fn lemma_counts_remove(s: Seq<(Seq<char>, usize)>, i: int)
    requires
        counts_unique(s),
        0 <= i < s.len(),
    ensures
        counts_unique(s.remove(i)),
        count_of(s.remove(i), s[i].0) is None,
        forall|b: Seq<char>| b != s[i].0 ==> count_of(s.remove(i), b) == count_of(s, b),
{
    let t = s.remove(i);
    let a = s[i].0;
    assert forall|x: int, y: int| 0 <= x < t.len() && 0 <= y < t.len() && x != y implies t[x].0 != t[y].0 by {
        let x2 = if x < i { x } else { x + 1 };
        let y2 = if y < i { y } else { y + 1 };
        assert(t[x] == s[x2]);
        assert(t[y] == s[y2]);
    }
    if exists|k: int| 0 <= k < t.len() && (#[trigger] t[k]).0 == a {
        let k = choose|k: int| 0 <= k < t.len() && (#[trigger] t[k]).0 == a;
        let k2 = if k < i { k } else { k + 1 };
        assert(t[k] == s[k2]);
    }
    assert forall|b: Seq<char>| b != a implies count_of(t, b) == count_of(s, b) by {
        if exists|k: int| 0 <= k < s.len() && (#[trigger] s[k]).0 == b {
            let k = choose|k: int| 0 <= k < s.len() && (#[trigger] s[k]).0 == b;
            assert(k != i);
            let k3 = if k < i { k } else { k - 1 };
            assert(t[k3] == s[k]);
            let k2 = choose|k2: int| 0 <= k2 < t.len() && (#[trigger] t[k2]).0 == b;
            assert(k2 == k3);
        }
        if exists|k: int| 0 <= k < t.len() && (#[trigger] t[k]).0 == b {
            let k = choose|k: int| 0 <= k < t.len() && (#[trigger] t[k]).0 == b;
            let k2 = if k < i { k } else { k + 1 };
            assert(t[k] == s[k2]);
        }
    }
}

} // verus!
