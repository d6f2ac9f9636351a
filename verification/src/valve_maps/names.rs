//! Names in order: the order of strings, which is the order of their bytes,
//! and lists of names that rise in it.

use vstd::prelude::*;
use vstd::string::*;
use vstd::utf8::*;

verus! {

/// The first offset at or after `i` at which `a` and `b` differ, or at which
/// one of them ends.
pub open spec fn first_difference(a: Seq<u8>, b: Seq<u8>, i: int) -> int
    decreases a.len() - i,
{
    if i < 0 || i >= a.len() || i >= b.len() || a[i] != b[i] {
        i
    } else {
        first_difference(a, b, i + 1)
    }
}

/// `a` comes before `b`: where they first differ, `a` has the smaller byte,
/// or `a` ends there and `b` does not.
pub open spec fn bytes_less(a: Seq<u8>, b: Seq<u8>) -> bool {
    let k = first_difference(a, b, 0);
    if k < a.len() && k < b.len() {
        a[k] < b[k]
    } else {
        a.len() < b.len()
    }
}

/// The name `a` comes before the name `b`, as strings are ordered: by the
/// bytes of their UTF-8.
pub open spec fn name_less(a: Seq<char>, b: Seq<char>) -> bool {
    bytes_less(encode_utf8(a), encode_utf8(b))
}

/// The names rise: each comes before all that follow it.
pub open spec fn rising(names: Seq<Seq<char>>) -> bool {
    forall|i: int, j: int| 0 <= i < j < names.len() ==> name_less(names[i], names[j])
}

/// Before the first difference the two agree, and at it they differ or one
/// ends.
pub proof fn lemma_first_difference(a: Seq<u8>, b: Seq<u8>, i: int)
    requires
        0 <= i <= a.len(),
        i <= b.len(),
    ensures
        i <= first_difference(a, b, i) <= a.len(),
        first_difference(a, b, i) <= b.len(),
        forall|j: int| i <= j < first_difference(a, b, i) ==> a[j] == b[j],
        first_difference(a, b, i) < a.len() && first_difference(a, b, i) < b.len() ==> a[first_difference(
            a,
            b,
            i,
        )] != b[first_difference(a, b, i)],
    decreases a.len() - i,
{
    if i < a.len() && i < b.len() && a[i] == b[i] {
        lemma_first_difference(a, b, i + 1);
    }
}

/// Where `a` and `b` agree before `k` and differ at `k`, or one ends at
/// `k`, they first differ at `k`.
pub proof fn lemma_first_difference_is(a: Seq<u8>, b: Seq<u8>, k: int)
    requires
        0 <= k <= a.len(),
        k <= b.len(),
        forall|j: int| 0 <= j < k ==> a[j] == b[j],
        k == a.len() || k == b.len() || a[k] != b[k],
    ensures
        first_difference(a, b, 0) == k,
{
    lemma_first_difference(a, b, 0);
    let f = first_difference(a, b, 0);
    if f < k {
        assert(a[f] == b[f]);
    }
}

/// Of two sequences of bytes, one comes before the other, or they are equal.
pub proof fn lemma_bytes_order_total(a: Seq<u8>, b: Seq<u8>)
    ensures
        bytes_less(a, b) || bytes_less(b, a) || a == b,
        !(bytes_less(a, b) && bytes_less(b, a)),
        !bytes_less(a, a),
{
    lemma_first_difference(a, b, 0);
    lemma_first_difference(b, a, 0);
    lemma_first_difference(a, a, 0);
    let k = first_difference(a, b, 0);
    lemma_first_difference_is(b, a, k);
    if !bytes_less(a, b) && !bytes_less(b, a) {
        assert(a =~= b);
    }
}

/// The order of bytes is transitive.
pub proof fn lemma_bytes_order_transitive(a: Seq<u8>, b: Seq<u8>, c: Seq<u8>)
    requires
        bytes_less(a, b),
        bytes_less(b, c),
    ensures
        bytes_less(a, c),
{
    lemma_first_difference(a, b, 0);
    lemma_first_difference(b, c, 0);
    let k1 = first_difference(a, b, 0);
    let k2 = first_difference(b, c, 0);
    let k = if k1 <= k2 {
        k1
    } else {
        k2
    };
    assert forall|j: int| 0 <= j < k implies a[j] == c[j] by {
        assert(a[j] == b[j]);
        assert(b[j] == c[j]);
    }
    if k1 < k2 {
        if k1 < a.len() {
            assert(b[k1] == c[k1]);
        }
        lemma_first_difference_is(a, c, k);
    } else if k2 < k1 {
        assert(a[k2] == b[k2]);
        lemma_first_difference_is(a, c, k);
    } else {
        lemma_first_difference_is(a, c, k);
    }
}

/// Names with the same bytes are the same name.
pub proof fn lemma_same_bytes_same_name(a: Seq<char>, b: Seq<char>)
    requires
        encode_utf8(a) == encode_utf8(b),
    ensures
        a == b,
{
    encode_utf8_decode_utf8(a);
    encode_utf8_decode_utf8(b);
}

/// Names that rise are all different.
pub proof fn lemma_rising_names_differ(names: Seq<Seq<char>>, i: int, j: int)
    requires
        rising(names),
        0 <= i < j < names.len(),
    ensures
        names[i] != names[j],
{
    assert(name_less(names[i], names[j]));
    lemma_bytes_order_total(encode_utf8(names[i]), encode_utf8(names[i]));
}

/// How two names stand to each other.
#[derive(Debug, Clone, Copy, PartialEq, Eq, Structural)]
pub enum Place {
    Before,
    Same,
    After,
}

/// Tells how the name `a` stands to the name `b`.
pub fn place_of(a: &str, b: &str) -> (place: Place)
    ensures
        place == Place::Before <==> name_less(a@, b@),
        place == Place::Same <==> a@ == b@,
        place == Place::After <==> name_less(b@, a@),
{
    let x = a.as_bytes();
    let y = b.as_bytes();
    let n = x.len();
    let m = y.len();
    proof {
        lemma_bytes_order_total(x@, y@);
        lemma_first_difference(x@, y@, 0);
        if a@ == b@ {
            assert(x@ == y@);
        }
        if x@ == y@ {
            lemma_same_bytes_same_name(a@, b@);
        }
    }
    let mut k: usize = 0;
    while k < n && k < m && x[k] == y[k]
        invariant
            n == x@.len(),
            m == y@.len(),
            k <= n,
            k <= m,
            first_difference(x@, y@, k as int) == first_difference(x@, y@, 0),
        decreases n - k,
    {
        k += 1;
    }
    proof {
        lemma_first_difference_is(y@, x@, first_difference(x@, y@, 0));
    }
    if k < n && k < m {
        if x[k] < y[k] {
            Place::Before
        } else {
            Place::After
        }
    } else if n < m {
        Place::Before
    } else if m < n {
        Place::After
    } else {
        Place::Same
    }
}

/// The names as text.
pub open spec fn texts(names: Seq<String>) -> Seq<Seq<char>> {
    names.map_values(|name: String| name@)
}

/// The names of `names` but `skip`, each once, in rising order.
pub fn sorted_names(names: &Vec<String>, skip: &str) -> (sorted: Vec<String>)
    ensures
        rising(texts(sorted@)),
        forall|name: Seq<char>|
            texts(sorted@).contains(name) <==> (texts(names@).contains(name) && name != skip@),
{
    let n = names.len();
    let mut sorted: Vec<String> = Vec::new();
    let mut i: usize = 0;
    while i < n
        invariant
            n == names@.len(),
            i <= n,
            rising(texts(sorted@)),
            forall|name: Seq<char>|
                texts(sorted@).contains(name) <==> (texts(names@).take(i as int).contains(name)
                    && name != skip@),
        decreases n - i,
    {
        let name = &names[i];
        let ghost before = texts(sorted@);
        let ghost head = texts(names@).take(i as int);
        let ghost next = texts(names@).take(i + 1);
        proof {
            assert(next =~= head.push(name@));
            assert forall|other: Seq<char>| next.contains(other) <==> (head.contains(other)
                || other == name@) by {
                if head.contains(other) {
                    let k = choose|k: int| 0 <= k < head.len() && head[k] == other;
                    assert(next[k] == other);
                }
                if other == name@ {
                    assert(next[i as int] == other);
                }
                if next.contains(other) {
                    let k = choose|k: int| 0 <= k < next.len() && next[k] == other;
                    if k < i {
                        assert(head[k] == other);
                    }
                }
            }
        }
        let wanted = match place_of(name.as_str(), skip) {
            Place::Same => false,
            _ => true,
        };
        if wanted {
            let m = sorted.len();
            let mut p: usize = 0;
            let mut found = false;
            let mut stop = false;
            while p < m && !stop
                invariant
                    m == sorted@.len(),
                    p <= m,
                    before == texts(sorted@),
                    forall|j: int| 0 <= j < p ==> name_less(#[trigger] before[j], name@),
                    found ==> stop,
                    stop ==> p < m && (if found {
                        before[p as int] == name@
                    } else {
                        name_less(name@, before[p as int])
                    }),
                decreases m - p + (if stop {
                    0int
                } else {
                    1int
                }),
            {
                match place_of(sorted[p].as_str(), name.as_str()) {
                    Place::Before => {
                        p += 1;
                    },
                    Place::Same => {
                        found = true;
                        stop = true;
                    },
                    Place::After => {
                        stop = true;
                    },
                }
            }
            if found {
                proof {
                    assert(before[p as int] == name@);
                }
            } else {
                let copy = name.clone();
                sorted.insert(p, copy);
                proof {
                    let after = texts(sorted@);
                    assert(after =~= before.insert(p as int, name@));
                    assert forall|a: int, b: int| 0 <= a < b < after.len() implies name_less(
                        after[a],
                        after[b],
                    ) by {
                        if b < p {
                            assert(after[a] == before[a] && after[b] == before[b]);
                        } else if b == p {
                            assert(after[a] == before[a]);
                        } else if a == p {
                            assert(after[b] == before[b - 1]);
                            assert(name_less(name@, before[p as int]));
                            if b - 1 > p {
                                assert(name_less(before[p as int], before[b - 1]));
                                lemma_bytes_order_transitive(
                                    encode_utf8(name@),
                                    encode_utf8(before[p as int]),
                                    encode_utf8(before[b - 1]),
                                );
                            }
                        } else if a < p {
                            assert(after[a] == before[a] && after[b] == before[b - 1]);
                        } else {
                            assert(after[a] == before[a - 1] && after[b] == before[b - 1]);
                        }
                    }
                    assert forall|other: Seq<char>| after.contains(other) <==> (before.contains(
                        other,
                    ) || other == name@) by {
                        if before.contains(other) {
                            let k = choose|k: int| 0 <= k < before.len() && before[k] == other;
                            if k < p {
                                assert(after[k] == other);
                            } else {
                                assert(after[k + 1] == other);
                            }
                        }
                        if other == name@ {
                            assert(after[p as int] == other);
                        }
                        if after.contains(other) {
                            let k = choose|k: int| 0 <= k < after.len() && after[k] == other;
                            if k < p {
                                assert(before[k] == other);
                            } else if k > p {
                                assert(before[k - 1] == other);
                            }
                        }
                    }
                }
            }
        }
        i += 1;
    }
    proof {
        assert(texts(names@).take(n as int) =~= texts(names@));
    }
    sorted
}

} // verus!
