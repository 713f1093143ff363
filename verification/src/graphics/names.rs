//! The order of names: byte by byte, a shorter name before its extensions.

use vstd::prelude::*;
use vstd::string::StringSliceAdditionalSpecFns;
use vstd::utf8::encode_utf8;
use vstd::utf8::encode_utf8_decode_utf8;

verus! {

/// Whether `a` and `b` agree in their first `n` bytes.
pub open spec fn agree(a: Seq<u8>, b: Seq<u8>, n: int) -> bool {
    n <= a.len() && n <= b.len() && forall|i: int| 0 <= i < n ==> a[i] == b[i]
}

/// Whether `a` and `b` part ways at byte `n` with `a` the lesser: `a` ends
/// there and `b` goes on, or `a` has the smaller byte.
pub open spec fn parts_at(a: Seq<u8>, b: Seq<u8>, n: int) -> bool {
    &&& 0 <= n
    &&& agree(a, b, n)
    &&& n < b.len()
    &&& (n == a.len() || a[n] < b[n])
}

/// Whether `a` comes before `b` in the order of byte strings.
pub open spec fn precedes(a: Seq<u8>, b: Seq<u8>) -> bool {
    exists|n: int| parts_at(a, b, n)
}

/// Whether the name `a` comes before the name `b`: names are ordered by
/// their UTF-8 bytes.
pub open spec fn name_precedes(a: Seq<char>, b: Seq<char>) -> bool {
    precedes(encode_utf8(a), encode_utf8(b))
}

/// Of two byte strings that differ, one comes before the other.
pub proof fn lemma_one_precedes(a: Seq<u8>, b: Seq<u8>, n: int)
    requires
        0 <= n,
        agree(a, b, n),
        n == a.len() || n == b.len() || a[n] != b[n],
    ensures
        n == a.len() && n == b.len() ==> a == b,
        !(n == a.len() && n == b.len()) ==> precedes(a, b) || precedes(b, a),
        n < b.len() && (n == a.len() || a[n] < b[n]) ==> precedes(a, b),
        !(n < b.len() && (n == a.len() || a[n] < b[n])) ==> !precedes(a, b),
{
    if n == a.len() && n == b.len() {
        assert(a =~= b);
    } else if n < b.len() && (n == a.len() || a[n] < b[n]) {
        assert(parts_at(a, b, n));
    } else {
        assert(parts_at(b, a, n));
    }
    if !(n < b.len() && (n == a.len() || a[n] < b[n])) {
        assert forall|m: int| !parts_at(a, b, m) by {
            if parts_at(a, b, m) {
                if m < n {
                    assert(a[m] == b[m]);
                } else if m > n {
                    assert(a[n] == b[n]);
                }
            }
        }
    }
}

/// The order of byte strings is transitive.
pub proof fn lemma_precedes_transitive(a: Seq<u8>, b: Seq<u8>, c: Seq<u8>)
    requires
        precedes(a, b),
        precedes(b, c),
    ensures
        precedes(a, c),
{
    let n = choose|n: int| parts_at(a, b, n);
    let m = choose|m: int| parts_at(b, c, m);
    let k = if n <= m {
        n
    } else {
        m
    };
    assert(parts_at(a, c, k));
}

/// Nothing comes before itself.
pub proof fn lemma_precedes_irreflexive(a: Seq<u8>)
    ensures
        !precedes(a, a),
{
    assert forall|n: int| !parts_at(a, a, n) by {}
}

/// Names with the same bytes are the same name.
pub proof fn lemma_same_bytes_same_name(a: Seq<char>, b: Seq<char>)
    requires
        encode_utf8(a) == encode_utf8(b),
    ensures
        a == b,
{
    encode_utf8_decode_utf8(a);
    encode_utf8_decode_utf8(b);
}

/// How two names stand to each other.
#[derive(Debug, Copy, Clone, PartialEq, Eq, Structural)]
pub enum Standing {
    Before,
    Same,
    After,
}

/// Finds how the name `a` stands to the name `b`.
pub fn standing(a: &str, b: &str) -> (s: Standing)
    ensures
        s == Standing::Before <==> name_precedes(a@, b@),
        s == Standing::Same <==> a@ == b@,
        s == Standing::After <==> name_precedes(b@, a@),
{
    let x: &[u8] = a.as_bytes();
    let y: &[u8] = b.as_bytes();
    let mut n: usize = 0;
    while n < x.len() && n < y.len() && x[n] == y[n]
        invariant
            n <= x.len(),
            n <= y.len(),
            agree(x@, y@, n as int),
        decreases x.len() - n,
    {
        n += 1;
    }
    proof {
        lemma_one_precedes(x@, y@, n as int);
        lemma_one_precedes(y@, x@, n as int);
        lemma_precedes_irreflexive(x@);
        if x@ == y@ {
            lemma_same_bytes_same_name(a@, b@);
        }
        if precedes(x@, y@) && precedes(y@, x@) {
            lemma_precedes_transitive(x@, y@, x@);
        }
    }
    if n == x.len() && n == y.len() {
        Standing::Same
    } else if n < y.len() && (n == x.len() || x[n] < y[n]) {
        Standing::Before
    } else {
        Standing::After
    }
}

} // verus!
