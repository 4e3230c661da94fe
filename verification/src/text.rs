//! Comparison of strings: equality and the order in which category names are
//! listed, which is the order of `str`: by the bytes of the UTF-8 encoding.

use vstd::prelude::*;
use vstd::utf8::*;
use vstd::string::*;

verus! {

/// How one text stands to another in the listing order.
#[derive(Debug, Clone, Copy, PartialEq, Eq, Structural)]
pub enum Placement {
    Before,
    Same,
    After,
}

/// `a` and `b` agree on their first `k` bytes, and `a` comes first at
/// position `k`: either `a` ends there and `b` goes on, or `a` has the
/// smaller byte.
pub open spec fn precedes_at(a: Seq<u8>, b: Seq<u8>, k: int) -> bool {
    &&& 0 <= k <= a.len()
    &&& k <= b.len()
    &&& forall|j: int| 0 <= j < k ==> a[j] == b[j]
    &&& ((k == a.len() && k < b.len()) || (k < a.len() && k < b.len() && a[k] < b[k]))
}

/// `a` is strictly before `b` in lexicographic order.
pub open spec fn bytes_before(a: Seq<u8>, b: Seq<u8>) -> bool {
    exists|k: int| precedes_at(a, b, k)
}

/// `a` is listed strictly before `b`.
pub open spec fn text_before(a: Seq<char>, b: Seq<char>) -> bool {
    bytes_before(encode_utf8(a), encode_utf8(b))
}

/// No text is listed before itself, and of two texts at most one is listed
/// before the other.
pub proof fn lemma_text_before_asymmetric(a: Seq<char>, b: Seq<char>)
    requires
        text_before(a, b),
    ensures
        !text_before(b, a),
        a != b,
{
    let x = encode_utf8(a);
    let y = encode_utf8(b);
    let k = choose|k: int| precedes_at(x, y, k);
    assert forall|m: int| !precedes_at(y, x, m) by {
        // Both would have to hold the smaller byte where they first differ.
        if precedes_at(y, x, m) && m < k {
            assert(x[m] == y[m]);
        }
    }
}

/// The listing order is transitive.
pub proof fn lemma_text_before_transitive(a: Seq<char>, b: Seq<char>, c: Seq<char>)
    requires
        text_before(a, b),
        text_before(b, c),
    ensures
        text_before(a, c),
{
    let x = encode_utf8(a);
    let y = encode_utf8(b);
    let z = encode_utf8(c);
    let k1 = choose|k: int| precedes_at(x, y, k);
    let k2 = choose|k: int| precedes_at(y, z, k);
    // `a` and `c` first differ where the earlier of the two differences lies.
    let k = if k1 <= k2 { k1 } else { k2 };
    assert(precedes_at(x, z, k));
}

/// Texts with the same encoding are the same text.
pub proof fn lemma_same_bytes_same_text(a: Seq<char>, b: Seq<char>)
    requires
        encode_utf8(a) == encode_utf8(b),
    ensures
        a == b,
{
    encode_utf8_decode_utf8(a);
    encode_utf8_decode_utf8(b);
}

/// Where `a` stands relative to `b` in the listing order.
pub fn placement(a: &str, b: &str) -> (p: Placement)
    ensures
        p == Placement::Before <==> text_before(a@, b@),
        p == Placement::Same <==> a@ == b@,
        p == Placement::After <==> text_before(b@, a@),
{
    let x = a.as_bytes();
    let y = b.as_bytes();
    let n = x.len();
    let m = y.len();
    let mut i: usize = 0;
    while i < n && i < m && x[i] == y[i]
        invariant
            n == x@.len(),
            m == y@.len(),
            i <= n,
            i <= m,
            forall|j: int| 0 <= j < i ==> x@[j] == y@[j],
        decreases n - i,
    {
        i = i + 1;
    }
    let p = if i == n {
        if i == m {
            Placement::Same
        } else {
            Placement::Before
        }
    } else if i == m {
        Placement::After
    } else if x[i] < y[i] {
        Placement::Before
    } else {
        Placement::After
    };
    proof {
        match p {
            Placement::Same => {
                assert(x@ =~= y@);
                lemma_same_bytes_same_text(a@, b@);
            },
            Placement::Before => {
                assert(precedes_at(x@, y@, i as int));
                lemma_text_before_asymmetric(a@, b@);
            },
            Placement::After => {
                assert(precedes_at(y@, x@, i as int));
                lemma_text_before_asymmetric(b@, a@);
            },
        }
    }
    p
}

/// Whether two texts are the same.
pub fn same_text(a: &str, b: &str) -> (same: bool)
    ensures
        same == (a@ == b@),
{
    match placement(a, b) {
        Placement::Same => true,
        _ => false,
    }
}

} // verus!
