//! Ordering and equality of texts by the bytes of their UTF-8 encoding.
//!
//! Keys of the tables are texts, and a table lists its entries in ascending
//! byte order of their keys. This module defines that order and decides it.

use vstd::prelude::*;
use vstd::utf8::{encode_utf8, encode_utf8_decode_utf8};

verus! {

/// `a` and `b` agree on their first `i` bytes, and there `a` ends while `b`
/// goes on, or `a` holds the smaller byte.
pub open spec fn parts_at(a: Seq<u8>, b: Seq<u8>, i: int) -> bool {
    &&& 0 <= i <= a.len()
    &&& i <= b.len()
    &&& forall|j: int| 0 <= j < i ==> a[j] == b[j]
    &&& if i == a.len() {
        i < b.len()
    } else {
        i < b.len() && a[i] < b[i]
    }
}

/// Strict lexicographic order on byte sequences.
pub open spec fn bytes_before(a: Seq<u8>, b: Seq<u8>) -> bool {
    exists|i: int| parts_at(a, b, i)
}

/// Strict order on texts: the lexicographic order of their UTF-8 encodings.
pub open spec fn text_before(a: Seq<char>, b: Seq<char>) -> bool {
    bytes_before(encode_utf8(a), encode_utf8(b))
}

/// How one text stands to another in the order of `text_before`.
#[derive(Clone, Copy, Debug, PartialEq, Eq)]
pub enum Standing {
    Before,
    Same,
    After,
}

/// The standing of `a` relative to `b`.
pub open spec fn standing(a: Seq<char>, b: Seq<char>) -> Standing {
    if a == b {
        Standing::Same
    } else if text_before(a, b) {
        Standing::Before
    } else {
        Standing::After
    }
}

/// No byte sequence stands before itself, and none stands both before and
/// after another.
pub proof fn lemma_bytes_before_asymmetric(a: Seq<u8>, b: Seq<u8>)
    requires
        bytes_before(a, b),
    ensures
        a != b,
        !bytes_before(b, a),
{
    let i = choose|i: int| parts_at(a, b, i);
    if bytes_before(b, a) {
        let j = choose|j: int| parts_at(b, a, j);
        if i < j {
            assert(b[i] == a[i]);
        } else if j < i {
            assert(a[j] == b[j]);
        }
    }
}

/// The order on byte sequences is transitive.
pub proof fn lemma_bytes_before_transitive(a: Seq<u8>, b: Seq<u8>, c: Seq<u8>)
    requires
        bytes_before(a, b),
        bytes_before(b, c),
    ensures
        bytes_before(a, c),
{
    let i = choose|i: int| parts_at(a, b, i);
    let j = choose|j: int| parts_at(b, c, j);
    let k = if i <= j { i } else { j };
    assert forall|n: int| 0 <= n < k implies a[n] == c[n] by {
        assert(a[n] == b[n]);
        assert(b[n] == c[n]);
    }
    if i < j {
        assert(b[i] == c[i]);
    } else if j < i {
        assert(a[j] == b[j]);
    }
    assert(parts_at(a, c, k));
}

/// Two texts with the same encoding are the same text.
pub proof fn lemma_encoding_injective(a: Seq<char>, b: Seq<char>)
    requires
        encode_utf8(a) == encode_utf8(b),
    ensures
        a == b,
{
    encode_utf8_decode_utf8(a);
    encode_utf8_decode_utf8(b);
}

/// A text never stands before itself, nor before a text that stands before it.
pub proof fn lemma_text_before_asymmetric(a: Seq<char>, b: Seq<char>)
    requires
        text_before(a, b),
    ensures
        a != b,
        !text_before(b, a),
{
    lemma_bytes_before_asymmetric(encode_utf8(a), encode_utf8(b));
}

/// The order on texts is transitive.
pub proof fn lemma_text_before_transitive(a: Seq<char>, b: Seq<char>, c: Seq<char>)
    requires
        text_before(a, b),
        text_before(b, c),
    ensures
        text_before(a, c),
{
    lemma_bytes_before_transitive(encode_utf8(a), encode_utf8(b), encode_utf8(c));
}

/// Decides how `a` stands to `b` in the byte order of their encodings.
pub fn compare_text(a: &str, b: &str) -> (r: Standing)
    ensures
        r == standing(a@, b@),
        r == Standing::After ==> text_before(b@, a@),
{
    let x = a.as_bytes();
    let y = b.as_bytes();
    let n = x.len();
    let m = y.len();
    let mut i: usize = 0;
    while i < n && i < m
        invariant
            n == x@.len(),
            m == y@.len(),
            i <= n,
            i <= m,
            x@ == encode_utf8(a@),
            y@ == encode_utf8(b@),
            forall|j: int| 0 <= j < i ==> x@[j] == y@[j],
        decreases n - i,
    {
        if x[i] < y[i] {
            proof {
                assert(parts_at(x@, y@, i as int));
                lemma_text_before_asymmetric(a@, b@);
            }
            return Standing::Before;
        }
        if x[i] > y[i] {
            proof {
                assert(parts_at(y@, x@, i as int));
                lemma_text_before_asymmetric(b@, a@);
            }
            return Standing::After;
        }
        i += 1;
    }
    if n < m {
        proof {
            assert(parts_at(x@, y@, i as int));
            lemma_text_before_asymmetric(a@, b@);
        }
        Standing::Before
    } else if m < n {
        proof {
            assert(parts_at(y@, x@, i as int));
            lemma_text_before_asymmetric(b@, a@);
        }
        Standing::After
    } else {
        proof {
            assert(x@ =~= y@);
            lemma_encoding_injective(a@, b@);
        }
        Standing::Same
    }
}

/// Whether two texts are the same.
pub fn same_text(a: &str, b: &str) -> (r: bool)
    ensures
        r == (a@ == b@),
{
    match compare_text(a, b) {
        Standing::Same => true,
        _ => false,
    }
}

} // verus!
