//! The order of keys: byte strings compared place by place, as `str` orders
//! its values.

use vstd::prelude::*;
use vstd::utf8::{encode_utf8, encode_utf8_decode_utf8};

verus! {

/// `a` comes strictly before `b`: at the first place where the two differ `a`
/// has the smaller byte, or `a` ends there and `b` goes on.
pub open spec fn bytes_before(a: Seq<u8>, b: Seq<u8>) -> bool
    decreases a.len(),
{
    if b.len() == 0 {
        false
    } else if a.len() == 0 {
        true
    } else if a[0] != b[0] {
        a[0] < b[0]
    } else {
        bytes_before(a.drop_first(), b.drop_first())
    }
}

/// The order of two keys: that of their UTF-8 encodings.
pub open spec fn key_before(a: Seq<char>, b: Seq<char>) -> bool {
    bytes_before(encode_utf8(a), encode_utf8(b))
}

/// How one key stands to another.
#[derive(Clone, Copy, Debug, PartialEq, Eq, Structural)]
pub enum Side {
    Before,
    Same,
    After,
}

/// No byte string comes before itself.
pub proof fn lemma_bytes_before_irreflexive(a: Seq<u8>)
    ensures
        !bytes_before(a, a),
    decreases a.len(),
{
    if a.len() > 0 {
        lemma_bytes_before_irreflexive(a.drop_first());
    }
}

/// What comes before something that comes before `c` comes before `c`.
pub proof fn lemma_bytes_before_transitive(a: Seq<u8>, b: Seq<u8>, c: Seq<u8>)
    requires
        bytes_before(a, b),
        bytes_before(b, c),
    ensures
        bytes_before(a, c),
    decreases a.len(),
{
    if a.len() > 0 && a[0] == b[0] && b[0] == c[0] {
        lemma_bytes_before_transitive(a.drop_first(), b.drop_first(), c.drop_first());
    }
}

/// Two byte strings that agree up to `from` stand to each other as what is
/// left of them does.
proof fn lemma_bytes_before_skip(a: Seq<u8>, b: Seq<u8>, from: int)
    requires
        0 <= from <= a.len(),
        from <= b.len(),
        forall|j: int| 0 <= j < from ==> a[j] == b[j],
    ensures
        bytes_before(a, b) == bytes_before(a.skip(from), b.skip(from)),
    decreases from,
{
    if from == 0 {
        assert(a.skip(0) =~= a);
        assert(b.skip(0) =~= b);
    } else {
        lemma_bytes_before_skip(a, b, from - 1);
        let x = a.skip(from - 1);
        let y = b.skip(from - 1);
        assert(x[0] == y[0]);
        assert(x.drop_first() =~= a.skip(from));
        assert(y.drop_first() =~= b.skip(from));
    }
}

/// Compares two byte strings place by place.
pub fn compare_bytes(a: &[u8], b: &[u8]) -> (side: Side)
    ensures
        side == Side::Before <==> bytes_before(a@, b@),
        side == Side::Same <==> a@ == b@,
        side == Side::After <==> bytes_before(b@, a@),
{
    let mut i: usize = 0;
    while i < a.len() && i < b.len()
        invariant
            i <= a.len(),
            i <= b.len(),
            forall|j: int| 0 <= j < i ==> a@[j] == b@[j],
        decreases a.len() - i,
    {
        if a[i] != b[i] {
            proof {
                lemma_bytes_before_skip(a@, b@, i as int);
                lemma_bytes_before_skip(b@, a@, i as int);
            }
            return if a[i] < b[i] {
                Side::Before
            } else {
                Side::After
            };
        }
        i += 1;
    }
    proof {
        lemma_bytes_before_skip(a@, b@, i as int);
        lemma_bytes_before_skip(b@, a@, i as int);
        if a.len() == b.len() {
            assert(a@ =~= b@);
            lemma_bytes_before_irreflexive(a@);
        }
    }
    if a.len() < b.len() {
        Side::Before
    } else if a.len() == b.len() {
        Side::Same
    } else {
        Side::After
    }
}

/// Compares two keys by their bytes.
pub fn compare_keys(a: &str, b: &str) -> (side: Side)
    ensures
        side == Side::Before <==> key_before(a@, b@),
        side == Side::Same <==> a@ == b@,
        side == Side::After <==> key_before(b@, a@),
{
    proof {
        encode_utf8_decode_utf8(a@);
        encode_utf8_decode_utf8(b@);
    }
    compare_bytes(a.as_bytes(), b.as_bytes())
}

} // verus!
