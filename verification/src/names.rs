//! The order in which names are listed: lexicographic by the bytes of their UTF-8
//! encoding, which is the order Rust gives to strings.

use vstd::prelude::*;
use vstd::utf8::encode_utf8;

verus! {

/// `a` comes no later than `b` when both are read byte by byte: at the first
/// position where they differ `a` holds the smaller byte, or `a` ends first.
pub open spec fn bytes_le(a: Seq<u8>, b: Seq<u8>) -> bool
    decreases a.len(),
{
    if a.len() == 0 {
        true
    } else if b.len() == 0 {
        false
    } else if a[0] != b[0] {
        a[0] < b[0]
    } else {
        bytes_le(a.drop_first(), b.drop_first())
    }
}

/// The name `a` is listed no later than the name `b`.
pub open spec fn name_le(a: Seq<char>, b: Seq<char>) -> bool {
    bytes_le(encode_utf8(a), encode_utf8(b))
}

/// Every byte string comes no later than itself.
pub proof fn lemma_bytes_le_reflexive(a: Seq<u8>)
    ensures
        bytes_le(a, a),
    decreases a.len(),
{
    if a.len() > 0 {
        lemma_bytes_le_reflexive(a.drop_first());
    }
}

/// Every name is listed no later than itself.
pub proof fn lemma_name_le_reflexive(a: Seq<char>)
    ensures
        name_le(a, a),
{
    lemma_bytes_le_reflexive(encode_utf8(a));
}

/// Of two byte strings one comes no later than the other.
pub proof fn lemma_bytes_le_total(a: Seq<u8>, b: Seq<u8>)
    ensures
        bytes_le(a, b) || bytes_le(b, a),
    decreases a.len(),
{
    if a.len() > 0 && b.len() > 0 && a[0] == b[0] {
        lemma_bytes_le_total(a.drop_first(), b.drop_first());
    }
}

/// The order on byte strings is transitive.
pub proof fn lemma_bytes_le_transitive(a: Seq<u8>, b: Seq<u8>, c: Seq<u8>)
    requires
        bytes_le(a, b),
        bytes_le(b, c),
    ensures
        bytes_le(a, c),
    decreases a.len(),
{
    if a.len() > 0 && b.len() > 0 && c.len() > 0 && a[0] == b[0] && b[0] == c[0] {
        lemma_bytes_le_transitive(a.drop_first(), b.drop_first(), c.drop_first());
    }
}

/// Of two names one is listed no later than the other.
pub proof fn lemma_name_le_total(a: Seq<char>, b: Seq<char>)
    ensures
        name_le(a, b) || name_le(b, a),
{
    lemma_bytes_le_total(encode_utf8(a), encode_utf8(b));
}

/// The order on names is transitive.
pub proof fn lemma_name_le_transitive(a: Seq<char>, b: Seq<char>, c: Seq<char>)
    requires
        name_le(a, b),
        name_le(b, c),
    ensures
        name_le(a, c),
{
    lemma_bytes_le_transitive(encode_utf8(a), encode_utf8(b), encode_utf8(c));
}

/// Decides whether the name `a` is listed no later than the name `b`.
pub fn name_comes_first(a: &str, b: &str) -> (first: bool)
    ensures
        first == name_le(a@, b@),
{
    let x = a.as_bytes();
    let y = b.as_bytes();
    let mut i: usize = 0;
    proof {
        assert(x@.skip(0) =~= x@);
        assert(y@.skip(0) =~= y@);
    }
    while i < x.len() && i < y.len()
        invariant
            i <= x@.len(),
            i <= y@.len(),
            x@ == encode_utf8(a@),
            y@ == encode_utf8(b@),
            bytes_le(x@, y@) == bytes_le(x@.skip(i as int), y@.skip(i as int)),
        decreases x@.len() - i,
    {
        proof {
            assert(x@.skip(i as int).drop_first() =~= x@.skip(i as int + 1));
            assert(y@.skip(i as int).drop_first() =~= y@.skip(i as int + 1));
        }
        if x[i] != y[i] {
            return x[i] < y[i];
        }
        i += 1;
    }
    x.len() <= y.len()
}

} // verus!
