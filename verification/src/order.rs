//! The order in which pending expirations stand: by instant, and among
//! equal instants by the bytes of the key.
use vstd::prelude::*;
use vstd::utf8::*;

verus! {

/// Whether `a` comes before `b` when bytes are compared one by one and a
/// prefix comes before what it is a prefix of.
pub open spec fn bytes_less(a: Seq<u8>, b: Seq<u8>) -> bool
    decreases a.len(),
{
    if b.len() == 0 {
        false
    } else if a.len() == 0 {
        true
    } else if a[0] != b[0] {
        a[0] < b[0]
    } else {
        bytes_less(a.skip(1), b.skip(1))
    }
}

/// No byte sequence comes before itself.
pub proof fn lemma_bytes_less_irreflexive(a: Seq<u8>)
    ensures
        !bytes_less(a, a),
    decreases a.len(),
{
    if a.len() > 0 {
        lemma_bytes_less_irreflexive(a.skip(1));
    }
}

/// The order on byte sequences is transitive.
pub proof fn lemma_bytes_less_transitive(a: Seq<u8>, b: Seq<u8>, c: Seq<u8>)
    requires
        bytes_less(a, b),
        bytes_less(b, c),
    ensures
        bytes_less(a, c),
    decreases a.len(),
{
    if a.len() > 0 && b.len() > 0 && c.len() > 0 && a[0] == b[0] && b[0] == c[0] {
        lemma_bytes_less_transitive(a.skip(1), b.skip(1), c.skip(1));
    }
}

/// Of two different byte sequences one comes before the other.
pub proof fn lemma_bytes_less_total(a: Seq<u8>, b: Seq<u8>)
    ensures
        bytes_less(a, b) || bytes_less(b, a) || a == b,
    decreases a.len(),
{
    if a.len() > 0 && b.len() > 0 {
        if a[0] == b[0] {
            lemma_bytes_less_total(a.skip(1), b.skip(1));
            if a.skip(1) == b.skip(1) {
                assert(a =~= seq![a[0]] + a.skip(1));
            }
        }
    }
}

/// Whether the expiration `(t1, k1)` comes before `(t2, k2)`.
pub open spec fn expiration_less(t1: u64, k1: Seq<char>, t2: u64, k2: Seq<char>) -> bool {
    t1 < t2 || (t1 == t2 && bytes_less(encode_utf8(k1), encode_utf8(k2)))
}

/// The order on expirations is transitive.
pub proof fn lemma_expiration_less_transitive(
    t1: u64,
    k1: Seq<char>,
    t2: u64,
    k2: Seq<char>,
    t3: u64,
    k3: Seq<char>,
)
    requires
        expiration_less(t1, k1, t2, k2),
        expiration_less(t2, k2, t3, k3),
    ensures
        expiration_less(t1, k1, t3, k3),
{
    if t1 == t2 && t2 == t3 {
        lemma_bytes_less_transitive(encode_utf8(k1), encode_utf8(k2), encode_utf8(k3));
    }
}

/// Of two expirations with different keys one comes before the other.
pub proof fn lemma_expiration_less_total(t1: u64, k1: Seq<char>, t2: u64, k2: Seq<char>)
    requires
        k1 != k2,
    ensures
        expiration_less(t1, k1, t2, k2) || expiration_less(t2, k2, t1, k1),
{
    lemma_bytes_less_total(encode_utf8(k1), encode_utf8(k2));
    if encode_utf8(k1) == encode_utf8(k2) {
        encode_utf8_decode_utf8(k1);
        encode_utf8_decode_utf8(k2);
    }
}

/// No expiration comes before itself.
pub proof fn lemma_expiration_less_irreflexive(t: u64, k: Seq<char>)
    ensures
        !expiration_less(t, k, t, k),
{
    lemma_bytes_less_irreflexive(encode_utf8(k));
}

/// Whether the bytes of `a` come before the bytes of `b`.
pub fn key_less(a: &str, b: &str) -> (r: bool)
    ensures
        r == bytes_less(encode_utf8(a@), encode_utf8(b@)),
{
    let x = a.as_bytes();
    let y = b.as_bytes();
    let mut i: usize = 0;
    assert(x@.skip(0) =~= x@ && y@.skip(0) =~= y@);
    while i < x.len() && i < y.len()
        invariant
            x@ == encode_utf8(a@),
            y@ == encode_utf8(b@),
            i <= x@.len(),
            i <= y@.len(),
            bytes_less(x@, y@) == bytes_less(x@.skip(i as int), y@.skip(i as int)),
        decreases x@.len() - i,
    {
        if x[i] != y[i] {
            return x[i] < y[i];
        }
        assert(x@.skip(i as int).skip(1) =~= x@.skip(i + 1));
        assert(y@.skip(i as int).skip(1) =~= y@.skip(i + 1));
        i = i + 1;
    }
    i < y.len()
}

/// Whether the expiration `(t1, k1)` comes before `(t2, k2)`.
pub fn expiration_before(t1: u64, k1: &str, t2: u64, k2: &str) -> (r: bool)
    ensures
        r == expiration_less(t1, k1@, t2, k2@),
{
    t1 < t2 || (t1 == t2 && key_less(k1, k2))
}

} // verus!
