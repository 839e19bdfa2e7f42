//! The order of overlay labels: that of their UTF-8 bytes, which is how
//! strings compare.

use vstd::prelude::*;
use vstd::string::*;
use vstd::utf8::*;

verus! {

/// How one label stands to another.
#[derive(Clone, Copy, Debug, PartialEq, Eq, Structural)]
pub enum Place {
    Before,
    Same,
    After,
}

/// Whether `a` sorts before `b`, as index `k` shows: the two agree below `k`,
/// and at `k` either `a` ends while `b` goes on, or `a` holds the smaller byte.
pub open spec fn differs_at(a: Seq<u8>, b: Seq<u8>, k: int) -> bool {
    &&& 0 <= k <= a.len()
    &&& k < b.len()
    &&& forall|i: int| 0 <= i < k ==> a[i] == b[i]
    &&& k == a.len() || a[k] < b[k]
}

/// Whether `a` sorts before `b`, byte by byte.
pub open spec fn bytes_before(a: Seq<u8>, b: Seq<u8>) -> bool {
    exists|k: int| #[trigger] differs_at(a, b, k)
}

/// Whether the label `a` sorts before the label `b`.
pub open spec fn label_before(a: Seq<char>, b: Seq<char>) -> bool {
    bytes_before(encode_utf8(a), encode_utf8(b))
}

/// Nothing sorts before itself.
pub proof fn lemma_before_is_irreflexive(a: Seq<u8>)
    ensures
        !bytes_before(a, a),
{
}

/// The order is transitive.
pub proof fn lemma_before_is_transitive(a: Seq<u8>, b: Seq<u8>, c: Seq<u8>)
    requires
        bytes_before(a, b),
        bytes_before(b, c),
    ensures
        bytes_before(a, c),
{
    let k1 = choose|k: int| #[trigger] differs_at(a, b, k);
    let k2 = choose|k: int| #[trigger] differs_at(b, c, k);
    if k1 <= k2 {
        assert(differs_at(a, c, k1));
    } else {
        assert(differs_at(a, c, k2));
    }
}

/// Of two byte strings exactly one holds: the first sorts before the second,
/// they are equal, or the second sorts before the first.
pub proof fn lemma_before_is_total(a: Seq<u8>, b: Seq<u8>)
    ensures
        bytes_before(a, b) || a == b || bytes_before(b, a),
        !(bytes_before(a, b) && a == b),
        !(bytes_before(b, a) && a == b),
        !(bytes_before(a, b) && bytes_before(b, a)),
{
    lemma_before_is_irreflexive(a);
    if bytes_before(a, b) && bytes_before(b, a) {
        lemma_before_is_transitive(a, b, a);
    }
    if a != b {
        lemma_first_difference(a, b, 0);
    }
}

/// Two byte strings that agree below `from` and are not equal are ordered one
/// way or the other.
proof fn lemma_first_difference(a: Seq<u8>, b: Seq<u8>, from: int)
    requires
        0 <= from <= a.len(),
        from <= b.len(),
        forall|i: int| 0 <= i < from ==> a[i] == b[i],
        a != b,
    ensures
        bytes_before(a, b) || bytes_before(b, a),
    decreases a.len() - from,
{
    if from == a.len() {
        if from == b.len() {
            assert(a =~= b);
        } else {
            assert(differs_at(a, b, from));
        }
    } else if from == b.len() {
        assert(differs_at(b, a, from));
    } else if a[from] < b[from] {
        assert(differs_at(a, b, from));
    } else if b[from] < a[from] {
        assert(differs_at(b, a, from));
    } else {
        lemma_first_difference(a, b, from + 1);
    }
}

/// Labels with the same bytes are the same label.
pub proof fn lemma_label_of_bytes(a: Seq<char>, b: Seq<char>)
    requires
        encode_utf8(a) == encode_utf8(b),
    ensures
        a == b,
{
    encode_utf8_decode_utf8(a);
    encode_utf8_decode_utf8(b);
}

/// Compares two byte strings.
fn place_of_bytes(a: &[u8], b: &[u8]) -> (place: Place)
    ensures
        place is Before <==> bytes_before(a@, b@),
        place is Same <==> a@ == b@,
        place is After <==> bytes_before(b@, a@),
{
    proof {
        lemma_before_is_total(a@, b@);
    }
    let mut i: usize = 0;
    while i < a.len() && i < b.len()
        invariant
            i <= a.len(),
            i <= b.len(),
            forall|j: int| 0 <= j < i ==> a@[j] == b@[j],
        decreases a.len() - i,
    {
        if a[i] < b[i] {
            assert(differs_at(a@, b@, i as int));
            return Place::Before;
        }
        if b[i] < a[i] {
            assert(differs_at(b@, a@, i as int));
            return Place::After;
        }
        i += 1;
    }
    if i < b.len() {
        assert(differs_at(a@, b@, i as int));
        Place::Before
    } else if i < a.len() {
        assert(differs_at(b@, a@, i as int));
        Place::After
    } else {
        assert(a@ =~= b@);
        Place::Same
    }
}

/// Compares two labels.
pub fn place_of(a: &str, b: &str) -> (place: Place)
    ensures
        place is Before <==> label_before(a@, b@),
        place is Same <==> a@ == b@,
        place is After <==> label_before(b@, a@),
{
    proof {
        if a.spec_bytes() == b.spec_bytes() {
            lemma_label_of_bytes(a@, b@);
        }
    }
    place_of_bytes(a.as_bytes(), b.as_bytes())
}

} // verus!
