//! The order of viewer identifiers: the order of their UTF-8 bytes, which is
//! the order in which the standard library sorts strings.

use vstd::prelude::*;
use vstd::utf8::{encode_utf8, encode_utf8_decode_utf8};

verus! {

/// Where one identifier stands relative to another.
#[derive(Debug, Clone, Copy, PartialEq, Eq, Structural)]
pub enum Position {
    Before,
    Same,
    After,
}

/// The first `k` bytes of `a` and of `b` are the same.
pub open spec fn agree_up_to(a: Seq<u8>, b: Seq<u8>, k: int) -> bool {
    &&& 0 <= k <= a.len()
    &&& k <= b.len()
    &&& forall|j: int| 0 <= j < k ==> a[j] == b[j]
}

/// `a` and `b` part at place `k` with `a` the smaller: up to there they are
/// the same, and there `a` ends while `b` goes on, or `a` has the smaller
/// byte.
pub open spec fn parts_at(a: Seq<u8>, b: Seq<u8>, k: int) -> bool {
    &&& agree_up_to(a, b, k)
    &&& k < b.len()
    &&& (k == a.len() || a[k] < b[k])
}

/// `a` comes strictly before `b` in the lexicographic order of bytes.
pub open spec fn bytes_before(a: Seq<u8>, b: Seq<u8>) -> bool {
    exists|k: int| parts_at(a, b, k)
}

/// Viewer `a` comes strictly before viewer `b`: the UTF-8 bytes of `a` come
/// before those of `b`.
pub open spec fn viewer_before(a: Seq<char>, b: Seq<char>) -> bool {
    bytes_before(encode_utf8(a), encode_utf8(b))
}

/// No sequence of bytes comes before itself.
pub proof fn lemma_bytes_before_irreflexive(a: Seq<u8>)
    ensures
        !bytes_before(a, a),
{
}

/// If `a` comes before `b` and `b` before `c`, then `a` comes before `c`.
pub proof fn lemma_bytes_before_transitive(a: Seq<u8>, b: Seq<u8>, c: Seq<u8>)
    requires
        bytes_before(a, b),
        bytes_before(b, c),
    ensures
        bytes_before(a, c),
{
    let k1 = choose|k: int| parts_at(a, b, k);
    let k2 = choose|k: int| parts_at(b, c, k);
    if k1 <= k2 {
        assert(parts_at(a, c, k1));
    } else {
        assert(parts_at(a, c, k2));
    }
}

/// Two sequences that agree on their first `k` bytes are equal, or one comes
/// before the other.
proof fn lemma_bytes_part_somewhere(a: Seq<u8>, b: Seq<u8>, k: int)
    requires
        agree_up_to(a, b, k),
    ensures
        a == b || bytes_before(a, b) || bytes_before(b, a),
    decreases a.len() - k,
{
    if k == a.len() {
        if k == b.len() {
            assert(a =~= b);
        } else {
            assert(parts_at(a, b, k));
        }
    } else if k == b.len() {
        assert(parts_at(b, a, k));
    } else if a[k] < b[k] {
        assert(parts_at(a, b, k));
    } else if b[k] < a[k] {
        assert(parts_at(b, a, k));
    } else {
        lemma_bytes_part_somewhere(a, b, k + 1);
    }
}

/// Of two different sequences of bytes one comes before the other.
pub proof fn lemma_bytes_before_connected(a: Seq<u8>, b: Seq<u8>)
    ensures
        a == b || bytes_before(a, b) || bytes_before(b, a),
{
    lemma_bytes_part_somewhere(a, b, 0);
}

/// No viewer comes before itself.
pub proof fn lemma_viewer_before_irreflexive(a: Seq<char>)
    ensures
        !viewer_before(a, a),
{
    lemma_bytes_before_irreflexive(encode_utf8(a));
}

/// If viewer `a` comes before `b` and `b` before `c`, then `a` comes before
/// `c`.
pub proof fn lemma_viewer_before_transitive(a: Seq<char>, b: Seq<char>, c: Seq<char>)
    requires
        viewer_before(a, b),
        viewer_before(b, c),
    ensures
        viewer_before(a, c),
{
    lemma_bytes_before_transitive(encode_utf8(a), encode_utf8(b), encode_utf8(c));
}

/// Two viewers never come before each other.
pub proof fn lemma_viewer_before_asymmetric(a: Seq<char>, b: Seq<char>)
    requires
        viewer_before(a, b),
    ensures
        !viewer_before(b, a),
{
    if viewer_before(b, a) {
        lemma_viewer_before_transitive(a, b, a);
        lemma_viewer_before_irreflexive(a);
    }
}

/// Of two different viewers one comes before the other.
pub proof fn lemma_viewer_before_connected(a: Seq<char>, b: Seq<char>)
    ensures
        a == b || viewer_before(a, b) || viewer_before(b, a),
{
    lemma_bytes_before_connected(encode_utf8(a), encode_utf8(b));
    if encode_utf8(a) == encode_utf8(b) {
        encode_utf8_decode_utf8(a);
        encode_utf8_decode_utf8(b);
    }
}

/// Finds where viewer `a` stands relative to viewer `b`.
pub fn viewer_position(a: &str, b: &str) -> (position: Position)
    ensures
        position == Position::Before <==> viewer_before(a@, b@),
        position == Position::Same <==> a@ == b@,
        position == Position::After <==> viewer_before(b@, a@),
{
    let x = a.as_bytes();
    let y = b.as_bytes();
    proof {
        lemma_viewer_before_irreflexive(a@);
        if viewer_before(a@, b@) {
            lemma_viewer_before_asymmetric(a@, b@);
        }
    }
    let mut i: usize = 0;
    while i < x.len() && i < y.len()
        invariant
            x@ == encode_utf8(a@),
            y@ == encode_utf8(b@),
            agree_up_to(x@, y@, i as int),
        decreases x.len() - i,
    {
        if x[i] < y[i] {
            assert(parts_at(x@, y@, i as int));
            return Position::Before;
        }
        if y[i] < x[i] {
            assert(parts_at(y@, x@, i as int));
            return Position::After;
        }
        i += 1;
    }
    if i < y.len() {
        assert(parts_at(x@, y@, i as int));
        Position::Before
    } else if i < x.len() {
        assert(parts_at(y@, x@, i as int));
        Position::After
    } else {
        proof {
            assert(x@ =~= y@);
            encode_utf8_decode_utf8(a@);
            encode_utf8_decode_utf8(b@);
        }
        Position::Same
    }
}

} // verus!
