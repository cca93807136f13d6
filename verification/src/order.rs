use vstd::prelude::*;
use vstd::utf8::encode_utf8;

verus! {

/// `left` comes strictly before `right` when the two are compared byte by
/// byte: at the first place where they differ `left` holds the smaller byte,
/// or `left` ends there and `right` goes on.
pub open spec fn bytes_before(left: Seq<u8>, right: Seq<u8>) -> bool {
    exists|at: int| #[trigger] splits_before(left, right, at)
}

/// The two sequences agree on their first `at` bytes, and at place `at`
/// `left` has ended or holds the smaller byte.
pub open spec fn splits_before(left: Seq<u8>, right: Seq<u8>, at: int) -> bool {
    &&& 0 <= at <= left.len()
    &&& at < right.len()
    &&& left.take(at) == right.take(at)
    &&& at < left.len() ==> left[at] < right[at]
}

/// `left` comes strictly before `right` when the two are compared character
/// by character: at the first place where they differ `left` holds the
/// character with the smaller code, or `left` ends there and `right` goes on.
pub open spec fn chars_before(left: Seq<char>, right: Seq<char>) -> bool {
    exists|at: int| #[trigger] chars_split_before(left, right, at)
}

/// The two texts agree on their first `at` characters, and at place `at`
/// `left` has ended or holds the character with the smaller code.
pub open spec fn chars_split_before(left: Seq<char>, right: Seq<char>, at: int) -> bool {
    &&& 0 <= at <= left.len()
    &&& at < right.len()
    &&& left.take(at) == right.take(at)
    &&& at < left.len() ==> left[at] < right[at]
}

/// `left` comes before `right` by the bytes of their UTF-8 encodings.
pub open spec fn encoded_before(left: Seq<char>, right: Seq<char>) -> bool {
    bytes_before(encode_utf8(left), encode_utf8(right))
}

/// No sequence of bytes comes before itself.
pub proof fn bytes_before_irreflexive(bytes: Seq<u8>)
    ensures
        !bytes_before(bytes, bytes),
{
    assert forall|at: int| !#[trigger] splits_before(bytes, bytes, at) by {}
}

/// What comes before a sequence comes before all that the sequence comes
/// before.
pub proof fn bytes_before_transitive(left: Seq<u8>, middle: Seq<u8>, right: Seq<u8>)
    requires
        bytes_before(left, middle),
        bytes_before(middle, right),
    ensures
        bytes_before(left, right),
{
    let first = choose|at: int| #[trigger] splits_before(left, middle, at);
    let second = choose|at: int| #[trigger] splits_before(middle, right, at);
    let at = if first <= second {
        first
    } else {
        second
    };
    assert forall|i: int| 0 <= i < at implies left[i] == right[i] by {
        assert(left.take(first)[i] == middle.take(first)[i]);
        assert(middle.take(second)[i] == right.take(second)[i]);
    }
    assert(left.take(at) =~= right.take(at));
    if at < left.len() {
        if first < second {
            assert(middle.take(second)[first] == right.take(second)[first]);
        } else if second < first {
            assert(left.take(first)[second] == middle.take(first)[second]);
        }
    }
    assert(splits_before(left, right, at));
}

} // verus!
