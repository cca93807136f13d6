use crate::order::{
    bytes_before, bytes_before_irreflexive, bytes_before_transitive, chars_before,
    chars_split_before, encoded_before, splits_before,
};
use vstd::prelude::*;
use vstd::utf8::{
    char_is_scalar, encode_scalar, encode_utf8, has_width_1_encoding, has_width_2_encoding,
    has_width_3_encoding, has_width_4_encoding, is_scalar, last_continuation_byte,
    leading_byte_width_1, leading_byte_width_2, leading_byte_width_3, leading_byte_width_4,
    second_last_continuation_byte, third_last_continuation_byte,
};

verus! {

/// The two sequences agree on their first `at` bytes, both go on, and there
/// `left` holds the smaller byte.
pub open spec fn differs_at(left: Seq<u8>, right: Seq<u8>, at: int) -> bool {
    &&& 0 <= at < left.len()
    &&& at < right.len()
    &&& left.take(at) == right.take(at)
    &&& left[at] < right[at]
}

/// The first byte of an encoding tells its width: the longer the encoding,
/// the larger the byte.
proof fn leading_byte_ranges(scalar: u32)
    by (bit_vector)
    ensures
        leading_byte_width_1(scalar) <= 0x7F,
        0xC0 <= leading_byte_width_2(scalar) <= 0xDF,
        0xE0 <= leading_byte_width_3(scalar) <= 0xEF,
        0xF0 <= leading_byte_width_4(scalar) <= 0xF7,
{
}

/// Among the scalars encoded in one byte the smaller has the smaller byte.
proof fn one_byte_order(small: u32, large: u32)
    by (bit_vector)
    requires
        small < large,
        has_width_1_encoding(small),
        has_width_1_encoding(large),
    ensures
        leading_byte_width_1(small) < leading_byte_width_1(large),
{
}

/// Among the scalars encoded in two bytes the smaller has the smaller first
/// byte, or the same first byte and the smaller second one.
proof fn two_byte_order(small: u32, large: u32)
    by (bit_vector)
    requires
        small < large,
        has_width_2_encoding(small),
        has_width_2_encoding(large),
    ensures
        leading_byte_width_2(small) < leading_byte_width_2(large) || (leading_byte_width_2(small)
            == leading_byte_width_2(large) && last_continuation_byte(small)
            < last_continuation_byte(large)),
{
}

/// Among the scalars encoded in three bytes the smaller has the smaller byte
/// at the first place where the two encodings differ.
proof fn three_byte_order(small: u32, large: u32)
    by (bit_vector)
    requires
        small < large,
        has_width_3_encoding(small),
        has_width_3_encoding(large),
    ensures
        leading_byte_width_3(small) < leading_byte_width_3(large) || (leading_byte_width_3(small)
            == leading_byte_width_3(large) && (second_last_continuation_byte(small)
            < second_last_continuation_byte(large) || (second_last_continuation_byte(small)
            == second_last_continuation_byte(large) && last_continuation_byte(small)
            < last_continuation_byte(large)))),
{
}

/// Among the scalars encoded in four bytes the smaller has the smaller byte
/// at the first place where the two encodings differ.
proof fn four_byte_order(small: u32, large: u32)
    by (bit_vector)
    requires
        small < large,
        has_width_4_encoding(small),
        has_width_4_encoding(large),
    ensures
        leading_byte_width_4(small) < leading_byte_width_4(large) || (leading_byte_width_4(small)
            == leading_byte_width_4(large) && (third_last_continuation_byte(small)
            < third_last_continuation_byte(large) || (third_last_continuation_byte(small)
            == third_last_continuation_byte(large) && (second_last_continuation_byte(small)
            < second_last_continuation_byte(large) || (second_last_continuation_byte(small)
            == second_last_continuation_byte(large) && last_continuation_byte(small)
            < last_continuation_byte(large)))))),
{
}

/// Of two scalar values the smaller has the encoding that comes first, and
/// the two encodings differ at a byte that both have.
pub proof fn scalar_order(small: u32, large: u32)
    requires
        is_scalar(small),
        is_scalar(large),
        small < large,
    ensures
        exists|at: int| #[trigger] differs_at(encode_scalar(small), encode_scalar(large), at),
{
    let left = encode_scalar(small);
    let right = encode_scalar(large);
    leading_byte_ranges(small);
    leading_byte_ranges(large);
    assert(left.take(0) =~= right.take(0));
    if left[0] < right[0] {
        assert(differs_at(left, right, 0));
    } else if has_width_1_encoding(large) {
        one_byte_order(small, large);
    } else if has_width_2_encoding(large) {
        two_byte_order(small, large);
        assert(left.take(1) =~= right.take(1));
        assert(differs_at(left, right, 1));
    } else if has_width_3_encoding(large) {
        three_byte_order(small, large);
        assert(left.take(1) =~= right.take(1));
        if left[1] < right[1] {
            assert(differs_at(left, right, 1));
        } else {
            assert(left.take(2) =~= right.take(2));
            assert(differs_at(left, right, 2));
        }
    } else {
        four_byte_order(small, large);
        assert(left.take(1) =~= right.take(1));
        if left[1] < right[1] {
            assert(differs_at(left, right, 1));
        } else {
            assert(left.take(2) =~= right.take(2));
            if left[2] < right[2] {
                assert(differs_at(left, right, 2));
            } else {
                assert(left.take(3) =~= right.take(3));
                assert(differs_at(left, right, 3));
            }
        }
    }
}

/// The encoding of two texts joined is the two encodings joined.
pub proof fn encoding_of_joined(first: Seq<char>, second: Seq<char>)
    ensures
        encode_utf8(first + second) == encode_utf8(first) + encode_utf8(second),
    decreases first.len(),
{
    if first.len() == 0 {
        assert(first + second =~= second);
        assert(encode_utf8(first) + encode_utf8(second) =~= encode_utf8(second));
    } else {
        assert((first + second).drop_first() =~= first.drop_first() + second);
        encoding_of_joined(first.drop_first(), second);
        assert(encode_utf8(first + second) =~= encode_utf8(first) + encode_utf8(second));
    }
}

/// Byte order does not change when the same bytes are put in front of both
/// sequences.
proof fn same_start_keeps_order(start: Seq<u8>, left: Seq<u8>, right: Seq<u8>)
    requires
        bytes_before(left, right),
    ensures
        bytes_before(start + left, start + right),
{
    let at = choose|at: int| #[trigger] splits_before(left, right, at);
    assert forall|i: int| 0 <= i < at implies left[i] == right[i] by {
        assert(left.take(at)[i] == right.take(at)[i]);
    }
    assert((start + left).take(start.len() + at) =~= (start + right).take(start.len() + at));
    assert(splits_before(start + left, start + right, start.len() + at));
}

/// Where two sequences differ at a byte that both have, what follows them
/// does not change their order.
proof fn difference_decides(left: Seq<u8>, right: Seq<u8>, left_rest: Seq<u8>, right_rest: Seq<u8>)
    requires
        exists|at: int| #[trigger] differs_at(left, right, at),
    ensures
        bytes_before(left + left_rest, right + right_rest),
{
    let at = choose|at: int| #[trigger] differs_at(left, right, at);
    assert forall|i: int| 0 <= i < at implies left[i] == right[i] by {
        assert(left.take(at)[i] == right.take(at)[i]);
    }
    assert((left + left_rest).take(at) =~= (right + right_rest).take(at));
    assert(splits_before(left + left_rest, right + right_rest, at));
}

/// Every character is encoded in at least one byte.
proof fn character_has_bytes(character: char)
    ensures
        encode_scalar(character as u32).len() > 0,
{
    char_is_scalar(character);
}

/// Of two characters the one with the smaller code has the encoding that
/// comes first, whatever bytes follow the two encodings.
proof fn smaller_character_first(small: char, large: char, small_rest: Seq<u8>, large_rest: Seq<u8>)
    requires
        small < large,
    ensures
        bytes_before(
            encode_scalar(small as u32) + small_rest,
            encode_scalar(large as u32) + large_rest,
        ),
{
    char_is_scalar(small);
    char_is_scalar(large);
    scalar_order(small as u32, large as u32);
    difference_decides(
        encode_scalar(small as u32),
        encode_scalar(large as u32),
        small_rest,
        large_rest,
    );
}

/// A text that comes before another by its characters comes before it by
/// its bytes.
proof fn char_order_gives_byte_order(left: Seq<char>, right: Seq<char>)
    requires
        chars_before(left, right),
    ensures
        encoded_before(left, right),
{
    let at = choose|at: int| #[trigger] chars_split_before(left, right, at);
    let start = left.take(at);
    let left_end = left.skip(at);
    let right_end = right.skip(at);
    assert(left =~= start + left_end);
    assert(right =~= start + right_end);
    encoding_of_joined(start, left_end);
    encoding_of_joined(start, right_end);
    character_has_bytes(right_end[0]);
    assert(encode_utf8(right_end).len() > 0);
    if at == left.len() {
        assert(encode_utf8(left_end).len() == 0);
        assert(encode_utf8(left_end).take(0) =~= encode_utf8(right_end).take(0));
        assert(splits_before(encode_utf8(left_end), encode_utf8(right_end), 0));
    } else {
        assert(left_end[0] == left[at] && right_end[0] == right[at]);
        smaller_character_first(
            left_end[0],
            right_end[0],
            encode_utf8(left_end.drop_first()),
            encode_utf8(right_end.drop_first()),
        );
    }
    same_start_keeps_order(encode_utf8(start), encode_utf8(left_end), encode_utf8(right_end));
}

/// Of two texts one comes before the other by its characters, or they are
/// the same text.
pub proof fn char_order_is_total(left: Seq<char>, right: Seq<char>)
    ensures
        chars_before(left, right) || left == right || chars_before(right, left),
    decreases left.len(),
{
    if left.len() == 0 {
        if right.len() == 0 {
            assert(left =~= right);
        } else {
            assert(left.take(0) =~= right.take(0));
            assert(chars_split_before(left, right, 0));
        }
    } else if right.len() == 0 {
        assert(right.take(0) =~= left.take(0));
        assert(chars_split_before(right, left, 0));
    } else if left[0] < right[0] {
        assert(left.take(0) =~= right.take(0));
        assert(chars_split_before(left, right, 0));
    } else if right[0] < left[0] {
        assert(right.take(0) =~= left.take(0));
        assert(chars_split_before(right, left, 0));
    } else {
        assert(left[0] == right[0]);
        let left_rest = left.drop_first();
        let right_rest = right.drop_first();
        char_order_is_total(left_rest, right_rest);
        assert(left =~= seq![left[0]] + left_rest);
        assert(right =~= seq![right[0]] + right_rest);
        if left_rest == right_rest {
        } else if chars_before(left_rest, right_rest) {
            let at = choose|at: int| #[trigger] chars_split_before(left_rest, right_rest, at);
            assert forall|i: int| 0 <= i < at + 1 implies left[i] == right[i] by {
                if i > 0 {
                    assert(left_rest.take(at)[i - 1] == right_rest.take(at)[i - 1]);
                }
            }
            assert(left.take(at + 1) =~= right.take(at + 1));
            if at < left_rest.len() {
                assert(left[at + 1] == left_rest[at] && right[at + 1] == right_rest[at]);
            }
            assert(chars_split_before(left, right, at + 1));
        } else {
            let at = choose|at: int| #[trigger] chars_split_before(right_rest, left_rest, at);
            assert forall|i: int| 0 <= i < at + 1 implies left[i] == right[i] by {
                if i > 0 {
                    assert(right_rest.take(at)[i - 1] == left_rest.take(at)[i - 1]);
                }
            }
            assert(right.take(at + 1) =~= left.take(at + 1));
            if at < right_rest.len() {
                assert(left[at + 1] == left_rest[at] && right[at + 1] == right_rest[at]);
            }
            assert(chars_split_before(right, left, at + 1));
        }
    }
}

/// UTF-8 keeps the order of texts: one text comes before another by its
/// bytes exactly when it comes before it by its characters.
pub proof fn encoding_keeps_order(left: Seq<char>, right: Seq<char>)
    ensures
        encoded_before(left, right) == chars_before(left, right),
{
    if chars_before(left, right) {
        char_order_gives_byte_order(left, right);
    } else if encoded_before(left, right) {
        char_order_is_total(left, right);
        bytes_before_irreflexive(encode_utf8(left));
        if chars_before(right, left) {
            char_order_gives_byte_order(right, left);
            bytes_before_transitive(encode_utf8(left), encode_utf8(right), encode_utf8(left));
        }
    }
}

/// No text comes before itself.
pub proof fn chars_before_irreflexive(text: Seq<char>)
    ensures
        !chars_before(text, text),
{
    encoding_keeps_order(text, text);
    bytes_before_irreflexive(encode_utf8(text));
}

/// What comes before a text comes before all that the text comes before.
pub proof fn chars_before_transitive(left: Seq<char>, middle: Seq<char>, right: Seq<char>)
    requires
        chars_before(left, middle),
        chars_before(middle, right),
    ensures
        chars_before(left, right),
{
    encoding_keeps_order(left, middle);
    encoding_keeps_order(middle, right);
    encoding_keeps_order(left, right);
    bytes_before_transitive(encode_utf8(left), encode_utf8(middle), encode_utf8(right));
}

} // verus!
