use crate::encoding::{chars_before_irreflexive, chars_before_transitive, encoding_keeps_order};
use crate::order::{chars_before, encoded_before};
use vstd::prelude::*;

verus! {

/// The keys of a list, each as the characters it is made of.
pub open spec fn key_views(keys: Seq<&String>) -> Seq<Seq<char>> {
    Seq::new(keys.len(), |i: int| keys[i]@)
}

/// Every key comes strictly before all the keys behind it, by its
/// characters.
pub open spec fn ascending(keys: Seq<Seq<char>>) -> bool {
    forall|i: int, j: int|
        0 <= i < j < keys.len() ==> chars_before(#[trigger] keys[i], #[trigger] keys[j])
}

/// Every key comes strictly before all the keys behind it, by the bytes of
/// its UTF-8 encoding.
pub open spec fn in_byte_order(keys: Seq<Seq<char>>) -> bool {
    forall|i: int, j: int|
        0 <= i < j < keys.len() ==> encoded_before(#[trigger] keys[i], #[trigger] keys[j])
}

/// Keys that stand in the order of their bytes stand in the order of their
/// characters, and the other way round.
pub proof fn byte_order_is_ascending(keys: Seq<Seq<char>>)
    ensures
        in_byte_order(keys) == ascending(keys),
{
    assert forall|i: int, j: int| 0 <= i < j < keys.len() implies encoded_before(
        #[trigger] keys[i],
        #[trigger] keys[j],
    ) == chars_before(keys[i], keys[j]) by {
        encoding_keeps_order(keys[i], keys[j]);
    }
}

/// In an ascending list no key stands twice.
pub proof fn ascending_has_no_duplicates(keys: Seq<Seq<char>>)
    requires
        ascending(keys),
    ensures
        keys.no_duplicates(),
{
    assert forall|i: int, j: int| 0 <= i < keys.len() && 0 <= j < keys.len() && i != j implies keys[i]
        != keys[j] by {
        chars_before_irreflexive(keys[i]);
        if i < j {
            assert(chars_before(keys[i], keys[j]));
        } else {
            assert(chars_before(keys[j], keys[i]));
        }
    }
}

/// There is one way only to list a set of keys in ascending order: two
/// ascending lists that hold the same keys are the same list.
pub proof fn ascending_is_unique(first: Seq<Seq<char>>, second: Seq<Seq<char>>)
    requires
        ascending(first),
        ascending(second),
        first.to_set() == second.to_set(),
    ensures
        first == second,
    decreases first.len(),
{
    ascending_has_no_duplicates(first);
    ascending_has_no_duplicates(second);
    if first.len() == 0 {
        if second.len() > 0 {
            assert(second.contains(second[0]));
            assert(first.to_set().contains(second[0]));
        }
        assert(first =~= second);
    } else {
        let head = first[0];
        assert(first.contains(head));
        assert(second.to_set().contains(head));
        let in_second = choose|j: int| 0 <= j < second.len() && second[j] == head;
        let other = second[0];
        assert(second.contains(other));
        assert(first.to_set().contains(other));
        let in_first = choose|i: int| 0 <= i < first.len() && first[i] == other;
        if in_second != 0 && in_first != 0 {
            assert(chars_before(second[0], second[in_second]));
            assert(chars_before(first[0], first[in_first]));
            chars_before_transitive(head, other, head);
            chars_before_irreflexive(head);
        }
        assert(head == other);
        let first_rest = first.drop_first();
        let second_rest = second.drop_first();
        assert(ascending(first_rest)) by {
            assert forall|i: int, j: int| 0 <= i < j < first_rest.len() implies chars_before(
                #[trigger] first_rest[i],
                #[trigger] first_rest[j],
            ) by {
                assert(chars_before(first[i + 1], first[j + 1]));
            }
        }
        assert(ascending(second_rest)) by {
            assert forall|i: int, j: int| 0 <= i < j < second_rest.len() implies chars_before(
                #[trigger] second_rest[i],
                #[trigger] second_rest[j],
            ) by {
                assert(chars_before(second[i + 1], second[j + 1]));
            }
        }
        assert forall|key: Seq<char>| first_rest.contains(key) implies second_rest.contains(key) by {
            let i = choose|i: int| 0 <= i < first_rest.len() && first_rest[i] == key;
            assert(first[i + 1] == key);
            assert(first.contains(key));
            assert(second.to_set().contains(key));
            let j = choose|j: int| 0 <= j < second.len() && second[j] == key;
            assert(second_rest[j - 1] == key);
        }
        assert forall|key: Seq<char>| second_rest.contains(key) implies first_rest.contains(key) by {
            let j = choose|j: int| 0 <= j < second_rest.len() && second_rest[j] == key;
            assert(second[j + 1] == key);
            assert(second.contains(key));
            assert(first.to_set().contains(key));
            let i = choose|i: int| 0 <= i < first.len() && first[i] == key;
            assert(first_rest[i - 1] == key);
        }
        assert(first_rest.to_set() =~= second_rest.to_set());
        ascending_is_unique(first_rest, second_rest);
        assert(first =~= seq![head] + first_rest);
        assert(second =~= seq![other] + second_rest);
    }
}

} // verus!
