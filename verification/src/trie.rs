use crate::keys::{in_byte_order, key_views};
use crate::language::{Translation, TreeModel};
use radix_trie::Trie;
use radix_trie::TrieCommon;
use vstd::prelude::*;

verus! {

/// `radix_trie::Trie`, the prefix tree that keeps the translations of one
/// language. Nothing is known of what is inside a value but what the
/// functions below say.
#[verifier::external_type_specification]
#[verifier::external_body]
#[verifier::reject_recursive_types(K)]
#[verifier::reject_recursive_types(V)]
pub struct ExTrie<K, V>(Trie<K, V>);

/// What a `radix_trie::Trie` from keys to translations holds: for each key
/// that has a value, the text of that value.
pub uninterp spec fn trie_contents(trie: Trie<String, Translation>) -> TreeModel;

/// `radix_trie::Trie::new`: a trie that holds nothing.
#[verifier::external_body]
pub(crate) fn trie_new() -> (trie: Trie<String, Translation>)
    ensures
        trie_contents(trie) == TreeModel::empty(),
{
    Trie::new()
}

/// `clone` of `radix_trie::Trie`, derived: it copies every node with its key
/// and value, so the copy holds what the trie holds.
#[verifier::external_body]
pub(crate) fn trie_copy(trie: &Trie<String, Translation>) -> (copy: Trie<String, Translation>)
    ensures
        trie_contents(copy) == trie_contents(*trie),
{
    trie.clone()
}

/// `radix_trie::Trie::get`: the value stored under exactly this key, if the
/// trie holds one.
#[verifier::external_body]
pub(crate) fn trie_get<'a>(trie: &'a Trie<String, Translation>, key: &String) -> (found: Option<
    &'a Translation,
>)
    ensures
        match found {
            Some(translation) => trie_contents(*trie).contains_key(key@) && trie_contents(
                *trie,
            )[key@] == translation@,
            None => !trie_contents(*trie).contains_key(key@),
        },
{
    trie.get(key)
}

/// `radix_trie::Trie::insert`: afterwards the key has the new value and every
/// other key is as before. The value that the key had before is handed back.
#[verifier::external_body]
pub(crate) fn trie_insert(trie: &mut Trie<String, Translation>, key: String, value: Translation) -> (previous:
    Option<Translation>)
    ensures
        trie_contents(*final(trie)) == trie_contents(*old(trie)).insert(key@, value@),
        match previous {
            Some(translation) => trie_contents(*old(trie)).contains_key(key@) && trie_contents(
                *old(trie),
            )[key@] == translation@,
            None => !trie_contents(*old(trie)).contains_key(key@),
        },
{
    trie.insert(key, value)
}

/// `radix_trie::Trie::remove`: afterwards the key has no value and every other
/// key is as before. The value that the key had is handed back.
#[verifier::external_body]
pub(crate) fn trie_remove(trie: &mut Trie<String, Translation>, key: &String) -> (removed: Option<
    Translation,
>)
    ensures
        trie_contents(*final(trie)) == trie_contents(*old(trie)).remove(key@),
        match removed {
            Some(translation) => trie_contents(*old(trie)).contains_key(key@) && trie_contents(
                *old(trie),
            )[key@] == translation@,
            None => !trie_contents(*old(trie)).contains_key(key@),
        },
{
    trie.remove(key)
}

/// `radix_trie::TrieCommon::keys`, collected into a list. The iterator walks
/// the trie from the root, gives a node's own key before the keys below it
/// and visits the children by the next half-byte of their keys, the high half
/// of a byte before the low half. So the keys that have a value come out once
/// each, in the order of the bytes of their UTF-8 encodings.
#[verifier::external_body]
pub(crate) fn trie_keys<'a>(trie: &'a Trie<String, Translation>) -> (keys: Vec<&'a String>)
    ensures
        key_views(keys@).to_set() == trie_contents(*trie).dom(),
        in_byte_order(key_views(keys@)),
{
    trie.keys().collect()
}

} // verus!
