use crate::keys::{ascending, ascending_has_no_duplicates, byte_order_is_ascending, key_views};
use crate::trie::{
    trie_contents, trie_copy, trie_get, trie_insert, trie_keys, trie_new, trie_remove,
};
use radix_trie::Trie;
use vstd::prelude::*;
use vstd::seq_lib::seq_to_set_is_finite;

verus! {

/// What one language's tree holds: the text stored under each key.
pub type TreeModel = Map<Seq<char>, Seq<char>>;

/// The localized text stored for one key in one language.
#[derive(Debug)]
pub struct Translation {
    pub content: String,
}

impl View for Translation {
    type V = Seq<char>;

    open spec fn view(&self) -> Seq<char> {
        self.content@
    }
}

impl Translation {
    /// The translation that holds this text.
    pub fn new(content: String) -> (translation: Self)
        ensures
            translation.content == content,
    {
        Self { content }
    }
}

impl Clone for Translation {
    fn clone(&self) -> (copy: Self)
        ensures
            copy@ == self@,
    {
        Self { content: self.content.clone() }
    }
}

/// All the translations of one language, by key.
#[derive(Debug)]
pub struct LanguageTree {
    tree: Trie<String, Translation>,
}

impl View for LanguageTree {
    type V = TreeModel;

    closed spec fn view(&self) -> TreeModel {
        trie_contents(self.tree)
    }
}

impl Clone for LanguageTree {
    fn clone(&self) -> (copy: Self)
        ensures
            copy@ == self@,
    {
        Self { tree: trie_copy(&self.tree) }
    }
}

impl LanguageTree {
    /// A tree that holds no key.
    pub fn new() -> (tree: Self)
        ensures
            tree@ == TreeModel::empty(),
    {
        Self { tree: trie_new() }
    }

    /// Every key that has a translation, once, in ascending order of its
    /// characters: as many keys as the tree holds, none for an empty tree.
    pub fn get_keys(&self) -> (keys: Vec<&String>)
        ensures
            key_views(keys@).to_set() == self@.dom(),
            ascending(key_views(keys@)),
            key_views(keys@).no_duplicates(),
            self@.dom().finite(),
            keys@.len() == self@.dom().len(),
    {
        let keys = trie_keys(&self.tree);
        proof {
            byte_order_is_ascending(key_views(keys@));
            ascending_has_no_duplicates(key_views(keys@));
            seq_to_set_is_finite(key_views(keys@));
            key_views(keys@).unique_seq_to_set();
        }
        keys
    }

    /// The translation stored under exactly this key, if there is one.
    pub fn get_traduction(&self, key: String) -> (found: Option<&Translation>)
        ensures
            match found {
                Some(translation) => self@.contains_key(key@) && self@[key@] == translation@,
                None => !self@.contains_key(key@),
            },
    {
        trie_get(&self.tree, &key)
    }

    /// Stores the translation under the key, in place of the one that was
    /// there.
    pub fn set_traduction(&mut self, key: String, value: Translation)
        ensures
            final(self)@ == old(self)@.insert(key@, value@),
    {
        let _ = trie_insert(&mut self.tree, key, value);
    }

    /// Removes the key and its translation, if the key is there.
    pub fn remove_traduction(&mut self, key: String)
        ensures
            final(self)@ == old(self)@.remove(key@),
    {
        let _ = trie_remove(&mut self.tree, &key);
    }
}

} // verus!
