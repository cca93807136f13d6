use crate::language::TreeModel;
use language_tags::LanguageTag;
use vstd::prelude::*;

verus! {

/// The languages of a registry: for each tag that is present, what its tree
/// holds.
pub type TableModel = Map<LanguageTag, TreeModel>;

/// The languages after `tag` was added: a tag that is present keeps its
/// tree, a new one starts with an empty tree.
pub open spec fn with_language(languages: TableModel, tag: LanguageTag) -> TableModel {
    if languages.contains_key(tag) {
        languages
    } else {
        languages.insert(tag, TreeModel::empty())
    }
}

/// The languages after `tag` was removed, with all that its tree held.
pub open spec fn without_language(languages: TableModel, tag: LanguageTag) -> TableModel {
    languages.remove(tag)
}

/// The text stored for `key` in the language `tag`: none where the language
/// is absent, and none where the language has no such key.
pub open spec fn translation_of(languages: TableModel, tag: LanguageTag, key: Seq<char>) -> Option<
    Seq<char>,
> {
    if languages.contains_key(tag) && languages[tag].contains_key(key) {
        Some(languages[tag][key])
    } else {
        None
    }
}

/// The languages after `text` was stored for `key` in the language `tag`,
/// which is added first where it is absent.
pub open spec fn with_translation(
    languages: TableModel,
    tag: LanguageTag,
    key: Seq<char>,
    text: Seq<char>,
) -> TableModel {
    let added = with_language(languages, tag);
    added.insert(tag, added[tag].insert(key, text))
}

/// The languages after `key` was removed from the language `tag`: nothing
/// changes where the language is absent.
pub open spec fn without_translation(languages: TableModel, tag: LanguageTag, key: Seq<char>) -> TableModel {
    if languages.contains_key(tag) {
        languages.insert(tag, languages[tag].remove(key))
    } else {
        languages
    }
}

} // verus!
