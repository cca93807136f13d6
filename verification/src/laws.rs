use crate::language::TreeModel;
use crate::model::{
    translation_of, with_language, with_translation, without_language, without_translation,
    TableModel,
};
use language_tags::LanguageTag;
use vstd::prelude::*;

verus! {

/// Adding a language a second time changes nothing: the languages are the
/// same as after the first time, and so is what each of them holds.
pub proof fn add_language_twice(languages: TableModel, tag: LanguageTag)
    ensures
        with_language(with_language(languages, tag), tag) == with_language(languages, tag),
{
}

/// Adding a language that is present keeps its translations.
pub proof fn add_language_keeps(languages: TableModel, tag: LanguageTag, key: Seq<char>)
    requires
        languages.contains_key(tag),
    ensures
        translation_of(with_language(languages, tag), tag, key) == translation_of(
            languages,
            tag,
            key,
        ),
{
}

/// The text that was set for a key of a language is the text that is read
/// for it.
pub proof fn set_then_get(languages: TableModel, tag: LanguageTag, key: Seq<char>, text: Seq<char>)
    ensures
        translation_of(with_translation(languages, tag, key, text), tag, key) == Some(text),
{
}

/// Setting a text leaves every other key of that language, and every other
/// language, as it was.
pub proof fn set_keeps_others(
    languages: TableModel,
    tag: LanguageTag,
    key: Seq<char>,
    text: Seq<char>,
    other_tag: LanguageTag,
    other_key: Seq<char>,
)
    requires
        other_tag != tag || other_key != key,
    ensures
        translation_of(with_translation(languages, tag, key, text), other_tag, other_key)
            == translation_of(languages, other_tag, other_key),
{
}

/// Of two texts set one after the other for the same key, the second is the
/// one that is read, and nothing is left of the first.
pub proof fn set_twice(
    languages: TableModel,
    tag: LanguageTag,
    key: Seq<char>,
    first: Seq<char>,
    second: Seq<char>,
)
    ensures
        translation_of(
            with_translation(with_translation(languages, tag, key, first), tag, key, second),
            tag,
            key,
        ) == Some(second),
        with_translation(with_translation(languages, tag, key, first), tag, key, second)
            == with_translation(languages, tag, key, second),
        first != second ==> translation_of(
            with_translation(with_translation(languages, tag, key, first), tag, key, second),
            tag,
            key,
        ) != Some(first),
{
    let once = with_translation(languages, tag, key, first);
    assert(with_language(once, tag)[tag].insert(key, second) =~= with_language(
        languages,
        tag,
    )[tag].insert(key, second));
}

/// After a key was removed from a language nothing is read for it, whether
/// or not it had a text, and whether or not the language is present.
pub proof fn remove_then_get(languages: TableModel, tag: LanguageTag, key: Seq<char>)
    ensures
        translation_of(without_translation(languages, tag, key), tag, key) is None,
{
}

/// Removing a key adds no language and removes none.
pub proof fn remove_keeps_languages(languages: TableModel, tag: LanguageTag, key: Seq<char>)
    ensures
        without_translation(languages, tag, key).dom() == languages.dom(),
{
}

/// After a language was removed nothing is read for any of its keys.
pub proof fn remove_language_removes_all(languages: TableModel, tag: LanguageTag)
    ensures
        !without_language(languages, tag).contains_key(tag),
        forall|key: Seq<char>| translation_of(without_language(languages, tag), tag, key) is None,
{
}

/// For a language that is absent nothing is read, whatever the key. A read
/// takes the registry as it is and hands it back unchanged, so the language
/// is absent afterwards too.
pub proof fn absent_language_reads_nothing(languages: TableModel, tag: LanguageTag)
    requires
        !languages.contains_key(tag),
    ensures
        forall|key: Seq<char>| translation_of(languages, tag, key) is None,
{
}

/// Setting a text makes its language present with that text under the key.
/// Where the language was absent before, its tree holds that key alone.
pub proof fn set_adds_language(languages: TableModel, tag: LanguageTag, key: Seq<char>, text: Seq<char>)
    ensures
        with_translation(languages, tag, key, text).contains_key(tag),
        with_translation(languages, tag, key, text)[tag].contains_key(key),
        with_translation(languages, tag, key, text)[tag][key] == text,
        !languages.contains_key(tag) ==> with_translation(languages, tag, key, text)[tag]
            == TreeModel::empty().insert(key, text),
{
}

} // verus!
