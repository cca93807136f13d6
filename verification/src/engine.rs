use crate::language::{LanguageTree, Translation};
use crate::model::{
    translation_of, with_language, with_translation, without_language, without_translation,
    TableModel,
};
use crate::table::LanguageTable;
use crate::tag::copy_tag;
use crate::version::plain_version;
use language_tags::LanguageTag;
use semver::Version;
use vstd::prelude::*;

verus! {

/// A store of translations by language and key, with a name and a version.
/// No operation fails: a read that finds nothing says so, and a removal of
/// what is absent changes nothing.
pub trait TranslationEngine: Sized {
    /// The name that the store was made with.
    spec fn name(&self) -> Seq<char>;

    /// The version that the store was made with.
    spec fn version(&self) -> Version;

    /// The hash of the store's content, where one was set: no operation
    /// sets or reads it.
    spec fn hash(&self) -> Option<Seq<char>>;

    /// The languages that the store holds, each with its translations.
    spec fn languages(&self) -> TableModel;

    /// A store with this name and version, no hash and no language.
    fn create(name: String, version: Version) -> (engine: Self)
        ensures
            engine.name() == name@,
            engine.version() == version,
            engine.hash() is None,
            engine.languages() == TableModel::empty(),
    ;

    /// Adds the language with an empty tree, unless it is present already.
    fn add_language(&mut self, tag: LanguageTag)
        ensures
            final(self).languages() == with_language(old(self).languages(), tag),
            final(self).name() == old(self).name(),
            final(self).version() == old(self).version(),
            final(self).hash() == old(self).hash(),
    ;

    /// Removes the language and all its translations, if it is present.
    fn remove_language(&mut self, tag: LanguageTag)
        ensures
            final(self).languages() == without_language(old(self).languages(), tag),
            final(self).name() == old(self).name(),
            final(self).version() == old(self).version(),
            final(self).hash() == old(self).hash(),
    ;

    /// The tree of the language, if it is present.
    fn get_language(&self, tag: LanguageTag) -> (found: Option<&LanguageTree>)
        ensures
            match found {
                Some(tree) => self.languages().contains_key(tag) && self.languages()[tag] == tree@,
                None => !self.languages().contains_key(tag),
            },
    ;

    /// The translation of the key in the language. An absent language and an
    /// absent key give the same answer, and neither is added by asking.
    fn get_traduction(&self, tag: LanguageTag, key: String) -> (found: Option<&Translation>)
        ensures
            match found {
                Some(translation) => translation_of(self.languages(), tag, key@) == Some(
                    translation@,
                ),
                None => translation_of(self.languages(), tag, key@) is None,
            },
    ;

    /// Stores the translation under the key in the language, in place of the
    /// one that was there, and adds the language first where it is absent.
    fn set_traduction(&mut self, tag: LanguageTag, key: String, value: Translation)
        ensures
            final(self).languages() == with_translation(old(self).languages(), tag, key@, value@),
            final(self).name() == old(self).name(),
            final(self).version() == old(self).version(),
            final(self).hash() == old(self).hash(),
    ;

    /// Removes the key from the language, if both are present.
    fn remove_traduction(&mut self, tag: LanguageTag, key: String)
        ensures
            final(self).languages() == without_translation(old(self).languages(), tag, key@),
            final(self).name() == old(self).name(),
            final(self).version() == old(self).version(),
            final(self).hash() == old(self).hash(),
    ;
}

/// A registry of translations: a name, a version, a content hash that no
/// operation reads yet, and the languages with their trees.
#[derive(Debug)]
pub struct Translations {
    pub name: String,
    pub version: Version,
    pub hash: Option<String>,
    pub languages: LanguageTable,
}

impl TranslationEngine for Translations {
    open spec fn name(&self) -> Seq<char> {
        self.name@
    }

    open spec fn version(&self) -> Version {
        self.version
    }

    open spec fn hash(&self) -> Option<Seq<char>> {
        match self.hash {
            Some(hash) => Some(hash@),
            None => None,
        }
    }

    open spec fn languages(&self) -> TableModel {
        self.languages@
    }

    fn create(name: String, version: Version) -> (engine: Self)
        ensures
            engine.name == name,
            engine.hash is None,
    {
        Self { name, version, ..Default::default() }
    }

    fn add_language(&mut self, tag: LanguageTag)
        ensures
            final(self).name == old(self).name,
            final(self).hash == old(self).hash,
    {
        if !self.languages.contains_key(&tag) {
            let _ = self.languages.insert(tag, LanguageTree::new());
        }
    }

    fn remove_language(&mut self, tag: LanguageTag)
        ensures
            final(self).name == old(self).name,
            final(self).hash == old(self).hash,
    {
        let _ = self.languages.remove(&tag);
    }

    fn get_language(&self, tag: LanguageTag) -> (found: Option<&LanguageTree>) {
        self.languages.get(&tag)
    }

    fn get_traduction(&self, tag: LanguageTag, key: String) -> (found: Option<&Translation>) {
        if !self.languages.contains_key(&tag) {
            return None;
        }
        let language = self.languages.get(&tag).unwrap();

        language.get_traduction(key)
    }

    fn set_traduction(&mut self, tag: LanguageTag, key: String, value: Translation)
        ensures
            final(self).name == old(self).name,
            final(self).hash == old(self).hash,
    {
        if !self.languages.contains_key(&tag) {
            let _ = self.languages.insert(copy_tag(&tag), LanguageTree::new());
        }
        let language = self.languages.get_mut(&tag).unwrap();
        language.set_traduction(key, value);
    }

    fn remove_traduction(&mut self, tag: LanguageTag, key: String)
        ensures
            final(self).name == old(self).name,
            final(self).hash == old(self).hash,
    {
        if !self.languages.contains_key(&tag) {
            return;
        }
        let language = self.languages.get_mut(&tag).unwrap();
        language.remove_traduction(key);
    }
}

impl Default for Translations {
    fn default() -> (engine: Self)
        ensures
            engine.name@ == Seq::<char>::empty(),
            engine.version == plain_version(0, 0, 0),
            engine.hash is None,
            engine.languages@ == TableModel::empty(),
    {
        Self {
            name: String::new(),
            version: Version::new(0, 0, 0),
            hash: None,
            languages: LanguageTable::new(),
        }
    }
}

impl Clone for Translations {
    fn clone(&self) -> (copy: Self)
        ensures
            copy.name == self.name,
            copy.version == self.version,
            copy.hash == self.hash,
            copy.languages@ == self.languages@,
    {
        Self {
            name: self.name.clone(),
            version: self.version.clone(),
            hash: self.hash.clone(),
            languages: self.languages.clone(),
        }
    }
}

} // verus!
