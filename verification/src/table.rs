use crate::language::LanguageTree;
use crate::model::TableModel;
use crate::tag::{copy_tag, same_tag};
use language_tags::LanguageTag;
use vstd::prelude::*;

verus! {

/// The map that a list of tags and the list of their trees stand for.
spec fn paired(tags: Seq<LanguageTag>, trees: Seq<LanguageTree>) -> TableModel {
    Map::new(|tag: LanguageTag| tags.contains(tag), |tag: LanguageTag| trees[tags.index_of(tag)]@)
}

/// Putting another tree at a tag's place gives that tag the new tree and
/// leaves every other tag as it was.
proof fn replaced_tree(tags: Seq<LanguageTag>, trees: Seq<LanguageTree>, at: int, tree: LanguageTree)
    requires
        tags.no_duplicates(),
        tags.len() == trees.len(),
        0 <= at < tags.len(),
    ensures
        paired(tags, trees.update(at, tree)) == paired(tags, trees).insert(tags[at], tree@),
{
}

/// A tag and its tree added at the end give that tag the tree and leave
/// every other tag as it was.
proof fn added_pair(tags: Seq<LanguageTag>, trees: Seq<LanguageTree>, tag: LanguageTag, tree: LanguageTree)
    requires
        tags.no_duplicates(),
        tags.len() == trees.len(),
        !tags.contains(tag),
    ensures
        tags.push(tag).no_duplicates(),
        paired(tags.push(tag), trees.push(tree)) == paired(tags, trees).insert(tag, tree@),
{
    let more_tags = tags.push(tag);
    let more_trees = trees.push(tree);
    assert(more_tags.no_duplicates()) by {
        assert forall|i: int, j: int|
            0 <= i < more_tags.len() && 0 <= j < more_tags.len() && i != j implies more_tags[i]
            != more_tags[j] by {
            if i < tags.len() {
                assert(tags.contains(tags[i]));
            }
            if j < tags.len() {
                assert(tags.contains(tags[j]));
            }
        }
    }
    assert(more_tags[tags.len() as int] == tag);
    assert forall|other: LanguageTag| tags.contains(other) implies more_tags.contains(other)
        && more_tags.index_of(other) == tags.index_of(other) by {
        let at = tags.index_of(other);
        assert(more_tags[at] == other);
    }
    assert forall|other: LanguageTag| more_tags.contains(other) && other != tag implies tags.contains(
        other,
    ) by {
        let at = more_tags.index_of(other);
        assert(tags[at] == other);
    }
    assert(paired(more_tags, more_trees) =~= paired(tags, trees).insert(tag, tree@));
}

/// Taking a tag and its tree out leaves every other tag as it was.
proof fn dropped_pair(tags: Seq<LanguageTag>, trees: Seq<LanguageTree>, at: int)
    requires
        tags.no_duplicates(),
        tags.len() == trees.len(),
        0 <= at < tags.len(),
    ensures
        tags.remove(at).no_duplicates(),
        paired(tags.remove(at), trees.remove(at)) == paired(tags, trees).remove(tags[at]),
{
    let fewer_tags = tags.remove(at);
    let fewer_trees = trees.remove(at);
    assert forall|i: int| 0 <= i < fewer_tags.len() implies fewer_tags[i] == tags[if i < at {
        i
    } else {
        i + 1
    }] && fewer_trees[i] == trees[if i < at {
        i
    } else {
        i + 1
    }] by {}
    assert(fewer_tags.no_duplicates());
    assert forall|other: LanguageTag| fewer_tags.contains(other) implies tags.contains(other)
        && other != tags[at] && fewer_trees[fewer_tags.index_of(other)] == trees[tags.index_of(
        other,
    )] by {
        let i = fewer_tags.index_of(other);
        let before = if i < at {
            i
        } else {
            i + 1
        };
        assert(tags[before] == other);
    }
    assert forall|other: LanguageTag| tags.contains(other) && other != tags[at] implies fewer_tags.contains(
        other,
    ) by {
        let i = tags.index_of(other);
        let after = if i < at {
            i
        } else {
            i - 1
        };
        assert(fewer_tags[after] == other);
    }
    assert(paired(fewer_tags, fewer_trees) =~= paired(tags, trees).remove(tags[at]));
}

/// A map from language tag to tree. It keeps the tags in one list and the
/// trees in another, the tree of a tag at the tag's place; no tag is listed
/// twice.
#[derive(Debug)]
pub struct LanguageTable {
    tags: Vec<LanguageTag>,
    trees: Vec<LanguageTree>,
}

impl View for LanguageTable {
    type V = TableModel;

    closed spec fn view(&self) -> TableModel {
        paired(self.tags@, self.trees@)
    }
}

impl LanguageTable {
    #[verifier::type_invariant]
    spec fn well_formed(&self) -> bool {
        &&& self.tags@.no_duplicates()
        &&& self.tags@.len() == self.trees@.len()
    }

    /// A table that holds no language.
    pub fn new() -> (table: Self)
        ensures
            table@ == TableModel::empty(),
    {
        Self { tags: Vec::new(), trees: Vec::new() }
    }

    /// The place of a tag in the list of tags, if it is listed.
    fn position(&self, tag: &LanguageTag) -> (found: Option<usize>)
        ensures
            match found {
                Some(at) => at < self.tags@.len() && self.tags@[at as int] == *tag,
                None => !self.tags@.contains(*tag),
            },
    {
        let mut at: usize = 0;
        while at < self.tags.len()
            invariant
                at <= self.tags@.len(),
                forall|i: int| 0 <= i < at ==> self.tags@[i] != *tag,
            decreases self.tags@.len() - at,
        {
            if same_tag(&self.tags[at], tag) {
                return Some(at);
            }
            at += 1;
        }
        None
    }

    /// Whether the tag has a tree.
    pub fn contains_key(&self, tag: &LanguageTag) -> (present: bool)
        ensures
            present == self@.contains_key(*tag),
    {
        self.position(tag).is_some()
    }

    /// The tree of the tag, if it has one.
    pub fn get(&self, tag: &LanguageTag) -> (found: Option<&LanguageTree>)
        ensures
            match found {
                Some(tree) => self@.contains_key(*tag) && self@[*tag] == tree@,
                None => !self@.contains_key(*tag),
            },
    {
        proof {
            use_type_invariant(self);
        }
        match self.position(tag) {
            Some(at) => Some(&self.trees[at]),
            None => None,
        }
    }

    /// The tree of the tag, to be changed in place, if the tag has one. What
    /// the tree holds when the caller is done with it is what the table then
    /// holds for the tag.
    pub fn get_mut(&mut self, tag: &LanguageTag) -> (found: Option<&mut LanguageTree>)
        ensures
            match found {
                Some(tree) => old(self)@.contains_key(*tag) && old(self)@[*tag] == tree@
                    && final(self)@ == old(self)@.insert(*tag, final(tree)@),
                None => !old(self)@.contains_key(*tag) && final(self)@ == old(self)@,
            },
    {
        proof {
            use_type_invariant(&*self);
        }
        match self.position(tag) {
            Some(at) => {
                proof {
                    assert forall|tree: LanguageTree| #[trigger]
                        paired(self.tags@, self.trees@.update(at as int, tree)) == paired(
                            self.tags@,
                            self.trees@,
                        ).insert(*tag, tree@) by {
                        replaced_tree(self.tags@, self.trees@, at as int, tree);
                    }
                }
                Some(&mut self.trees[at])
            },
            None => None,
        }
    }

    /// Gives `tag` the tree `tree`, whether or not it had one, and hands back
    /// the tree that it had.
    pub fn insert(&mut self, tag: LanguageTag, tree: LanguageTree) -> (previous: Option<LanguageTree>)
        ensures
            final(self)@ == old(self)@.insert(tag, tree@),
            match previous {
                Some(before) => old(self)@.contains_key(tag) && old(self)@[tag] == before@,
                None => !old(self)@.contains_key(tag),
            },
    {
        proof {
            use_type_invariant(&*self);
        }
        match self.position(&tag) {
            Some(at) => {
                let mut tree = tree;
                proof {
                    replaced_tree(self.tags@, self.trees@, at as int, tree);
                }
                core::mem::swap(&mut self.trees[at], &mut tree);
                Some(tree)
            },
            None => {
                let mut taken = LanguageTable::new();
                core::mem::swap(self, &mut taken);
                let LanguageTable { mut tags, mut trees } = taken;
                proof {
                    added_pair(tags@, trees@, tag, tree);
                }
                tags.push(tag);
                trees.push(tree);
                *self = LanguageTable { tags, trees };
                None
            },
        }
    }

    /// Takes `tag` and its tree out, if it is there, and hands back the tree.
    pub fn remove(&mut self, tag: &LanguageTag) -> (removed: Option<LanguageTree>)
        ensures
            final(self)@ == old(self)@.remove(*tag),
            match removed {
                Some(before) => old(self)@.contains_key(*tag) && old(self)@[*tag] == before@,
                None => !old(self)@.contains_key(*tag),
            },
    {
        proof {
            use_type_invariant(&*self);
        }
        match self.position(tag) {
            Some(at) => {
                let mut taken = LanguageTable::new();
                core::mem::swap(self, &mut taken);
                let LanguageTable { mut tags, mut trees } = taken;
                proof {
                    dropped_pair(tags@, trees@, at as int);
                }
                let _ = tags.remove(at);
                let tree = trees.remove(at);
                *self = LanguageTable { tags, trees };
                Some(tree)
            },
            None => None,
        }
    }
}

impl Clone for LanguageTable {
    fn clone(&self) -> (copy: Self)
        ensures
            copy@ == self@,
    {
        proof {
            use_type_invariant(self);
        }
        let mut tags: Vec<LanguageTag> = Vec::new();
        let mut trees: Vec<LanguageTree> = Vec::new();
        let mut at: usize = 0;
        while at < self.tags.len()
            invariant
                self.tags@.len() == self.trees@.len(),
                at <= self.tags@.len(),
                tags@ == self.tags@.take(at as int),
                trees@.len() == at,
                forall|i: int| 0 <= i < at ==> (#[trigger] trees@[i])@ == self.trees@[i]@,
            decreases self.tags@.len() - at,
        {
            tags.push(copy_tag(&self.tags[at]));
            trees.push(self.trees[at].clone());
            at += 1;
            assert(tags@ =~= self.tags@.take(at as int));
        }
        assert(tags@ =~= self.tags@);
        LanguageTable { tags, trees }
    }
}

} // verus!
