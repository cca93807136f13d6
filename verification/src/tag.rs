use language_tags::LanguageTag;
use vstd::prelude::*;

verus! {

/// `language_tags::LanguageTag`, a well-formed language tag. The library
/// keeps tags, compares them and copies them, and never looks inside one.
#[verifier::external_type_specification]
#[verifier::external_body]
pub struct ExLanguageTag(LanguageTag);

/// `==` of `language_tags::LanguageTag`. The crate derives it over every field
/// of the tag, so it answers `true` exactly when the two tags are the same value.
#[verifier::external_body]
pub(crate) fn same_tag(left: &LanguageTag, right: &LanguageTag) -> (same: bool)
    ensures
        same == (*left == *right),
{
    left == right
}

/// `clone` of `language_tags::LanguageTag`, derived over every field: the copy
/// is the same value as the tag it was made from.
#[verifier::external_body]
pub(crate) fn copy_tag(tag: &LanguageTag) -> (copy: LanguageTag)
    ensures
        copy == *tag,
{
    tag.clone()
}

} // verus!
