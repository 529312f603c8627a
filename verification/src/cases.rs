//! The case conversions of the `heck` crate. Each splits a text into words,
//! at characters that are neither letters nor digits and where small letters
//! meet capitals, and writes the words in one convention. What comes back is
//! a function of the text alone, and is given a name here.

use vstd::prelude::*;

verus! {

/// What `heck::ToKebabCase::to_kebab_case` returns for a text.
pub uninterp spec fn kebab_cased(text: Seq<char>) -> Seq<char>;

/// What `heck::ToLowerCamelCase::to_lower_camel_case` returns for a text.
pub uninterp spec fn lower_camel_cased(text: Seq<char>) -> Seq<char>;

/// What `heck::ToPascalCase::to_pascal_case` returns for a text.
pub uninterp spec fn pascal_cased(text: Seq<char>) -> Seq<char>;

/// What `heck::ToTrainCase::to_train_case` returns for a text.
pub uninterp spec fn train_cased(text: Seq<char>) -> Seq<char>;

/// What `heck::ToSnakeCase::to_snake_case` returns for a text.
pub uninterp spec fn snake_cased(text: Seq<char>) -> Seq<char>;

/// What `heck::ToShoutySnakeCase::to_shouty_snake_case` returns for a text.
pub uninterp spec fn shouty_snake_cased(text: Seq<char>) -> Seq<char>;

/// What `heck::ToShoutyKebabCase::to_shouty_kebab_case` returns for a text.
pub uninterp spec fn shouty_kebab_cased(text: Seq<char>) -> Seq<char>;

/// Calls `heck::ToKebabCase::to_kebab_case`: the words in small letters,
/// joined by hyphens.
#[verifier::external_body]
pub(crate) fn kebab_case(text: &str) -> (out: String)
    ensures
        out@ == kebab_cased(text@),
{
    heck::ToKebabCase::to_kebab_case(text)
}

/// Calls `heck::ToLowerCamelCase::to_lower_camel_case`: the words run
/// together, each but the first with a capital.
#[verifier::external_body]
pub(crate) fn lower_camel_case(text: &str) -> (out: String)
    ensures
        out@ == lower_camel_cased(text@),
{
    heck::ToLowerCamelCase::to_lower_camel_case(text)
}

/// Calls `heck::ToPascalCase::to_pascal_case`: the words run together, each
/// with a capital.
#[verifier::external_body]
pub(crate) fn pascal_case(text: &str) -> (out: String)
    ensures
        out@ == pascal_cased(text@),
{
    heck::ToPascalCase::to_pascal_case(text)
}

/// Calls `heck::ToTrainCase::to_train_case`: the words with a capital each,
/// joined by hyphens.
#[verifier::external_body]
pub(crate) fn train_case(text: &str) -> (out: String)
    ensures
        out@ == train_cased(text@),
{
    heck::ToTrainCase::to_train_case(text)
}

/// Calls `heck::ToSnakeCase::to_snake_case`: the words in small letters,
/// joined by underscores.
#[verifier::external_body]
pub(crate) fn snake_case(text: &str) -> (out: String)
    ensures
        out@ == snake_cased(text@),
{
    heck::ToSnakeCase::to_snake_case(text)
}

/// Calls `heck::ToShoutySnakeCase::to_shouty_snake_case`: the words in
/// capitals, joined by underscores.
#[verifier::external_body]
pub(crate) fn shouty_snake_case(text: &str) -> (out: String)
    ensures
        out@ == shouty_snake_cased(text@),
{
    heck::ToShoutySnakeCase::to_shouty_snake_case(text)
}

/// Calls `heck::ToShoutyKebabCase::to_shouty_kebab_case`: the words in
/// capitals, joined by hyphens.
#[verifier::external_body]
pub(crate) fn shouty_kebab_case(text: &str) -> (out: String)
    ensures
        out@ == shouty_kebab_cased(text@),
{
    heck::ToShoutyKebabCase::to_shouty_kebab_case(text)
}

} // verus!
