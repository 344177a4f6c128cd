//! The types of `pulldown_cmark` that the tokenizer hands over.
//!
//! The enums are declared with their variants, as the crate defines them,
//! so that the conversion can match on them; nothing is claimed of them. A
//! `CowStr` stays opaque: only the text it holds is spoken of.
use vstd::prelude::*;

verus! {

/// `pulldown_cmark::HeadingLevel`, with its variants.
#[verifier::external_type_specification]
pub struct ExHeadingLevel(pulldown_cmark::HeadingLevel);

/// `pulldown_cmark::LinkType`, with its variants.
#[verifier::external_type_specification]
pub struct ExLinkType(pulldown_cmark::LinkType);

/// `pulldown_cmark::Alignment`, with its variants.
#[verifier::external_type_specification]
pub struct ExAlignment(pulldown_cmark::Alignment);

/// `pulldown_cmark::CowStr`, opaque.
#[verifier::external_type_specification]
#[verifier::external_body]
pub struct ExCowStr<'a>(pulldown_cmark::CowStr<'a>);

/// `pulldown_cmark::CodeBlockKind`, with its variants.
#[verifier::external_type_specification]
pub struct ExCodeBlockKind<'a>(pulldown_cmark::CodeBlockKind<'a>);

/// `pulldown_cmark::Tag`, with its variants.
#[verifier::external_type_specification]
pub struct ExTag<'a>(pulldown_cmark::Tag<'a>);

/// `pulldown_cmark::Event`, with its variants.
#[verifier::external_type_specification]
pub struct ExEvent<'a>(pulldown_cmark::Event<'a>);

} // verus!
