//! Structural queries over HTML text, through the `soup` crate.
//!
//! Every query takes markup and hands back markup or text, so the logic built
//! on it works on plain strings. An element is handed back as its own markup
//! (its outer HTML, written by html5ever's serializer, which escapes text and
//! attribute values), so it can be queried again.

use html5ever::serialize::{serialize, SerializeOpts, TraversalScope};
use soup::{NodeExt, QueryBuilderExt, Soup};
use vstd::prelude::*;

verus! {

/// The outer markup of every element named `tag` in `html`, in document order.
pub uninterp spec fn elements_of(html: Seq<char>, tag: Seq<char>) -> Seq<Seq<char>>;

/// The outer markup of every element named `tag` whose attribute `attr`
/// matches `value`, in document order. For a list attribute such as `class`
/// it matches when one of its whitespace-separated words equals `value`; for
/// any other attribute when the whole value does.
pub uninterp spec fn elements_with_attr_of(
    html: Seq<char>,
    tag: Seq<char>,
    attr: Seq<char>,
    value: Seq<char>,
) -> Seq<Seq<char>>;

/// The value of attribute `attr` on the first element named `tag`, if both exist.
pub uninterp spec fn attr_of_first_of(html: Seq<char>, tag: Seq<char>, attr: Seq<char>) -> Option<
    Seq<char>,
>;

/// The text content of `html`.
pub uninterp spec fn text_of(html: Seq<char>) -> Seq<char>;

/// The views of a sequence of strings.
pub open spec fn views(v: Seq<String>) -> Seq<Seq<char>> {
    v.map_values(|s: String| s@)
}

/// Relies on `Soup::new` and `tag(..).find_all()`, and on `html5ever::serialize`
/// of the node itself: every element with that name, as markup.
#[verifier::external_body]
pub(crate) fn find_all(html: &str, tag: &str) -> (r: Vec<String>)
    ensures
        views(r@) == elements_of(html@, tag@),
{
    let opts = SerializeOpts { traversal_scope: TraversalScope::IncludeNode, ..Default::default() };
    Soup::new(html).tag(tag).find_all().map(|h| {
        let mut out: Vec<u8> = Vec::new();
        serialize(&mut out, &h, opts.clone()).unwrap();
        String::from_utf8(out).unwrap()
    }).collect()
}

/// Relies on `Soup::new` and `tag(..).attr(..).find_all()`, and on
/// `html5ever::serialize` of the node itself: every element with that name
/// and a matching attribute, as markup.
#[verifier::external_body]
pub(crate) fn find_all_with_attr(html: &str, tag: &str, attr: &str, value: &str) -> (r: Vec<String>)
    ensures
        views(r@) == elements_with_attr_of(html@, tag@, attr@, value@),
{
    let opts = SerializeOpts { traversal_scope: TraversalScope::IncludeNode, ..Default::default() };
    Soup::new(html).tag(tag).attr(attr, value).find_all().map(|h| {
        let mut out: Vec<u8> = Vec::new();
        serialize(&mut out, &h, opts.clone()).unwrap();
        String::from_utf8(out).unwrap()
    }).collect()
}

/// Relies on `Soup::new`, `tag(..).find()` and `NodeExt::get`: an attribute of
/// the first element with that name.
#[verifier::external_body]
pub(crate) fn attr_of_first(html: &str, tag: &str, attr: &str) -> (r: Option<String>)
    ensures
        match r {
            Some(v) => attr_of_first_of(html@, tag@, attr@) == Some(v@),
            None => attr_of_first_of(html@, tag@, attr@) is None,
        },
{
    Soup::new(html).tag(tag).find().and_then(|h| h.get(attr))
}

/// Relies on `Soup::new` and `Soup::text`: the text of the markup.
#[verifier::external_body]
pub(crate) fn text(html: &str) -> (r: String)
    ensures
        r@ == text_of(html@),
{
    Soup::new(html).text()
}

} // verus!
