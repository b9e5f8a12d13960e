//! Telling a missing page, a disambiguation index and a content page apart.

use crate::html::{elements_of, elements_with_attr_of, find_all, find_all_with_attr, text, text_of};
use crate::text::{contains, has_substring};
use vstd::prelude::*;

verus! {

/// Bold text that marks a title Wikipedia has no article for.
pub const NO_EXACT_ARTICLE: &'static str = "Wikipedia does not have an article with this exact name.";

/// Bold text that marks a search term Wikipedia has no article on.
pub const NO_ARTICLE_ON: &'static str = "Wikipedia does not have an article on";

/// The phrase that opens a disambiguation index.
pub const MAY_REFER_TO: &'static str = "may refer to:";

/// The category every disambiguation index links to.
pub const DISAMBIGUATION_CATEGORY: &'static str = "/wiki/Category:Disambiguation_pages";

/// What kind of page a fetched page is.
#[derive(Clone, Copy, Debug, PartialEq, Eq, Structural)]
pub enum PageClassification {
    NotFound,
    Disambiguation,
    Content,
}

/// Some text of `texts` holds `p`.
pub open spec fn any_holds(texts: Seq<Seq<char>>, p: Seq<char>) -> bool {
    exists|i: int| 0 <= i < texts.len() && has_substring(#[trigger] texts[i], p)
}

/// The classification of a page from its bold texts, the text of its first
/// paragraph, and whether it links to the disambiguation category. The
/// missing-page markers are looked at first.
pub open spec fn classification(
    bold: Seq<Seq<char>>,
    first_paragraph: Option<Seq<char>>,
    links_category: bool,
) -> PageClassification {
    if any_holds(bold, NO_EXACT_ARTICLE@) || any_holds(bold, NO_ARTICLE_ON@) {
        PageClassification::NotFound
    } else if (first_paragraph is Some && has_substring(first_paragraph->0, MAY_REFER_TO@))
        || links_category {
        PageClassification::Disambiguation
    } else {
        PageClassification::Content
    }
}

/// The texts of a sequence of elements.
pub open spec fn texts_of(elements: Seq<Seq<char>>) -> Seq<Seq<char>> {
    elements.map_values(|e: Seq<char>| text_of(e))
}

/// The elements that hold an article's text.
pub open spec fn content_regions(html: Seq<char>) -> Seq<Seq<char>> {
    elements_with_attr_of(html, "div"@, "id"@, "mw-content-text"@)
}

/// The text of the first paragraph of the page's main content, if it has one.
pub open spec fn first_paragraph_of(html: Seq<char>) -> Option<Seq<char>> {
    let regions = content_regions(html);
    if regions.len() == 0 {
        None
    } else {
        let paragraphs = elements_of(regions[0], "p"@);
        if paragraphs.len() == 0 {
            None
        } else {
            Some(text_of(paragraphs[0]))
        }
    }
}

/// The classification of a page from its markup.
pub open spec fn page_classification(html: Seq<char>) -> PageClassification {
    classification(
        texts_of(elements_of(html, "b"@)),
        first_paragraph_of(html),
        elements_with_attr_of(html, "a"@, "href"@, DISAMBIGUATION_CATEGORY@).len() > 0,
    )
}

/// Whether some text of `texts` holds `p`.
fn any_contains(texts: &Vec<String>, p: &str) -> (r: bool)
    ensures
        r == any_holds(texts@.map_values(|s: String| s@), p@),
{
    let ghost tv = texts@.map_values(|s: String| s@);
    let mut i: usize = 0;
    while i < texts.len()
        invariant
            i <= texts.len(),
            tv == texts@.map_values(|s: String| s@),
            forall|j: int| 0 <= j < i ==> !has_substring(#[trigger] tv[j], p@),
        decreases texts.len() - i,
    {
        if contains(texts[i].as_str(), p) {
            assert(has_substring(tv[i as int], p@));
            return true;
        }
        i = i + 1;
    }
    false
}

/// Classifies a page from its bold texts, the text of its first paragraph
/// and whether it links to the disambiguation category.
pub fn classify_parts(
    bold: &Vec<String>,
    first_paragraph: &Option<String>,
    links_category: bool,
) -> (r: PageClassification)
    ensures
        r == classification(
            bold@.map_values(|s: String| s@),
            match first_paragraph {
                Some(p) => Some(p@),
                None => None,
            },
            links_category,
        ),
{
    if any_contains(bold, NO_EXACT_ARTICLE) || any_contains(bold, NO_ARTICLE_ON) {
        return PageClassification::NotFound;
    }
    let refers = match first_paragraph {
        Some(p) => contains(p.as_str(), MAY_REFER_TO),
        None => false,
    };
    if refers || links_category {
        PageClassification::Disambiguation
    } else {
        PageClassification::Content
    }
}

/// The texts of the given elements, in order.
pub fn texts(elements: &Vec<String>) -> (r: Vec<String>)
    ensures
        r@.map_values(|s: String| s@) == texts_of(elements@.map_values(|s: String| s@)),
{
    let ghost ev = elements@.map_values(|s: String| s@);
    let mut out: Vec<String> = Vec::new();
    let mut i: usize = 0;
    while i < elements.len()
        invariant
            i <= elements.len(),
            ev == elements@.map_values(|s: String| s@),
            out@.len() == i,
            forall|j: int| 0 <= j < i ==> (#[trigger] out@[j])@ == text_of(ev[j]),
        decreases elements.len() - i,
    {
        let t = text(elements[i].as_str());
        out.push(t);
        i = i + 1;
    }
    assert(out@.map_values(|s: String| s@) =~= texts_of(ev));
    out
}

/// The text of the first paragraph of the page's main content, if it has one.
pub fn first_paragraph(html: &str) -> (r: Option<String>)
    ensures
        match r {
            Some(p) => first_paragraph_of(html@) == Some(p@),
            None => first_paragraph_of(html@) is None,
        },
{
    let regions = find_all_with_attr(html, "div", "id", "mw-content-text");
    proof {
        reveal_strlit("div");
        reveal_strlit("id");
        reveal_strlit("mw-content-text");
        assert(regions@.map_values(|s: String| s@).len() == regions@.len());
    }
    if regions.len() == 0 {
        return None;
    }
    assert(content_regions(html@)[0] == regions@[0]@);
    let paragraphs = find_all(regions[0].as_str(), "p");
    assert(paragraphs@.map_values(|s: String| s@).len() == paragraphs@.len());
    if paragraphs.len() == 0 {
        return None;
    }
    assert(elements_of(regions@[0]@, "p"@)[0] == paragraphs@[0]@);
    Some(text(paragraphs[0].as_str()))
}

/// Classifies a page from its markup.
pub fn classify_page(html: &str) -> (r: PageClassification)
    ensures
        r == page_classification(html@),
{
    let bold = texts(&find_all(html, "b"));
    let para = first_paragraph(html);
    let links = find_all_with_attr(html, "a", "href", DISAMBIGUATION_CATEGORY);
    assert(links@.map_values(|s: String| s@).len() == links@.len());
    let r = classify_parts(&bold, &para, links.len() > 0);
    proof {
        reveal_strlit("b");
        reveal_strlit("a");
        reveal_strlit("href");
    }
    r
}

/// Classification depends on the page's markup alone: the same page always
/// gets the same classification.
pub proof fn lemma_classification_is_stable(a: Seq<char>, b: Seq<char>)
    requires
        a == b,
    ensures
        page_classification(a) == page_classification(b),
{
}

} // verus!
