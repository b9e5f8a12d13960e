//! Expanding a disambiguation index into the articles it lists.

use crate::candidates::{candidate_views, has_url, unique_urls, with_all, with_candidate, CandidateArticle, CandidateSet, CandidateView};
use crate::html::{attr_of_first, attr_of_first_of, elements_of, elements_with_attr_of, find_all, find_all_with_attr, text, text_of, views};
use vstd::prelude::*;

verus! {

/// Markup that lacks a part the logic needs.
#[derive(Clone, Copy, Debug, PartialEq, Eq, Structural)]
pub enum ParseError {
    /// The page has no main content container.
    MissingContent,
    /// The search page has neither a result list nor a no-results marker.
    MissingResultList,
    /// A listed entry lacks its title, description or link.
    MalformedEntry,
}

/// The class of the container that holds a disambiguation index.
pub const INDEX_CONTAINER_CLASS: &'static str = "mw-parser-output";

/// The list item holds a link.
pub open spec fn has_link(item: Seq<char>) -> bool {
    elements_of(item, "a"@).len() > 0
}

/// The candidate a linked list item names: the link's title, the item's
/// text and the link's target, if the link has both attributes.
pub open spec fn item_entry(item: Seq<char>) -> Option<CandidateView> {
    match (attr_of_first_of(item, "a"@, "title"@), attr_of_first_of(item, "a"@, "href"@)) {
        (Some(title), Some(url)) => Some((title, text_of(item), url)),
        _ => None,
    }
}

/// The candidates that list items name, in order; items without a link are
/// left out, and a linked item without title or target spoils the whole.
pub open spec fn expansion(items: Seq<Seq<char>>) -> Option<Seq<CandidateView>>
    decreases items.len(),
{
    if items.len() == 0 {
        Some(Seq::empty())
    } else {
        match expansion(items.drop_last()) {
            None => None,
            Some(prev) => if !has_link(items.last()) {
                Some(prev)
            } else {
                match item_entry(items.last()) {
                    Some(c) => Some(prev.push(c)),
                    None => None,
                }
            },
        }
    }
}

/// How many of the items hold a link.
pub open spec fn linked_count(items: Seq<Seq<char>>) -> nat
    decreases items.len(),
{
    if items.len() == 0 {
        0
    } else {
        linked_count(items.drop_last()) + if has_link(items.last()) { 1nat } else { 0nat }
    }
}

/// The candidates of every list, one list after another.
pub open spec fn lists_expansion(lists: Seq<Seq<char>>) -> Option<Seq<CandidateView>>
    decreases lists.len(),
{
    if lists.len() == 0 {
        Some(Seq::empty())
    } else {
        match (lists_expansion(lists.drop_last()), expansion(elements_of(lists.last(), "li"@))) {
            (Some(a), Some(b)) => Some(a + b),
            _ => None,
        }
    }
}

/// What expanding a disambiguation page gives: the candidates of its lists,
/// gathered so that each source URL appears once.
pub open spec fn disambiguation_outcome(html: Seq<char>) -> Result<Seq<CandidateView>, ParseError> {
    let containers = elements_with_attr_of(html, "div"@, "class"@, INDEX_CONTAINER_CLASS@);
    if containers.len() == 0 {
        Err(ParseError::MissingContent)
    } else {
        match lists_expansion(elements_of(containers[0], "ul"@)) {
            Some(cs) => Ok(with_all(Seq::empty(), cs)),
            None => Err(ParseError::MalformedEntry),
        }
    }
}

/// A list of N items, M of which hold a well-formed link, expands to exactly
/// M candidates; items without a link are dropped.
pub proof fn lemma_expansion_counts_linked(items: Seq<Seq<char>>)
    requires
        forall|i: int| 0 <= i < items.len() && has_link(#[trigger] items[i]) ==> item_entry(items[i]) is Some,
    ensures
        expansion(items) is Some,
        expansion(items)->0.len() == linked_count(items),
        linked_count(items) <= items.len(),
    decreases items.len(),
{
    if items.len() > 0 {
        let prefix = items.drop_last();
        assert forall|i: int| 0 <= i < prefix.len() && has_link(#[trigger] prefix[i]) implies item_entry(prefix[i]) is Some by {
            assert(prefix[i] == items[i]);
        }
        lemma_expansion_counts_linked(prefix);
        assert(items.last() == items[items.len() - 1]);
    }
}

proof fn lemma_spoiled_prefix(items: Seq<Seq<char>>, k: int)
    requires
        0 <= k <= items.len(),
        expansion(items.take(k)) is None,
    ensures
        expansion(items) is None,
    decreases items.len() - k,
{
    if k < items.len() {
        let next = items.take(k + 1);
        assert(next.drop_last() =~= items.take(k));
        lemma_spoiled_prefix(items, k + 1);
    } else {
        assert(items.take(k) =~= items);
    }
}

proof fn lemma_spoiled_lists(lists: Seq<Seq<char>>, k: int)
    requires
        0 <= k <= lists.len(),
        lists_expansion(lists.take(k)) is None,
    ensures
        lists_expansion(lists) is None,
    decreases lists.len() - k,
{
    if k < lists.len() {
        let next = lists.take(k + 1);
        assert(next.drop_last() =~= lists.take(k));
        lemma_spoiled_lists(lists, k + 1);
    } else {
        assert(lists.take(k) =~= lists);
    }
}

/// How many list items of all the lists hold a link.
pub open spec fn lists_linked_count(lists: Seq<Seq<char>>) -> nat
    decreases lists.len(),
{
    if lists.len() == 0 {
        0
    } else {
        lists_linked_count(lists.drop_last()) + linked_count(elements_of(lists.last(), "li"@))
    }
}

/// Every linked item of every list names a title and a target.
pub open spec fn well_formed_lists(lists: Seq<Seq<char>>) -> bool {
    forall|i: int, j: int|
        0 <= i < lists.len() && 0 <= j < elements_of(lists[i], "li"@).len() && has_link(
            #[trigger] elements_of(lists[i], "li"@)[j],
        ) ==> item_entry(elements_of(lists[i], "li"@)[j]) is Some
}

proof fn lemma_lists_count_linked(lists: Seq<Seq<char>>)
    requires
        well_formed_lists(lists),
    ensures
        lists_expansion(lists) is Some,
        lists_expansion(lists)->0.len() == lists_linked_count(lists),
    decreases lists.len(),
{
    if lists.len() > 0 {
        let prefix = lists.drop_last();
        assert forall|i: int, j: int|
            0 <= i < prefix.len() && 0 <= j < elements_of(prefix[i], "li"@).len() && has_link(
                #[trigger] elements_of(prefix[i], "li"@)[j],
            ) implies item_entry(elements_of(prefix[i], "li"@)[j]) is Some by {
            assert(prefix[i] == lists[i]);
        }
        lemma_lists_count_linked(prefix);
        let items = elements_of(lists.last(), "li"@);
        assert forall|j: int| 0 <= j < items.len() && has_link(#[trigger] items[j]) implies item_entry(
            items[j],
        ) is Some by {
            assert(lists.last() == lists[lists.len() - 1]);
        }
        lemma_expansion_counts_linked(items);
    }
}

/// A disambiguation page whose lists hold M linked items, each with a title
/// and a distinct target, among any number of items without a link, expands
/// to exactly those M candidates, in order.
pub proof fn lemma_page_expansion_counts_linked(html: Seq<char>)
    requires
        elements_with_attr_of(html, "div"@, "class"@, INDEX_CONTAINER_CLASS@).len() > 0,
        well_formed_lists(
            elements_of(elements_with_attr_of(html, "div"@, "class"@, INDEX_CONTAINER_CLASS@)[0], "ul"@),
        ),
        unique_urls(
            lists_expansion(
                elements_of(elements_with_attr_of(html, "div"@, "class"@, INDEX_CONTAINER_CLASS@)[0], "ul"@),
            )->0,
        ),
    ensures
        ({
            let lists = elements_of(
                elements_with_attr_of(html, "div"@, "class"@, INDEX_CONTAINER_CLASS@)[0],
                "ul"@,
            );
            &&& lists_expansion(lists) is Some
            &&& disambiguation_outcome(html) == Ok::<Seq<CandidateView>, ParseError>(lists_expansion(lists)->0)
            &&& lists_expansion(lists)->0.len() == lists_linked_count(lists)
        }),
{
    let lists = elements_of(
        elements_with_attr_of(html, "div"@, "class"@, INDEX_CONTAINER_CLASS@)[0],
        "ul"@,
    );
    lemma_lists_count_linked(lists);
    lemma_distinct_links_all_kept(lists_expansion(lists)->0);
}

/// Gathering candidates whose source URLs are already distinct keeps every
/// one of them, in order.
pub proof fn lemma_distinct_links_all_kept(cs: Seq<CandidateView>)
    requires
        unique_urls(cs),
    ensures
        with_all(Seq::empty(), cs) == cs,
    decreases cs.len(),
{
    if cs.len() > 0 {
        let prefix = cs.drop_last();
        assert(unique_urls(prefix));
        lemma_distinct_links_all_kept(prefix);
        assert(!has_url(prefix, cs.last().2));
        assert(prefix.push(cs.last()) =~= cs);
    }
}

/// The candidate a list item names, if it holds a link.
pub fn expand_item(item: &str) -> (r: Result<Option<CandidateArticle>, ParseError>)
    ensures
        !has_link(item@) ==> r == Ok::<Option<CandidateArticle>, ParseError>(None),
        has_link(item@) ==> match r {
            Ok(Some(c)) => item_entry(item@) == Some(c@),
            Ok(None) => false,
            Err(e) => e == ParseError::MalformedEntry && item_entry(item@) is None,
        },
{
    let links = find_all(item, "a");
    proof {
        reveal_strlit("a");
        reveal_strlit("title");
        reveal_strlit("href");
        assert(views(links@).len() == links@.len());
    }
    if links.len() == 0 {
        return Ok(None);
    }
    let title = attr_of_first(item, "a", "title");
    let url = attr_of_first(item, "a", "href");
    match (title, url) {
        (Some(t), Some(u)) => Ok(Some(CandidateArticle::new(t, text(item), u))),
        _ => Err(ParseError::MalformedEntry),
    }
}

/// The candidates that the list items name, in order.
pub fn expand_items(items: &Vec<String>) -> (r: Result<Vec<CandidateArticle>, ParseError>)
    ensures
        match r {
            Ok(cs) => expansion(views(items@)) == Some(candidate_views(cs@)),
            Err(e) => e == ParseError::MalformedEntry && expansion(views(items@)) is None,
        },
{
    let ghost iv = views(items@);
    let mut out: Vec<CandidateArticle> = Vec::new();
    let mut i: usize = 0;
    while i < items.len()
        invariant
            i <= items.len(),
            iv == views(items@),
            expansion(iv.take(i as int)) == Some(candidate_views(out@)),
        decreases items.len() - i,
    {
        let ghost prefix = iv.take(i as int + 1);
        assert(prefix.drop_last() =~= iv.take(i as int));
        assert(prefix.last() == items@[i as int]@);
        match expand_item(items[i].as_str()) {
            Ok(Some(c)) => {
                out.push(c);
                assert(candidate_views(out@) =~= candidate_views(out@).drop_last().push(c@));
                assert(candidate_views(out@).drop_last() =~= candidate_views(out@.drop_last()));
            },
            Ok(None) => {},
            Err(e) => {
                proof {
                    lemma_spoiled_prefix(iv, i as int + 1);
                }
                return Err(e);
            },
        }
        i = i + 1;
    }
    assert(iv.take(items.len() as int) =~= iv);
    Ok(out)
}

/// Expands a disambiguation page: every linked item of every list in its
/// main content container becomes a candidate.
pub fn expand_disambiguation(html: &str) -> (r: Result<Vec<CandidateArticle>, ParseError>)
    ensures
        match r {
            Ok(cs) => disambiguation_outcome(html@) == Ok::<Seq<CandidateView>, ParseError>(candidate_views(cs@))
                && unique_urls(candidate_views(cs@)),
            Err(e) => disambiguation_outcome(html@) == Err::<Seq<CandidateView>, ParseError>(e),
        },
{
    proof {
        reveal_strlit("div");
        reveal_strlit("class");
        reveal_strlit("ul");
        reveal_strlit("li");
    }
    let containers = find_all_with_attr(html, "div", "class", INDEX_CONTAINER_CLASS);
    assert(views(containers@).len() == containers@.len());
    if containers.len() == 0 {
        return Err(ParseError::MissingContent);
    }
    assert(views(containers@)[0] == containers@[0]@);
    let lists = find_all(containers[0].as_str(), "ul");
    assert(views(lists@) == elements_of(containers@[0]@, "ul"@));
    let ghost lv = views(lists@);
    let mut out: Vec<CandidateArticle> = Vec::new();
    let mut i: usize = 0;
    while i < lists.len()
        invariant
            i <= lists.len(),
            lv == views(lists@),
            containers@.len() > 0,
            lv == elements_of(containers@[0]@, "ul"@),
            elements_with_attr_of(html@, "div"@, "class"@, INDEX_CONTAINER_CLASS@)[0] == containers@[0]@,
            elements_with_attr_of(html@, "div"@, "class"@, INDEX_CONTAINER_CLASS@).len() > 0,
            lists_expansion(lv.take(i as int)) == Some(candidate_views(out@)),
        decreases lists.len() - i,
    {
        let ghost prefix = lv.take(i as int + 1);
        assert(prefix.drop_last() =~= lv.take(i as int));
        assert(prefix.last() == lists@[i as int]@);
        let items = find_all(lists[i].as_str(), "li");
        let mut found = match expand_items(&items) {
            Ok(cs) => cs,
            Err(e) => {
                proof {
                    assert(views(items@) == elements_of(lists@[i as int]@, "li"@));
                    assert(expansion(elements_of(prefix.last(), "li"@)) is None);
                    assert(lists_expansion(prefix) is None);
                    lemma_spoiled_lists(lv, i as int + 1);
                    assert(e == ParseError::MalformedEntry);
                }
                return Err(e);
            },
        };
        let ghost before = candidate_views(out@);
        let ghost added = candidate_views(found@);
        out.append(&mut found);
        assert(candidate_views(out@) =~= before + added);
        i = i + 1;
    }
    assert(lv.take(lists.len() as int) =~= lv);
    let mut set = CandidateSet::new();
    set.insert_all(out);
    Ok(set.to_vec())
}

} // verus!
