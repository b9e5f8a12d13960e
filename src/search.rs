//! Reading a site search page and gathering its results into candidates.

use crate::candidates::{candidate_views, with_all, CandidateArticle, CandidateSet, CandidateView};
use crate::classify::MAY_REFER_TO;
use crate::expand::ParseError;
use crate::html::{attr_of_first, attr_of_first_of, elements_of, elements_with_attr_of, find_all, find_all_with_attr, text, text_of, views};
use crate::text::{contains, has_substring, replace_char, replaced};
use vstd::prelude::*;

verus! {

/// The address every page is fetched from.
pub const SITE: &'static str = "https://en.wikipedia.org";

/// The start of a full-text search address, before the query.
pub const SEARCH_PREFIX: &'static str = "https://en.wikipedia.org/w/index.php?search=";

/// The end of a full-text search address, after the query.
pub const SEARCH_SUFFIX: &'static str = "&title=Special:Search&profile=advanced&fulltext=1&ns0=1";

/// Why a search gave no candidates.
#[derive(Clone, Copy, Debug, PartialEq, Eq, Structural)]
pub enum SearchError {
    /// The search page says that nothing matched.
    NoResults,
    /// The search page is not laid out as expected.
    Parse(ParseError),
}

/// The search address for a query: spaces become `+`.
pub open spec fn search_url_of(query: Seq<char>) -> Seq<char> {
    SEARCH_PREFIX@ + replace_char(query, ' ', '+') + SEARCH_SUFFIX@
}

/// The address of a site-relative path.
pub open spec fn page_url_of(path: Seq<char>) -> Seq<char> {
    SITE@ + path
}

/// The address of the article with a title: spaces become `_`.
pub open spec fn article_url_of(title: Seq<char>) -> Seq<char> {
    SITE@ + "/wiki/"@ + replace_char(title, ' ', '_')
}

/// The search address for a query.
pub fn search_url(query: &str) -> (r: String)
    ensures
        r@ == search_url_of(query@),
{
    let mut url = String::from_str(SEARCH_PREFIX);
    let q = replaced(query, ' ', '+');
    url.append(q.as_str());
    url.append(SEARCH_SUFFIX);
    url
}

/// The address of a site-relative path, such as a result's link.
pub fn page_url(path: &str) -> (r: String)
    ensures
        r@ == page_url_of(path@),
{
    let mut url = String::from_str(SITE);
    url.append(path);
    url
}

/// The address of the article with a title.
pub fn article_url(title: &str) -> (r: String)
    ensures
        r@ == article_url_of(title@),
{
    let mut url = String::from_str(SITE);
    url.append("/wiki/");
    let t = replaced(title, ' ', '_');
    url.append(t.as_str());
    url
}

/// The candidate one search result names: the heading link's title, the
/// snippet's text and the result's first link target.
pub open spec fn result_entry(item: Seq<char>) -> Option<CandidateView> {
    let headings = elements_with_attr_of(item, "div"@, "class"@, "mw-search-result-heading"@);
    let snippets = elements_with_attr_of(item, "div"@, "class"@, "searchresult"@);
    if headings.len() == 0 || snippets.len() == 0 {
        None
    } else {
        match (attr_of_first_of(headings[0], "a"@, "title"@), attr_of_first_of(item, "a"@, "href"@)) {
            (Some(title), Some(url)) => Some((title, text_of(snippets[0]), url)),
            _ => None,
        }
    }
}

/// The candidates the results name, in order, if every result is well formed.
pub open spec fn result_entries(items: Seq<Seq<char>>) -> Option<Seq<CandidateView>>
    decreases items.len(),
{
    if items.len() == 0 {
        Some(Seq::empty())
    } else {
        match (result_entries(items.drop_last()), result_entry(items.last())) {
            (Some(prev), Some(c)) => Some(prev.push(c)),
            _ => None,
        }
    }
}

/// What a search page gives. A page with no marker and no result either
/// counts as a search with no results.
pub open spec fn search_outcome(html: Seq<char>) -> Result<Seq<CandidateView>, SearchError> {
    if elements_with_attr_of(html, "p"@, "class"@, "mw-search-nonefound"@).len() > 0 {
        Err(SearchError::NoResults)
    } else {
        let lists = elements_with_attr_of(html, "ul"@, "class"@, "mw-search-results"@);
        if lists.len() == 0 {
            Err(SearchError::Parse(ParseError::MissingResultList))
        } else if elements_of(lists[0], "li"@).len() == 0 {
            Err(SearchError::NoResults)
        } else {
            match result_entries(elements_of(lists[0], "li"@)) {
                Some(cs) => Ok(cs),
                None => Err(SearchError::Parse(ParseError::MalformedEntry)),
            }
        }
    }
}

proof fn lemma_spoiled_results(items: Seq<Seq<char>>, k: int)
    requires
        0 <= k <= items.len(),
        result_entries(items.take(k)) is None,
    ensures
        result_entries(items) is None,
    decreases items.len() - k,
{
    if k < items.len() {
        assert(items.take(k + 1).drop_last() =~= items.take(k));
        lemma_spoiled_results(items, k + 1);
    } else {
        assert(items.take(k) =~= items);
    }
}

/// The candidate one search result names.
pub fn read_result(item: &str) -> (r: Option<CandidateArticle>)
    ensures
        match r {
            Some(c) => result_entry(item@) == Some(c@),
            None => result_entry(item@) is None,
        },
{
    proof {
        reveal_strlit("div");
        reveal_strlit("class");
        reveal_strlit("a");
        reveal_strlit("title");
        reveal_strlit("href");
    }
    let headings = find_all_with_attr(item, "div", "class", "mw-search-result-heading");
    let snippets = find_all_with_attr(item, "div", "class", "searchresult");
    proof {
        reveal_strlit("mw-search-result-heading");
        reveal_strlit("searchresult");
        assert(views(headings@).len() == headings@.len());
        assert(views(snippets@).len() == snippets@.len());
    }
    if headings.len() == 0 || snippets.len() == 0 {
        return None;
    }
    assert(views(headings@)[0] == headings@[0]@);
    assert(views(snippets@)[0] == snippets@[0]@);
    let title = attr_of_first(headings[0].as_str(), "a", "title");
    let url = attr_of_first(item, "a", "href");
    match (title, url) {
        (Some(t), Some(u)) => Some(CandidateArticle::new(t, text(snippets[0].as_str()), u)),
        _ => None,
    }
}

/// Reads a search page into the candidates it lists, in order.
pub fn parse_search_page(html: &str) -> (r: Result<Vec<CandidateArticle>, SearchError>)
    ensures
        match r {
            Ok(cs) => search_outcome(html@) == Ok::<Seq<CandidateView>, SearchError>(candidate_views(cs@)),
            Err(e) => search_outcome(html@) == Err::<Seq<CandidateView>, SearchError>(e),
        },
{
    proof {
        reveal_strlit("p");
        reveal_strlit("ul");
        reveal_strlit("li");
        reveal_strlit("class");
        reveal_strlit("mw-search-nonefound");
        reveal_strlit("mw-search-results");
    }
    let none_found = find_all_with_attr(html, "p", "class", "mw-search-nonefound");
    assert(views(none_found@).len() == none_found@.len());
    if none_found.len() > 0 {
        return Err(SearchError::NoResults);
    }
    let lists = find_all_with_attr(html, "ul", "class", "mw-search-results");
    assert(views(lists@).len() == lists@.len());
    if lists.len() == 0 {
        return Err(SearchError::Parse(ParseError::MissingResultList));
    }
    assert(views(lists@)[0] == lists@[0]@);
    let items = find_all(lists[0].as_str(), "li");
    let ghost iv = views(items@);
    assert(iv.len() == items@.len());
    if items.len() == 0 {
        return Err(SearchError::NoResults);
    }
    let mut out: Vec<CandidateArticle> = Vec::new();
    let mut i: usize = 0;
    while i < items.len()
        invariant
            i <= items.len(),
            iv == views(items@),
            iv.len() > 0,
            iv == elements_of(lists@[0]@, "li"@),
            lists@.len() > 0,
            elements_with_attr_of(html@, "ul"@, "class"@, "mw-search-results"@).len() > 0,
            elements_with_attr_of(html@, "ul"@, "class"@, "mw-search-results"@)[0] == lists@[0]@,
            elements_with_attr_of(html@, "p"@, "class"@, "mw-search-nonefound"@).len() == 0,
            result_entries(iv.take(i as int)) == Some(candidate_views(out@)),
        decreases items.len() - i,
    {
        let ghost prefix = iv.take(i as int + 1);
        assert(prefix.drop_last() =~= iv.take(i as int));
        assert(prefix.last() == items@[i as int]@);
        match read_result(items[i].as_str()) {
            Some(c) => {
                out.push(c);
                assert(candidate_views(out@) =~= candidate_views(out@.drop_last()).push(c@));
            },
            None => {
                proof {
                    lemma_spoiled_results(iv, i as int + 1);
                }
                return Err(SearchError::Parse(ParseError::MalformedEntry));
            },
        }
        i = i + 1;
    }
    assert(iv.take(items.len() as int) =~= iv);
    Ok(out)
}

/// A search result that is itself a disambiguation index: its snippet holds
/// the phrase that opens one.
pub open spec fn is_disambiguation_entry(c: CandidateView) -> bool {
    has_substring(c.1, MAY_REFER_TO@)
}

/// Whether a search result is a disambiguation index.
pub fn is_disambiguation_result(c: &CandidateArticle) -> (r: bool)
    ensures
        r == is_disambiguation_entry(c@),
{
    contains(c.description.as_str(), MAY_REFER_TO)
}

/// Gathering the results of one search. Direct results are gathered as they
/// are; for a disambiguation result the session asks for its page, and
/// gathers what that page expands to instead.
pub struct SearchSession {
    hits: Vec<CandidateArticle>,
    count: usize,
    next: usize,
    found: CandidateSet,
}

impl SearchSession {
    /// The search results, in order.
    pub closed spec fn results(&self) -> Seq<CandidateView> {
        candidate_views(self.hits@)
    }

    /// How many results have been dealt with.
    pub closed spec fn position(&self) -> int {
        self.next as int
    }

    /// The candidates gathered so far.
    pub closed spec fn gathered(&self) -> Seq<CandidateView> {
        self.found@
    }

    pub closed spec fn wf(&self) -> bool {
        &&& self.count == self.hits@.len()
        &&& self.next <= self.count
        &&& self.found.wf()
    }

    /// A session over the results of one search, with nothing gathered yet.
    pub fn begin(hits: Vec<CandidateArticle>) -> (r: SearchSession)
        ensures
            r.wf(),
            r.results() == candidate_views(hits@),
            r.position() == 0,
            r.gathered() == Seq::<CandidateView>::empty(),
    {
        let count = hits.len();
        SearchSession { hits, count, next: 0, found: CandidateSet::new() }
    }

    /// Gathers direct results up to the next disambiguation result, and
    /// returns that result's link; `None` once every result is dealt with.
    pub fn advance(&mut self) -> (r: Option<String>)
        requires
            old(self).wf(),
        ensures
            final(self).wf(),
            final(self).results() == old(self).results(),
            old(self).position() <= final(self).position() <= final(self).results().len(),
            forall|j: int|
                old(self).position() <= j < final(self).position() ==> !is_disambiguation_entry(
                    #[trigger] final(self).results()[j],
                ),
            final(self).gathered() == with_all(
                old(self).gathered(),
                final(self).results().subrange(old(self).position(), final(self).position()),
            ),
            match r {
                Some(url) => final(self).position() < final(self).results().len()
                    && is_disambiguation_entry(final(self).results()[final(self).position()])
                    && url@ == final(self).results()[final(self).position()].2,
                None => final(self).position() == final(self).results().len(),
            },
    {
        let ghost start = self.next as int;
        let ghost s = self.found@;
        let ghost hv = candidate_views(self.hits@);
        while self.next < self.hits.len()
            invariant
                start <= self.next <= self.hits@.len(),
                self.count == self.hits@.len(),
                start == old(self).next,
                s == old(self).found@,
                hv == candidate_views(self.hits@),
                hv == candidate_views(old(self).hits@),
                hv.len() == self.hits@.len(),
                self.found.wf(),
                forall|j: int| start <= j < self.next ==> !is_disambiguation_entry(#[trigger] hv[j]),
                self.found@ == with_all(s, hv.subrange(start, self.next as int)),
            decreases self.hits@.len() - self.next,
        {
            let i = self.next;
            assert(hv[i as int] == self.hits@[i as int]@);
            if is_disambiguation_result(&self.hits[i]) {
                return Some(self.hits[i].url.clone());
            }
            let c = self.hits[i].duplicate();
            self.found.insert(c);
            assert(hv.subrange(start, i as int + 1).drop_last() =~= hv.subrange(start, i as int));
            self.next = i + 1;
        }
        None
    }

    /// Gathers what the pending disambiguation result's page expands to, and
    /// moves past that result.
    pub fn absorb(&mut self, expansion: Vec<CandidateArticle>)
        requires
            old(self).wf(),
            old(self).position() < old(self).results().len(),
        ensures
            final(self).wf(),
            final(self).results() == old(self).results(),
            final(self).position() == old(self).position() + 1,
            final(self).gathered() == with_all(old(self).gathered(), candidate_views(expansion@)),
    {
        assert(candidate_views(self.hits@).len() == self.hits@.len());
        self.found.insert_all(expansion);
        self.next = self.next + 1;
    }

    /// Whether a disambiguation result is waiting for its page.
    pub fn pending(&self) -> (r: bool)
        requires
            self.wf(),
        ensures
            r == (self.position() < self.results().len()),
    {
        self.next < self.count
    }

    /// The candidates gathered so far.
    pub fn candidates(&self) -> (r: Vec<CandidateArticle>)
        ensures
            candidate_views(r@) == self.gathered(),
    {
        self.found.to_vec()
    }
}

} // verus!
