//! Turning the user's intent into one article title: the pick among search
//! candidates, numbered choices, random draws and the remembered session.

use crate::candidates::{candidate_views, CandidateArticle, CandidateView};
use crate::classify::{content_regions, PageClassification};
use crate::expand::ParseError;
use crate::html::{elements_of, find_all, find_all_with_attr, views};
use crate::classify::{texts, texts_of};
use crate::text::{lower_of, lowercase, read_number, trim_of, trimmed, usize_of};
use vstd::prelude::*;

verus! {

/// The title a fresh session resumes with.
pub const DEFAULT_ARTICLE: &'static str = "Cheese";

/// What resolving a search leads to.
#[derive(Debug)]
pub enum Resolution {
    /// Nothing to choose from: ask for new search text.
    Retry,
    /// The article to show.
    Resolved(String),
    /// Lines `title - description`, one per candidate, to choose from.
    NeedsUserChoice(Vec<String>),
}

/// A candidate's title equals the query, ignoring case and the query's
/// surrounding whitespace.
pub open spec fn matches_query(query: Seq<char>, c: CandidateView) -> bool {
    lower_of(c.0) == lower_of(trim_of(query))
}

/// The line that offers a candidate for choice.
pub open spec fn option_line(c: CandidateView) -> Seq<char> {
    c.0 + " - "@ + c.1
}

/// The position of the first element of `hay` equal to `needle`.
pub fn first_equal(needle: &String, hay: &Vec<String>) -> (r: Option<usize>)
    ensures
        match r {
            Some(k) => k < hay@.len() && hay@[k as int]@ == needle@ && forall|j: int|
                0 <= j < k ==> (#[trigger] hay@[j])@ != needle@,
            None => forall|j: int| 0 <= j < hay@.len() ==> (#[trigger] hay@[j])@ != needle@,
        },
{
    let mut i: usize = 0;
    while i < hay.len()
        invariant
            i <= hay@.len(),
            forall|j: int| 0 <= j < i ==> (#[trigger] hay@[j])@ != needle@,
        decreases hay@.len() - i,
    {
        if hay[i].eq(needle) {
            return Some(i);
        }
        i = i + 1;
    }
    None
}

/// The choice lines for candidates, in order.
pub fn option_lines(cands: &Vec<CandidateArticle>) -> (r: Vec<String>)
    ensures
        views(r@) == candidate_views(cands@).map_values(|c: CandidateView| option_line(c)),
{
    let mut out: Vec<String> = Vec::new();
    let mut i: usize = 0;
    while i < cands.len()
        invariant
            i <= cands@.len(),
            out@.len() == i,
            forall|j: int| 0 <= j < i ==> (#[trigger] out@[j])@ == option_line(cands@[j]@),
        decreases cands@.len() - i,
    {
        let mut line = cands[i].title.clone();
        line.append(" - ");
        line.append(cands[i].description.as_str());
        out.push(line);
        i = i + 1;
    }
    assert(views(out@) =~= candidate_views(cands@).map_values(|c: CandidateView| option_line(c)));
    out
}

/// Resolves a search: no candidate asks for new text; a single candidate is
/// taken; among several, the first whose title equals the query (ignoring
/// case) is taken; otherwise the user is asked to choose.
pub fn resolve_search(query: &str, cands: &Vec<CandidateArticle>) -> (r: Resolution)
    ensures
        cands@.len() == 0 ==> r is Retry,
        cands@.len() == 1 ==> (r matches Resolution::Resolved(t) && t@ == cands@[0].title@),
        cands@.len() >= 2 ==> match r {
            Resolution::Resolved(t) => exists|k: int|
                0 <= k < cands@.len() && matches_query(query@, #[trigger] cands@[k]@) && t@
                    == cands@[k].title@ && forall|j: int|
                    0 <= j < k ==> !matches_query(query@, #[trigger] cands@[j]@),
            Resolution::NeedsUserChoice(lines) => (forall|j: int|
                0 <= j < cands@.len() ==> !matches_query(query@, #[trigger] cands@[j]@)) && views(
                lines@,
            ) == candidate_views(cands@).map_values(|c: CandidateView| option_line(c)),
            Resolution::Retry => false,
        },
{
    if cands.len() == 0 {
        return Resolution::Retry;
    }
    if cands.len() == 1 {
        return Resolution::Resolved(cands[0].title.clone());
    }
    let t = trimmed(query);
    let lowered_query = lowercase(t.as_str());
    let mut lowered: Vec<String> = Vec::new();
    let mut i: usize = 0;
    while i < cands.len()
        invariant
            i <= cands@.len(),
            lowered@.len() == i,
            forall|j: int| 0 <= j < i ==> (#[trigger] lowered@[j])@ == lower_of(cands@[j].title@),
        decreases cands@.len() - i,
    {
        lowered.push(lowercase(cands[i].title.as_str()));
        i = i + 1;
    }
    match first_equal(&lowered_query, &lowered) {
        Some(k) => {
            assert forall|j: int| 0 <= j < k implies !matches_query(query@, #[trigger] cands@[j]@) by {
                assert(lowered@[j]@ != lowered_query@);
            }
            assert(matches_query(query@, cands@[k as int]@));
            Resolution::Resolved(cands[k].title.clone())
        },
        None => {
            assert forall|j: int| 0 <= j < cands@.len() implies !matches_query(query@, #[trigger] cands@[j]@) by {
                assert(lowered@[j]@ != lowered_query@);
            }
            Resolution::NeedsUserChoice(option_lines(cands))
        },
    }
}

/// A 1-based choice among `count` entries, from the number read, if any.
pub open spec fn valid_pick(read: Option<usize>, count: usize) -> Option<usize> {
    match read {
        Some(k) => if 1 <= k && k <= count {
            Some(k)
        } else {
            None
        },
        None => None,
    }
}

/// Accepts a number read from input as a 1-based choice among `count` entries.
pub fn pick_number(read: Option<usize>, count: usize) -> (r: Option<usize>)
    ensures
        r == valid_pick(read, count),
{
    match read {
        Some(k) => if 1 <= k && k <= count {
            Some(k)
        } else {
            None
        },
        None => None,
    }
}

/// Reads a 1-based choice among `count` entries from a line of input;
/// `None` asks for the choice again.
pub fn choose_option(input: &str, count: usize) -> (r: Option<usize>)
    ensures
        r == valid_pick(usize_of(trim_of(input@)), count),
{
    pick_number(read_number(input), count)
}

/// The title of the candidate chosen by a line of input, if the line names one.
pub fn pick_candidate(input: &str, cands: &Vec<CandidateArticle>) -> (r: Option<String>)
    ensures
        match valid_pick(usize_of(trim_of(input@)), cands@.len() as usize) {
            Some(k) => (r matches Some(t) && t@ == cands@[k - 1].title@),
            None => r is None,
        },
{
    match choose_option(input, cands.len()) {
        Some(k) => Some(cands[k - 1].title.clone()),
        None => None,
    }
}

/// The entries of the main menu.
#[derive(Clone, Copy, Debug, PartialEq, Eq, Structural)]
pub enum MenuChoice {
    Resume,
    Search,
    Random,
    Exit,
}

/// The labels of the main menu, in the order they are numbered.
pub fn menu_entries() -> (r: Vec<String>)
    ensures
        r@.len() == 4,
        r@[0]@ == "Read previous article"@,
        r@[1]@ == "Search for article"@,
        r@[2]@ == "Get random article"@,
        r@[3]@ == "Exit"@,
{
    let mut v: Vec<String> = Vec::new();
    v.push(String::from_str("Read previous article"));
    v.push(String::from_str("Search for article"));
    v.push(String::from_str("Get random article"));
    v.push(String::from_str("Exit"));
    v
}

/// The menu entry a line of input picks; `None` asks again.
pub fn menu(input: &str) -> (r: Option<MenuChoice>)
    ensures
        r == match valid_pick(usize_of(trim_of(input@)), 4) {
            Some(1) => Some(MenuChoice::Resume),
            Some(2) => Some(MenuChoice::Search),
            Some(3) => Some(MenuChoice::Random),
            Some(_) => Some(MenuChoice::Exit),
            None => None,
        },
{
    match choose_option(input, 4) {
        Some(1) => Some(MenuChoice::Resume),
        Some(2) => Some(MenuChoice::Search),
        Some(3) => Some(MenuChoice::Random),
        Some(_) => Some(MenuChoice::Exit),
        None => None,
    }
}

/// A randomly drawn word, tried as a title: kept only if its page is a
/// content page, and drawn again otherwise.
pub fn settle_random(word: String, class: PageClassification) -> (r: Option<String>)
    ensures
        r is Some <==> class == PageClassification::Content,
        r matches Some(t) ==> t@ == word@,
{
    match class {
        PageClassification::Content => Some(word),
        _ => None,
    }
}

/// Relies on `random_word::gen` for English: some word of its list, drawn at
/// random. The list holds no empty word: the crate's own index of words by
/// first letter treats one as a bug.
#[verifier::external_body]
fn random_english_word() -> (r: String)
    ensures
        r@.len() > 0,
{
    random_word::gen(random_word::Lang::En).to_string()
}

/// A random English word and the address of the article it would title.
pub fn draw_random_title() -> (r: (String, String))
    ensures
        r.0@.len() > 0,
        r.1@ == crate::search::article_url_of(r.0@),
{
    let word = random_english_word();
    let url = crate::search::article_url(word.as_str());
    (word, url)
}

/// The paragraphs of an article's main content, in order.
pub fn article_paragraphs(html: &str) -> (r: Result<Vec<String>, ParseError>)
    ensures
        match r {
            Ok(ps) => content_regions(html@).len() > 0 && views(ps@) == texts_of(
                elements_of(content_regions(html@)[0], "p"@),
            ),
            Err(e) => e == ParseError::MissingContent && content_regions(html@).len() == 0,
        },
{
    proof {
        reveal_strlit("div");
        reveal_strlit("id");
        reveal_strlit("mw-content-text");
        reveal_strlit("p");
    }
    let regions = find_all_with_attr(html, "div", "id", "mw-content-text");
    assert(views(regions@).len() == regions@.len());
    if regions.len() == 0 {
        return Err(ParseError::MissingContent);
    }
    assert(views(regions@)[0] == regions@[0]@);
    let ps = find_all(regions[0].as_str(), "p");
    Ok(texts(&ps))
}

/// What is remembered between runs: the title of the last article read.
#[derive(Clone, Debug)]
pub struct SessionConfig {
    pub article_name: String,
}

impl Default for SessionConfig {
    fn default() -> (r: SessionConfig)
        ensures
            r.article_name@ == DEFAULT_ARTICLE@,
    {
        SessionConfig { article_name: String::from_str(DEFAULT_ARTICLE) }
    }
}

impl SessionConfig {
    /// A session that remembers `title`.
    pub fn remembering(title: &str) -> (r: SessionConfig)
        ensures
            r.article_name@ == title@,
    {
        SessionConfig { article_name: String::from_str(title) }
    }

    /// The title that resuming reads: the remembered one, taken as it is.
    pub fn resume_title(&self) -> (r: String)
        ensures
            r@ == self.article_name@,
    {
        self.article_name.clone()
    }
}

} // verus!
