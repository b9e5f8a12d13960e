use wikireader::candidates::{CandidateArticle, CandidateSet};
use wikireader::expand::{expand_disambiguation, ParseError};
use wikireader::resolve::{pick_candidate, resolve_search, Resolution};
use wikireader::search::{
    article_url, is_disambiguation_result, page_url, parse_search_page, search_url, SearchError,
    SearchSession,
};

fn cand(title: &str, description: &str, url: &str) -> CandidateArticle {
    CandidateArticle::new(title.to_string(), description.to_string(), url.to_string())
}

fn result_item(title: &str, snippet: &str) -> String {
    let href = format!("/wiki/{}", title.replace(' ', "_"));
    format!(
        "<li><div class=\"mw-search-result-heading\"><a href=\"{}\" title=\"{}\">{}</a></div><div class=\"searchresult\">{}</div></li>",
        href, title, title, snippet
    )
}

fn results_page(items: &[String]) -> String {
    format!("<html><body><ul class=\"mw-search-results\">{}</ul></body></html>", items.join(""))
}

const MERCURY_INDEX: &str = "<html><body><div class=\"mw-parser-output\"><p>Mercury may refer to:</p><ul>\
<li><a href=\"/wiki/Mercury_(element)\" title=\"Mercury (element)\">Mercury (element)</a>, a chemical element</li>\
<li><a href=\"/wiki/Mercury_(planet)\" title=\"Mercury (planet)\">Mercury (planet)</a>, a planet</li>\
<li><a href=\"/wiki/Mercury_(mythology)\" title=\"Mercury (mythology)\">Mercury (mythology)</a>, a god</li>\
<li><a href=\"/wiki/Freddie_Mercury\" title=\"Freddie Mercury\">Freddie Mercury</a>, a singer</li>\
<li><a href=\"/wiki/Mercury_Records\" title=\"Mercury Records\">Mercury Records</a>, a label</li>\
</ul></div></body></html>";

fn gather(page: &str, index_page: &str) -> Vec<CandidateArticle> {
    let hits = parse_search_page(page).unwrap();
    let mut session = SearchSession::begin(hits);
    while let Some(_url) = session.advance() {
        let expansion = expand_disambiguation(index_page).unwrap();
        session.absorb(expansion);
    }
    session.candidates()
}

#[test]
fn search_address_encodes_spaces() {
    assert_eq!(
        search_url("new york"),
        "https://en.wikipedia.org/w/index.php?search=new+york&title=Special:Search&profile=advanced&fulltext=1&ns0=1"
    );
    assert_eq!(article_url("Mercury (planet)"), "https://en.wikipedia.org/wiki/Mercury_(planet)");
    assert_eq!(page_url("/wiki/Cheese"), "https://en.wikipedia.org/wiki/Cheese");
}

#[test]
fn single_result_resolves_without_prompt() {
    let page = results_page(&[result_item("Cheese", "Cheese is a dairy product.")]);
    let found = gather(&page, MERCURY_INDEX);
    assert_eq!(found.len(), 1);
    match resolve_search("Cheese", &found) {
        Resolution::Resolved(t) => assert_eq!(t, "Cheese"),
        other => panic!("unexpected {:?}", other),
    }
}

#[test]
fn single_candidate_taken_whatever_the_query() {
    let found = vec![cand("Gouda cheese", "a Dutch cheese", "/wiki/Gouda_cheese")];
    match resolve_search("dutch", &found) {
        Resolution::Resolved(t) => assert_eq!(t, "Gouda cheese"),
        other => panic!("unexpected {:?}", other),
    }
}

#[test]
fn exact_title_wins_ignoring_case() {
    let found = vec![
        cand("Paris Hilton", "a person", "/wiki/Paris_Hilton"),
        cand("Paris", "the capital of France", "/wiki/Paris"),
        cand("Paris, Texas", "a city", "/wiki/Paris,_Texas"),
    ];
    match resolve_search("  pARIS ", &found) {
        Resolution::Resolved(t) => assert_eq!(t, "Paris"),
        other => panic!("unexpected {:?}", other),
    }
}

#[test]
fn no_candidates_asks_again() {
    assert!(matches!(resolve_search("x", &vec![]), Resolution::Retry));
}

#[test]
fn disambiguation_result_expands_to_choice() {
    let page = results_page(&[result_item("Mercury", "Mercury may refer to: several things")]);
    let found = gather(&page, MERCURY_INDEX);
    assert_eq!(found.len(), 5);
    let lines = match resolve_search("Mercury", &found) {
        Resolution::NeedsUserChoice(lines) => lines,
        other => panic!("unexpected {:?}", other),
    };
    assert_eq!(lines.len(), 5);
    assert_eq!(lines[0], "Mercury (element) - Mercury (element), a chemical element");
    assert_eq!(pick_candidate("2", &found), Some("Mercury (planet)".to_string()));
    assert_eq!(pick_candidate(" 5\n", &found), Some("Mercury Records".to_string()));
    assert_eq!(pick_candidate("0", &found), None);
    assert_eq!(pick_candidate("6", &found), None);
    assert_eq!(pick_candidate("two", &found), None);
}

#[test]
fn no_results_page_fails() {
    let page = "<html><body><p class=\"mw-search-nonefound\">There were no results matching the query.</p></body></html>";
    assert_eq!(parse_search_page(page).unwrap_err(), SearchError::NoResults);
}

#[test]
fn unexpected_search_layout_fails() {
    let page = "<html><body><p>Nothing useful.</p></body></html>";
    assert_eq!(parse_search_page(page).unwrap_err(), SearchError::Parse(ParseError::MissingResultList));
    let bad = "<html><body><ul class=\"mw-search-results\"><li><div class=\"searchresult\">x</div></li></ul></body></html>";
    assert_eq!(parse_search_page(bad).unwrap_err(), SearchError::Parse(ParseError::MalformedEntry));
}

#[test]
fn search_results_read_in_order() {
    let page = results_page(&[
        result_item("Cheese", "Cheese is a dairy product."),
        result_item("Cheddar cheese", "A hard cheese."),
    ]);
    let hits = parse_search_page(&page).unwrap();
    assert_eq!(hits.len(), 2);
    assert_eq!(hits[0].title, "Cheese");
    assert_eq!(hits[0].url, "/wiki/Cheese");
    assert_eq!(hits[0].description, "Cheese is a dairy product.");
    assert_eq!(hits[1].title, "Cheddar cheese");
    assert!(!is_disambiguation_result(&hits[0]));
    assert!(is_disambiguation_result(&cand("Mercury", "Mercury may refer to: x", "/wiki/Mercury")));
}

#[test]
fn same_url_collapses_in_either_order() {
    let a = cand("Mercury", "first", "/wiki/Mercury");
    let b = cand("Mercury (planet)", "second", "/wiki/Mercury");
    let c = cand("Venus", "third", "/wiki/Venus");
    let mut one = CandidateSet::new();
    one.insert(a.clone());
    one.insert(c.clone());
    one.insert(b.clone());
    let mut two = CandidateSet::new();
    two.insert(b.clone());
    two.insert(c.clone());
    two.insert(a.clone());
    assert_eq!(one.len(), 2);
    assert_eq!(two.len(), 2);
    let v1 = one.to_vec();
    let v2 = two.to_vec();
    assert_eq!(v1[0].description, "second");
    assert_eq!(v2[0].description, "first");
    assert_eq!(v1[1].url, "/wiki/Venus");
}

#[test]
fn duplicate_results_gathered_once() {
    let page = results_page(&[
        result_item("Cheese", "one"),
        result_item("Cheese", "two"),
    ]);
    let found = gather(&page, MERCURY_INDEX);
    assert_eq!(found.len(), 1);
    assert_eq!(found[0].description, "two");
}

#[test]
fn empty_result_list_is_no_results() {
    let page = "<html><body><ul class=\"mw-search-results\"></ul></body></html>";
    assert_eq!(parse_search_page(page).unwrap_err(), SearchError::NoResults);
}

#[test]
fn quoted_result_title_kept() {
    let item = "<li><div class=\"mw-search-result-heading\"><a href=\"/wiki/Heroes\" title=\"&quot;Heroes&quot; (song)\">Heroes</a></div><div class=\"searchresult\">a &lt;song&gt;</div></li>".to_string();
    let hits = parse_search_page(&results_page(&[item])).unwrap();
    assert_eq!(hits[0].title, "\"Heroes\" (song)");
    assert_eq!(hits[0].description, "a <song>");
}
