use wikireader::candidates::CandidateArticle;
use wikireader::classify::{classify_page, classify_parts, PageClassification};
use wikireader::expand::{expand_disambiguation, expand_items, ParseError};
use wikireader::resolve::article_paragraphs;

fn s(x: &str) -> String {
    x.to_string()
}

const MISSING_PAGE: &str = "<html><body><div id=\"mw-content-text\"><p><b>Wikipedia does not have an article with this exact name.</b> Please search.</p></div></body></html>";

const MISSING_ON_PAGE: &str = "<html><body><p><b>Wikipedia does not have an article on</b> this subject.</p></body></html>";

const REFER_PAGE: &str = "<html><body><div id=\"mw-content-text\"><p><b>Mercury</b> may refer to:</p><ul><li>x</li></ul></div></body></html>";

const CATEGORY_PAGE: &str = "<html><body><div id=\"mw-content-text\"><p>Lists of things.</p></div><a href=\"/wiki/Category:Disambiguation_pages\">Disambiguation pages</a></body></html>";

const CONTENT_PAGE: &str = "<html><body><div id=\"mw-content-text\"><p><b>Cheese</b> is a dairy product.</p><p>It is made from milk.</p></div></body></html>";

const MERCURY_INDEX: &str = "<html><body><div class=\"mw-content-ltr mw-parser-output\"><p>Mercury may refer to:</p>\
<ul><li><a href=\"/wiki/Mercury_(element)\" title=\"Mercury (element)\">Mercury (element)</a>, a chemical element</li>\
<li><a href=\"/wiki/Mercury_(planet)\" title=\"Mercury (planet)\">Mercury (planet)</a>, the planet nearest the Sun</li>\
<li>See also below</li></ul>\
<ul><li><a href=\"/wiki/Mercury_(mythology)\" title=\"Mercury (mythology)\">Mercury (mythology)</a>, a Roman god</li>\
<li><a href=\"/wiki/Freddie_Mercury\" title=\"Freddie Mercury\">Freddie Mercury</a>, a singer</li>\
<li><a href=\"/wiki/Mercury_Records\" title=\"Mercury Records\">Mercury Records</a>, a label</li></ul>\
</div></body></html>";

#[test]
fn missing_page_is_not_found() {
    assert_eq!(classify_page(MISSING_PAGE), PageClassification::NotFound);
    assert_eq!(classify_page(MISSING_ON_PAGE), PageClassification::NotFound);
}

#[test]
fn refer_phrase_marks_disambiguation() {
    assert_eq!(classify_page(REFER_PAGE), PageClassification::Disambiguation);
}

#[test]
fn category_link_marks_disambiguation() {
    assert_eq!(classify_page(CATEGORY_PAGE), PageClassification::Disambiguation);
}

#[test]
fn ordinary_page_is_content() {
    assert_eq!(classify_page(CONTENT_PAGE), PageClassification::Content);
}

#[test]
fn classification_is_stable() {
    for page in [MISSING_PAGE, REFER_PAGE, CATEGORY_PAGE, CONTENT_PAGE] {
        assert_eq!(classify_page(page), classify_page(page));
    }
}

#[test]
fn missing_marker_wins_over_disambiguation() {
    let bold = vec![s("Wikipedia does not have an article on"), s("x")];
    assert_eq!(classify_parts(&bold, &Some(s("Mercury may refer to:")), true), PageClassification::NotFound);
    assert_eq!(classify_parts(&vec![], &Some(s("It may refer to: a")), false), PageClassification::Disambiguation);
    assert_eq!(classify_parts(&vec![], &None, true), PageClassification::Disambiguation);
    assert_eq!(classify_parts(&vec![s("bold")], &Some(s("plain")), false), PageClassification::Content);
}

#[test]
fn expansion_keeps_linked_items_only() {
    let found = expand_disambiguation(MERCURY_INDEX).unwrap();
    assert_eq!(found.len(), 5);
    assert_eq!(found[0].title, "Mercury (element)");
    assert_eq!(found[0].url, "/wiki/Mercury_(element)");
    assert_eq!(found[0].description, "Mercury (element), a chemical element");
    assert_eq!(found[1].title, "Mercury (planet)");
    assert_eq!(found[4].title, "Mercury Records");
}

#[test]
fn expansion_of_items_counts_links() {
    let items = vec![
        s("<li><a href=\"/wiki/A\" title=\"A\">A</a> first</li>"),
        s("<li>no link here</li>"),
        s("<li><a href=\"/wiki/B\" title=\"B\">B</a> second</li>"),
        s("<li>another plain item</li>"),
    ];
    let found: Vec<CandidateArticle> = expand_items(&items).unwrap();
    assert_eq!(found.len(), 2);
    assert_eq!(found[0].title, "A");
    assert_eq!(found[1].url, "/wiki/B");
    assert_eq!(expand_items(&vec![]).unwrap().len(), 0);
}

#[test]
fn expansion_rejects_link_without_title() {
    let items = vec![s("<li><a href=\"/wiki/A\">A</a></li>")];
    assert_eq!(expand_items(&items).unwrap_err(), ParseError::MalformedEntry);
}

#[test]
fn expansion_needs_content_container() {
    assert_eq!(expand_disambiguation(CONTENT_PAGE).unwrap_err(), ParseError::MissingContent);
}

#[test]
fn paragraphs_in_order() {
    let ps = article_paragraphs(CONTENT_PAGE).unwrap();
    assert_eq!(ps, vec![s("Cheese is a dairy product."), s("It is made from milk.")]);
    assert_eq!(article_paragraphs(MISSING_ON_PAGE).unwrap_err(), ParseError::MissingContent);
}

#[test]
fn expansion_gathers_each_target_once() {
    let page = "<html><body><div class=\"mw-parser-output\"><ul>\
<li><a href=\"/wiki/A\" title=\"A\">A</a> first</li>\
<li><a href=\"/wiki/B\" title=\"B\">B</a> second</li>\
<li><a href=\"/wiki/A\" title=\"A\">A</a> again</li>\
</ul></div></body></html>";
    let found = expand_disambiguation(page).unwrap();
    assert_eq!(found.len(), 2);
    assert_eq!(found[0].url, "/wiki/A");
    assert_eq!(found[0].description, "A again");
    assert_eq!(found[1].url, "/wiki/B");
}

#[test]
fn quoted_titles_survive_requery() {
    let page = "<html><body><div class=\"mw-parser-output\"><ul>\
<li><a href=\"/wiki/Heroes_(David_Bowie_album)\" title=\"&quot;Heroes&quot; (David Bowie album)\">&quot;Heroes&quot; &amp; more</a></li>\
</ul></div></body></html>";
    let found = expand_disambiguation(page).unwrap();
    assert_eq!(found.len(), 1);
    assert_eq!(found[0].title, "\"Heroes\" (David Bowie album)");
    assert_eq!(found[0].description, "\"Heroes\" & more");
}
