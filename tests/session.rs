use wikireader::classify::PageClassification;
use wikireader::resolve::{choose_option, draw_random_title, menu, menu_entries, settle_random, MenuChoice, SessionConfig};
use wikireader::search::article_url;

#[test]
fn default_session_resumes_cheese() {
    let cfg = SessionConfig::default();
    assert_eq!(cfg.article_name, "Cheese");
    assert_eq!(cfg.resume_title(), "Cheese");
    assert_eq!(SessionConfig::remembering("Gouda").resume_title(), "Gouda");
}

#[test]
fn menu_reads_choices() {
    assert_eq!(menu("1"), Some(MenuChoice::Resume));
    assert_eq!(menu(" 2 \n"), Some(MenuChoice::Search));
    assert_eq!(menu("3"), Some(MenuChoice::Random));
    assert_eq!(menu("4"), Some(MenuChoice::Exit));
    assert_eq!(menu("5"), None);
    assert_eq!(menu("0"), None);
    assert_eq!(menu("exit"), None);
    assert_eq!(menu(""), None);
    assert_eq!(menu_entries().len(), 4);
    assert_eq!(menu_entries()[3], "Exit");
}

#[test]
fn numbered_choice_bounds() {
    assert_eq!(choose_option("1", 1), Some(1));
    assert_eq!(choose_option("2", 1), None);
    assert_eq!(choose_option("-1", 3), None);
    assert_eq!(choose_option("3", 0), None);
    assert_eq!(choose_option("+2", 3), Some(2));
    assert_eq!(choose_option("+", 3), None);
    assert_eq!(choose_option("007", 10), Some(7));
    assert_eq!(choose_option("1 2", 20), None);
    assert_eq!(choose_option("18446744073709551616", usize::MAX), None);
}

#[test]
fn random_draw_keeps_content_only() {
    assert_eq!(settle_random("cheese".to_string(), PageClassification::NotFound), None);
    assert_eq!(settle_random("mercury".to_string(), PageClassification::Disambiguation), None);
    assert_eq!(settle_random("cheese".to_string(), PageClassification::Content), Some("cheese".to_string()));
}

#[test]
fn scripted_draws_stop_at_first_content() {
    let script = [
        ("zzzq", PageClassification::NotFound),
        ("mercury", PageClassification::Disambiguation),
        ("cheese", PageClassification::Content),
        ("bread", PageClassification::Content),
    ];
    let mut draws = 0;
    let mut chosen = None;
    for (word, class) in script.iter() {
        draws += 1;
        if let Some(t) = settle_random(word.to_string(), *class) {
            chosen = Some(t);
            break;
        }
    }
    assert_eq!(draws, 3);
    assert_eq!(chosen, Some("cheese".to_string()));
}

#[test]
fn random_title_has_its_address() {
    let (word, url) = draw_random_title();
    assert!(!word.is_empty());
    assert!(url.len() > "https://en.wikipedia.org/wiki/".len());
    assert_eq!(url, article_url(&word));
}
