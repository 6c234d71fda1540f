use starter_app::catalog::LanguageCatalog;
use starter_app::config::{AppConfig, PikavConfig};
use starter_app::context::WebContext;
use starter_app::language::resolve_language;
use starter_app::sources::{accept_language, language_sources, parse_quality, query_language, split, trim};

fn en_fr() -> Vec<String> {
    vec!["en".to_string(), "fr".to_string()]
}

#[test]
fn query_and_header_example() {
    let s = language_sources(Some("lang=fr"), "lang", Some("en-US,en;q=0.9"));
    assert_eq!(s, vec![vec!["fr".to_string()], vec!["en-US".to_string(), "en".to_string()]]);
    assert_eq!(resolve_language(&s, &en_fr(), &"en".to_string()), "fr");
}

#[test]
fn header_only_unsupported_example() {
    let s = language_sources(None, "lang", Some("es;q=1"));
    assert_eq!(s, vec![Vec::<String>::new(), vec!["es".to_string()]]);
    assert_eq!(resolve_language(&s, &en_fr(), &"en".to_string()), "en");
}

#[test]
fn malformed_inputs_fall_back() {
    let s = language_sources(Some("lang=%%%&lang="), "lang", Some(";q=0.5, ,,q"));
    assert_eq!(resolve_language(&s, &en_fr(), &"fr".to_string()), "fr");
}

#[test]
fn header_is_ordered_by_weight() {
    assert_eq!(
        accept_language("de;q=0.5, fr;q=0.8, en, it;q=0.8, es;q=0"),
        vec!["en".to_string(), "fr".to_string(), "it".to_string(), "de".to_string()]
    );
    assert_eq!(accept_language(""), Vec::<String>::new());
    assert_eq!(accept_language("fr;q=1.0,en;q=0.001"), vec!["fr".to_string(), "en".to_string()]);
    assert_eq!(accept_language("fr;q=abc"), vec!["fr".to_string()]);
}

#[test]
fn header_priority_beats_order() {
    let s = language_sources(None, "lang", Some("en;q=0.1,fr"));
    assert_eq!(resolve_language(&s, &en_fr(), &"en".to_string()), "fr");
}

#[test]
fn query_values() {
    assert_eq!(query_language("a=1&lang=fr&lang=en", "lang"), vec!["fr".to_string(), "en".to_string()]);
    assert_eq!(query_language("language=fr&xlang=de", "lang"), Vec::<String>::new());
    assert_eq!(query_language("", "lang"), Vec::<String>::new());
    assert_eq!(query_language("lang=", "lang"), vec![String::new()]);
}

#[test]
fn quality_values() {
    assert_eq!(parse_quality("0.9"), Some(900));
    assert_eq!(parse_quality("0.125"), Some(125));
    assert_eq!(parse_quality("1"), Some(1000));
    assert_eq!(parse_quality("1.000"), Some(1000));
    assert_eq!(parse_quality("0"), Some(0));
    assert_eq!(parse_quality("1.5"), None);
    assert_eq!(parse_quality("0.1234"), None);
    assert_eq!(parse_quality("2"), None);
    assert_eq!(parse_quality(""), None);
}

#[test]
fn split_and_trim() {
    assert_eq!(split("a,,b", ','), vec!["a".to_string(), String::new(), "b".to_string()]);
    assert_eq!(split("", ','), vec![String::new()]);
    assert_eq!(trim(" \t fr-CA \t"), "fr-CA");
    assert_eq!(trim("   "), "");
}

#[test]
fn request_context_from_raw_request_data() {
    let c = LanguageCatalog::new(en_fr(), "en".to_string());
    let config = AppConfig {
        base_url: None,
        pikav: PikavConfig { url: String::new(), namespace: "ns".to_string() },
    };
    let s = language_sources(Some("page=2"), "lang", Some("fr-FR,fr;q=0.9,en;q=0.8"));
    let ctx = WebContext::for_request(config, &c, Some(&s)).ok().unwrap();
    assert_eq!(ctx.lang, "fr");
}
