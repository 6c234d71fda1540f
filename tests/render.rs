use starter_app::catalog::LanguageCatalog;
use starter_app::config::{AppConfig, PikavConfig};
use starter_app::context::WebContext;
use starter_app::locale::{format_locale, FormatLocale, ZonedInstant};
use starter_app::render::{asset_path, finish_document, is_static_path, minify_document, starts_with, PageKind};

fn ctx(lang: &str) -> WebContext {
    let c = LanguageCatalog::new(vec!["en".to_string(), "fr".to_string()], "en".to_string());
    let config = AppConfig {
        base_url: None,
        pikav: PikavConfig { url: String::new(), namespace: "ns".to_string() },
    };
    WebContext::from_language(config, &c, lang.to_string())
}

const NEW_YEAR_2024: ZonedInstant = ZonedInstant { timestamp: 1704067200, utc_offset: 0 };

#[test]
fn format_english_and_french() {
    assert_eq!(ctx("en").format_localized(&NEW_YEAR_2024, "%A %d %B %Y"), "Monday 01 January 2024");
    assert_eq!(ctx("fr").format_localized(&NEW_YEAR_2024, "%A %d %B %Y"), "lundi 01 janvier 2024");
}

#[test]
fn format_unknown_language_as_english() {
    assert_eq!(ctx("de").format_localized(&NEW_YEAR_2024, "%A %d %B %Y"), "Monday 01 January 2024");
    assert_eq!(format_locale(&"de".to_string()), (FormatLocale::EnUs, false));
    assert_eq!(format_locale(&"en".to_string()), (FormatLocale::EnUs, true));
    assert_eq!(format_locale(&"fr".to_string()), (FormatLocale::FrFr, true));
}

#[test]
fn format_applies_offset() {
    let evening = ZonedInstant { timestamp: 1704067200, utc_offset: -3600 };
    assert_eq!(ctx("en").format_localized(&evening, "%Y-%m-%d %H:%M"), "2023-12-31 23:00");
}

#[test]
fn format_with_invalid_pattern_is_empty() {
    assert_eq!(ctx("en").format_localized(&NEW_YEAR_2024, "%Q"), "");
}

#[test]
fn minify_keeps_text() {
    let html = "<div>\n    <p>Hello   world</p>\n    <p>Bonjour</p>\n</div>".to_string();
    let out = minify_document(html.clone());
    assert!(out.len() < html.len());
    assert!(out.contains("Hello world"));
    assert!(out.contains("Bonjour"));
}

#[test]
fn undecodable_minified_output_keeps_document() {
    let raw = "<p>Hi</p>".to_string();
    assert_eq!(finish_document(raw.clone(), vec![0xff, 0xfe, 0x41]), raw);
    assert_eq!(finish_document(raw, b"<p>Hi".to_vec()), "<p>Hi");
}

#[test]
fn page_statuses() {
    assert_eq!(PageKind::Success.status(), 200);
    assert_eq!(PageKind::NotFound.status(), 404);
    assert_eq!(PageKind::UnprocessableEntity.status(), 422);
    assert_eq!(PageKind::InternalServerError.status(), 500);
}

#[test]
fn base_path_is_stripped() {
    assert_eq!(asset_path("/app/static/a.css", &Some("/app".to_string())), "/static/a.css");
    assert_eq!(asset_path("/static/a.css", &Some("/app".to_string())), "/static/a.css");
    assert_eq!(asset_path("/static/a.css", &None), "/static/a.css");
    assert_eq!(asset_path("/ap", &Some("/app".to_string())), "/ap");
}

#[test]
fn static_paths() {
    assert!(is_static_path("/static/css/main.css"));
    assert!(!is_static_path("/feed"));
    assert!(!is_static_path("/stat"));
    assert!(starts_with("héllo", "hé"));
    assert!(!starts_with("hello", "hé"));
}

fn app_ctx() -> starter_app::context::AppContext {
    let c = LanguageCatalog::new(vec!["en".to_string(), "fr".to_string()], "en".to_string());
    let config = AppConfig {
        base_url: None,
        pikav: PikavConfig { url: String::new(), namespace: "ns".to_string() },
    };
    let s = vec![vec!["fr".to_string()]];
    starter_app::context::AppContext::for_request(
        Some(starter_app::config::JwtClaims { sub: "u".to_string() }),
        Some(&s),
        config,
        &c,
    )
    .ok()
    .unwrap()
}

#[test]
fn error_pages_carry_their_status() {
    let a = app_ctx();
    let body = "<main>\n   <h1>Oops</h1>\n</main>".to_string();
    assert_eq!(a.html(body.clone()).0, 200);
    assert_eq!(a.not_found_page(body.clone()).0, 404);
    assert_eq!(a.unprocessable_entity(body.clone()).0, 422);
    assert_eq!(a.internal_server_error(body.clone()).0, 500);
    let (status, doc) = a.internal_server_error_page(body.clone());
    assert_eq!(status, 500);
    assert!(doc.contains("Oops"));
    assert!(doc.len() < body.len());
}

#[test]
fn web_html_minifies() {
    let doc = ctx("en").html("<p>  a  <b>c</b>  </p>".to_string());
    assert!(doc.contains("<b>c</b>"));
    assert!(doc.len() < "<p>  a  <b>c</b>  </p>".len());
}

#[test]
fn malformed_fragment_does_not_fail() {
    let doc = ctx("en").html("<div><p>unclosed <b>text".to_string());
    assert!(doc.contains("unclosed"));
    assert!(doc.contains("text"));
}
