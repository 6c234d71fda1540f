use starter_app::catalog::LanguageCatalog;
use starter_app::config::{AppConfig, JwtClaims, PikavConfig};
use starter_app::context::{AppContext, RequestError, WebContext};

fn config(base: Option<&str>) -> AppConfig {
    AppConfig {
        base_url: base.map(|b| b.to_string()),
        pikav: PikavConfig { url: "http://localhost:6750".to_string(), namespace: "starter".to_string() },
    }
}

fn catalog() -> LanguageCatalog {
    LanguageCatalog::new(vec!["en".to_string(), "fr".to_string()], "en".to_string())
}

fn sources(query: &[&str], header: &[&str]) -> Vec<Vec<String>> {
    vec![
        query.iter().map(|s| s.to_string()).collect(),
        header.iter().map(|s| s.to_string()).collect(),
    ]
}

#[test]
fn urls_under_base_path() {
    let c = catalog();
    let ctx = WebContext::from_language(config(Some("/app")), &c, "en".to_string());
    assert_eq!(ctx.create_url("/feed"), "/app/feed");
    assert_eq!(ctx.create_static_url("logo.svg"), "/app/static/logo.svg");
    assert_eq!(ctx.create_css_url("main.css"), "/app/static/css/main.css");
    assert_eq!(ctx.create_sse_url("/feed"), "/pikav/starter/feed");
}

#[test]
fn urls_without_base_path() {
    let c = catalog();
    let ctx = WebContext::from_language(config(None), &c, "en".to_string());
    assert_eq!(ctx.create_url("/feed"), "/feed");
    assert_eq!(ctx.create_static_url("logo.svg"), "/static/logo.svg");
    assert_eq!(ctx.create_css_url("main.css"), "/static/css/main.css");
    assert_eq!(ctx.create_sse_url(""), "/pikav/starter");
}

#[test]
fn from_language_keeps_given_tag() {
    let c = catalog();
    let ctx = WebContext::from_language(config(None), &c, "fr".to_string());
    assert_eq!(ctx.lang, "fr");
    assert_eq!(ctx.fl_loader.current_languages, vec!["fr".to_string(), "en".to_string()]);
    let ctx = WebContext::from_language(config(None), &c, "de".to_string());
    assert_eq!(ctx.lang, "de");
    assert_eq!(ctx.fl_loader.current_languages, vec!["en".to_string()]);
}

#[test]
fn web_context_for_request() {
    let c = catalog();
    let s = sources(&["fr"], &["en-US", "en"]);
    let ctx = WebContext::for_request(config(None), &c, Some(&s)).ok().unwrap();
    assert_eq!(ctx.lang, "fr");
    assert_eq!(ctx.fl_loader.current_languages, vec!["fr".to_string(), "en".to_string()]);
    let s = sources(&[], &["es"]);
    let ctx = WebContext::for_request(config(None), &c, Some(&s)).ok().unwrap();
    assert_eq!(ctx.lang, "en");
}

#[test]
fn unreadable_request_is_bad_request() {
    let c = catalog();
    let r = WebContext::for_request(config(None), &c, None);
    assert!(matches!(r, Err(RequestError::BadRequest)));
}

#[test]
fn missing_claims_is_unauthorized() {
    let c = catalog();
    let s = sources(&["fr"], &[]);
    let r = AppContext::for_request(None, Some(&s), config(None), &c);
    assert!(matches!(r, Err(RequestError::Unauthorized)));
    let r = AppContext::for_request(None, None, config(None), &c);
    assert!(matches!(r, Err(RequestError::Unauthorized)));
}

#[test]
fn authenticated_but_unreadable_is_bad_request() {
    let c = catalog();
    let claims = JwtClaims { sub: "user-1".to_string() };
    let r = AppContext::for_request(Some(claims), None, config(None), &c);
    assert!(matches!(r, Err(RequestError::BadRequest)));
}

#[test]
fn authenticated_context_is_composed() {
    let c = catalog();
    let claims = JwtClaims { sub: "user-1".to_string() };
    let s = sources(&[], &["fr-FR", "fr"]);
    let a = AppContext::for_request(Some(claims), Some(&s), config(Some("/app")), &c).ok().unwrap();
    assert_eq!(a.web_context.lang, "fr");
    assert_eq!(a.feed_cmd.user_lang, "fr");
    assert_eq!(a.feed_cmd.user_id, "user-1");
    assert_eq!(a.feed_query.user_id, "user-1");
    assert_eq!(a.feed_cmd.request_id.len(), 26);
    assert_eq!(a.web_context.create_url("/x"), "/app/x");
}

#[test]
fn request_ids_differ() {
    let c = catalog();
    let s = sources(&[], &[]);
    let a = AppContext::for_request(Some(JwtClaims { sub: "u".to_string() }), Some(&s), config(None), &c)
        .ok()
        .unwrap();
    let b = AppContext::for_request(Some(JwtClaims { sub: "u".to_string() }), Some(&s), config(None), &c)
        .ok()
        .unwrap();
    assert_ne!(a.feed_cmd.request_id, b.feed_cmd.request_id);
}

#[test]
fn compose_keeps_given_request_id() {
    let c = catalog();
    let s = sources(&["en"], &[]);
    let a = AppContext::compose(
        Some(JwtClaims { sub: "u".to_string() }),
        Some(&s),
        config(None),
        &c,
        "01ARZ3NDEKTSV4RRFFQ69G5FAV".to_string(),
    )
    .ok()
    .unwrap();
    assert_eq!(a.feed_cmd.request_id, "01ARZ3NDEKTSV4RRFFQ69G5FAV");
    assert_eq!(a.web_context.lang, "en");
}

#[test]
fn concurrent_requests_keep_their_languages() {
    let c = catalog();
    let fr = sources(&["fr"], &[]);
    let en = sources(&[], &["en"]);
    let a = AppContext::for_request(Some(JwtClaims { sub: "a".to_string() }), Some(&fr), config(None), &c)
        .ok()
        .unwrap();
    let b = AppContext::for_request(Some(JwtClaims { sub: "b".to_string() }), Some(&en), config(None), &c)
        .ok()
        .unwrap();
    assert_eq!(a.web_context.lang, "fr");
    assert_eq!(b.web_context.lang, "en");
    assert_eq!(a.feed_cmd.user_id, "a");
    assert_eq!(b.feed_cmd.user_id, "b");
}

#[test]
fn rejection_statuses_and_bodies() {
    assert_eq!(RequestError::BadRequest.status(), 400);
    assert_eq!(RequestError::Unauthorized.status(), 401);
    assert_eq!(RequestError::BadRequest.body(), "Bad Request");
    assert_eq!(RequestError::Unauthorized.body(), "Unauthorized");
}
