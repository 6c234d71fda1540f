use crate::catalog::{handle_language, CatalogHandle, LanguageCatalog};
use crate::config::{AppConfig, JwtClaims};
use crate::language::{
    canonical_tag, flatten, lemma_first_supported_member, parsed, resolve_language, resolved,
    source_views, views,
};
use vstd::prelude::*;
use vstd::string::*;

verus! {

/// Why a request is turned away before any context exists.
#[derive(Clone, Copy, PartialEq, Eq, Structural, Debug)]
pub enum RequestError {
    /// The request data could not be read.
    BadRequest,
    /// The bearer token is missing or failed verification.
    Unauthorized,
}

impl RequestError {
    /// The HTTP status of the rejection.
    pub fn status(&self) -> (r: u16)
        ensures
            r == match self {
                RequestError::BadRequest => 400u16,
                RequestError::Unauthorized => 401u16,
            },
    {
        match self {
            RequestError::BadRequest => 400,
            RequestError::Unauthorized => 401,
        }
    }

    /// The short body sent with the rejection; not localized, since no
    /// language is known yet.
    pub fn body(&self) -> (r: &'static str)
        ensures
            r@ == match self {
                RequestError::BadRequest => "Bad Request"@,
                RequestError::Unauthorized => "Unauthorized"@,
            },
    {
        match self {
            RequestError::BadRequest => "Bad Request",
            RequestError::Unauthorized => "Unauthorized",
        }
    }
}

/// What views render with: configuration, language and message bundles.
#[derive(Clone)]
pub struct WebContext {
    pub config: AppConfig,
    pub lang: String,
    pub fl_loader: CatalogHandle,
}

/// The language a request resolves to against `catalog`.
pub open spec fn request_language(
    sources: Seq<Vec<String>>,
    catalog: LanguageCatalog,
) -> Seq<char> {
    resolved(source_views(sources), catalog.supported(), catalog.fallback@)
}

impl WebContext {
    /// `uri` under the configured base path.
    pub open spec fn url(&self, uri: Seq<char>) -> Seq<char> {
        match self.config.base_url {
            Some(b) => b@ + uri,
            None => uri,
        }
    }

    /// Prefixes `uri` with the base path, if one is configured.
    pub fn create_url(&self, uri: &str) -> (r: String)
        ensures
            r@ == self.url(uri@),
    {
        match &self.config.base_url {
            Some(base_url) => {
                let mut r = base_url.clone();
                r.append(uri);
                r
            },
            None => String::from_str(uri),
        }
    }

    /// The URL of a static asset.
    pub fn create_static_url(&self, uri: &str) -> (r: String)
        ensures
            r@ == self.url("/static/"@ + uri@),
    {
        let mut path = String::from_str("/static/");
        path.append(uri);
        self.create_url(path.as_str())
    }

    /// The URL of a stylesheet among the static assets.
    pub fn create_css_url(&self, uri: &str) -> (r: String)
        ensures
            r@ == self.url("/static/"@ + ("css/"@ + uri@)),
    {
        let mut path = String::from_str("css/");
        path.append(uri);
        self.create_static_url(path.as_str())
    }

    /// The URL of a realtime channel under the configured namespace; the
    /// base path does not apply.
    pub fn create_sse_url(&self, uri: &str) -> (r: String)
        ensures
            r@ == "/pikav/"@ + self.config.pikav.namespace@ + uri@,
    {
        let mut r = String::from_str("/pikav/");
        r.append(self.config.pikav.namespace.as_str());
        r.append(uri);
        r
    }

    /// A context for a language chosen elsewhere (a background job that
    /// stored the user's language): the bundles follow the tag as parsed,
    /// the language is kept as given.
    pub fn from_language(config: AppConfig, catalog: &LanguageCatalog, lang: String) -> (r: Self)
        ensures
            r.config == config,
            r.lang == lang,
            r.fl_loader.fallback@ == catalog.fallback@,
            views(r.fl_loader.current_languages@) == match canonical_tag(lang@) {
                Some(t) => catalog.selection(t),
                None => seq![catalog.fallback@],
            },
    {
        let fl_loader = catalog.select_tag(lang.as_str());
        WebContext { config, lang, fl_loader }
    }

    /// Builds the context of a request from its candidate tags grouped by
    /// source (`None` where the request data could not be read).
    pub fn for_request(
        config: AppConfig,
        catalog: &LanguageCatalog,
        sources: Option<&Vec<Vec<String>>>,
    ) -> (r: Result<Self, RequestError>)
        requires
            catalog.wf(),
        ensures
            sources is None <==> r == Err::<Self, RequestError>(RequestError::BadRequest),
            sources matches Some(s) ==> r matches Ok(c) && c.config == config && c.lang@
                == request_language(s@, *catalog) && views(c.fl_loader.current_languages@)
                == catalog.selection(c.lang@) && c.fl_loader.fallback@ == catalog.fallback@,
    {
        match sources {
            None => Err(RequestError::BadRequest),
            Some(s) => {
                let resolved_lang = resolve_language(s, &catalog.languages, &catalog.fallback);
                proof {
                    lemma_first_supported_member(
                        parsed(flatten(source_views(s@))),
                        catalog.supported(),
                        catalog.fallback@,
                    );
                    lemma_selection_language(*catalog, resolved_lang@);
                }
                let fl_loader = catalog.select(&resolved_lang);
                let lang = fl_loader.language(catalog);
                Ok(WebContext { config, lang, fl_loader })
            },
        }
    }
}

/// What the feed subsystem needs to run a command for this request.
pub struct CommandBinding {
    pub user_id: String,
    /// Unique to the request, for tracing the command downstream.
    pub request_id: String,
    pub user_lang: String,
}

/// What the feed subsystem needs to answer a query for this request.
pub struct QueryBinding {
    pub user_id: String,
}

/// The context of an authenticated request.
pub struct AppContext {
    pub web_context: WebContext,
    pub feed_cmd: CommandBinding,
    pub feed_query: QueryBinding,
}

/// Relies on `ulid::Ulid::new` and its `Display`: a fresh identifier,
/// written as 26 characters.
#[verifier::external_body]
fn new_request_id() -> (r: String)
    ensures
        r@.len() == 26,
{
    ulid::Ulid::new().to_string()
}

impl AppContext {
    /// Whether `a` is the context composed for the caller `claims`, with
    /// the request's candidate tags `sources`.
    pub open spec fn composed_from(
        self,
        claims: JwtClaims,
        sources: Seq<Vec<String>>,
        config: AppConfig,
        catalog: LanguageCatalog,
    ) -> bool {
        &&& self.web_context.config == config
        &&& self.web_context.lang@ == request_language(sources, catalog)
        &&& views(self.web_context.fl_loader.current_languages@) == catalog.selection(
            self.web_context.lang@,
        )
        &&& self.web_context.fl_loader.fallback@ == catalog.fallback@
        &&& self.feed_cmd.user_id@ == claims.sub@
        &&& self.feed_cmd.user_lang@ == self.web_context.lang@
        &&& self.feed_query.user_id@ == claims.sub@
    }

    /// Composes the context of an authenticated request. The token is
    /// checked first: a caller without verified claims is turned away before
    /// the language is looked at.
    pub fn compose(
        claims: Option<JwtClaims>,
        sources: Option<&Vec<Vec<String>>>,
        config: AppConfig,
        catalog: &LanguageCatalog,
        request_id: String,
    ) -> (r: Result<Self, RequestError>)
        requires
            catalog.wf(),
        ensures
            claims is None ==> r == Err::<Self, RequestError>(RequestError::Unauthorized),
            claims is Some && sources is None ==> r == Err::<Self, RequestError>(
                RequestError::BadRequest,
            ),
            claims is Some && sources is Some ==> (r matches Ok(a) && a.composed_from(
                claims->Some_0,
                sources->Some_0@,
                config,
                *catalog,
            ) && a.feed_cmd.request_id == request_id),
    {
        let claims = match claims {
            None => { return Err(RequestError::Unauthorized); },
            Some(c) => c,
        };
        let web_context = match WebContext::for_request(config, catalog, sources) {
            Err(e) => { return Err(e); },
            Ok(w) => w,
        };
        let feed_cmd = CommandBinding {
            user_id: claims.sub.clone(),
            request_id,
            user_lang: web_context.lang.clone(),
        };
        let feed_query = QueryBinding { user_id: claims.sub };
        Ok(AppContext { web_context, feed_cmd, feed_query })
    }

    /// Composes the context of an authenticated request under a fresh
    /// request identifier.
    pub fn for_request(
        claims: Option<JwtClaims>,
        sources: Option<&Vec<Vec<String>>>,
        config: AppConfig,
        catalog: &LanguageCatalog,
    ) -> (r: Result<Self, RequestError>)
        requires
            catalog.wf(),
        ensures
            claims is None ==> r == Err::<Self, RequestError>(RequestError::Unauthorized),
            claims is Some && sources is None ==> r == Err::<Self, RequestError>(
                RequestError::BadRequest,
            ),
            claims is Some && sources is Some ==> (r matches Ok(a) && a.composed_from(
                claims->Some_0,
                sources->Some_0@,
                config,
                *catalog,
            ) && a.feed_cmd.request_id@.len() == 26),
    {
        let request_id = new_request_id();
        AppContext::compose(claims, sources, config, catalog, request_id)
    }
}

/// A supported language selects bundles whose rendering language is itself.
pub proof fn lemma_selection_language(catalog: LanguageCatalog, lang: Seq<char>)
    requires
        catalog.wf(),
        catalog.supported().contains(lang) || lang == catalog.fallback@,
    ensures
        handle_language(catalog.selection(lang), catalog.supported(), catalog.fallback@) == lang,
{
    let sel = catalog.selection(lang);
    if catalog.supported().contains(lang) && lang != catalog.fallback@ {
        assert(sel[0] == lang);
    } else {
        assert(sel[0] == catalog.fallback@);
    }
}

} // verus!
