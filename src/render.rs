use crate::context::{AppContext, WebContext};
use vstd::prelude::*;
use vstd::string::*;
use vstd::utf8::{decode_utf8, valid_utf8};

verus! {

/// The bytes the HTML minifier makes of a document.
pub uninterp spec fn minified(html: Seq<char>) -> Seq<u8>;

/// Relies on `minify_html::minify` with the default configuration: the
/// output depends on the input alone.
#[verifier::external_body]
fn minify_bytes(html: &str) -> (r: Vec<u8>)
    ensures
        r@ == minified(html@),
{
    minify_html::minify(html.as_bytes(), &minify_html::Cfg::new())
}

/// Relies on `String::from_utf8`: it accepts exactly the valid UTF-8 byte
/// strings and keeps their text.
#[verifier::external_body]
fn utf8_string(bytes: Vec<u8>) -> (r: Option<String>)
    ensures
        r is Some <==> valid_utf8(bytes@),
        r matches Some(s) ==> s@ == decode_utf8(bytes@),
{
    String::from_utf8(bytes).ok()
}

/// The document sent to the client: the minified text where it is valid
/// UTF-8, else the document as rendered.
pub open spec fn finished(raw: Seq<char>, min: Seq<u8>) -> Seq<char> {
    if valid_utf8(min) {
        decode_utf8(min)
    } else {
        raw
    }
}

/// Chooses between a rendered document and its minified bytes; bytes that
/// do not decode leave the document unminified.
pub fn finish_document(raw: String, min: Vec<u8>) -> (r: String)
    ensures
        r@ == finished(raw@, min@),
{
    match utf8_string(min) {
        Some(s) => s,
        None => raw,
    }
}

/// Minifies a rendered document, falling back to the document itself
/// where the minifier's output is unusable.
pub fn minify_document(html: String) -> (r: String)
    ensures
        r@ == finished(html@, minified(html@)),
{
    let min = minify_bytes(html.as_str());
    finish_document(html, min)
}

/// The pages rendered for known outcomes.
#[derive(Clone, Copy, PartialEq, Eq, Structural, Debug)]
pub enum PageKind {
    Success,
    NotFound,
    UnprocessableEntity,
    InternalServerError,
}

impl PageKind {
    /// The HTTP status of a page of this kind.
    pub open spec fn status_spec(self) -> u16 {
        match self {
            PageKind::Success => 200u16,
            PageKind::NotFound => 404u16,
            PageKind::UnprocessableEntity => 422u16,
            PageKind::InternalServerError => 500u16,
        }
    }

    /// The HTTP status sent with the page.
    pub fn status(&self) -> (r: u16)
        ensures
            r == self.status_spec(),
    {
        match self {
            PageKind::Success => 200,
            PageKind::NotFound => 404,
            PageKind::UnprocessableEntity => 422,
            PageKind::InternalServerError => 500,
        }
    }
}

/// Whether `s` begins with `prefix`.
pub fn starts_with(s: &str, prefix: &str) -> (r: bool)
    ensures
        r == prefix@.is_prefix_of(s@),
{
    let n = prefix.unicode_len();
    let m = s.unicode_len();
    if n > m {
        return false;
    }
    let mut i: usize = 0;
    while i < n
        invariant
            n == prefix@.len(),
            m == s@.len(),
            n <= m,
            i <= n,
            forall|j: int| 0 <= j < i ==> prefix@[j] == s@[j],
        decreases n - i,
    {
        if prefix.get_char(i) != s.get_char(i) {
            return false;
        }
        i += 1;
    }
    true
}

/// The request path with the base path taken off its front, where it is
/// there.
pub open spec fn asset_path_of(uri: Seq<char>, base_url: Option<Seq<char>>) -> Seq<char> {
    match base_url {
        Some(b) => if b.is_prefix_of(uri) {
            uri.subrange(b.len() as int, uri.len() as int)
        } else {
            uri
        },
        None => uri,
    }
}

/// The path under which a static asset is looked up.
pub fn asset_path(uri: &str, base_url: &Option<String>) -> (r: String)
    ensures
        r@ == asset_path_of(
            uri@,
            match base_url {
                Some(b) => Some(b@),
                None => None,
            },
        ),
{
    match base_url {
        Some(b) => {
            if starts_with(uri, b.as_str()) {
                let n = b.as_str().unicode_len();
                let m = uri.unicode_len();
                String::from_str(uri.substring_char(n, m))
            } else {
                String::from_str(uri)
            }
        },
        None => String::from_str(uri),
    }
}

/// Whether a path names a static asset rather than a page.
pub fn is_static_path(path: &str) -> (r: bool)
    ensures
        r == "/static/"@.is_prefix_of(path@),
{
    starts_with(path, "/static/")
}

impl WebContext {
    /// The document sent for a view rendered in this context: minified,
    /// or as rendered where minifying fails.
    pub fn html(&self, rendered: String) -> (r: String)
        ensures
            r@ == finished(rendered@, minified(rendered@)),
    {
        minify_document(rendered)
    }
}

impl AppContext {
    /// A page with its status and finished document.
    pub fn page(&self, kind: PageKind, rendered: String) -> (r: (u16, String))
        ensures
            r.0 == kind.status_spec(),
            r.1@ == finished(rendered@, minified(rendered@)),
    {
        (kind.status(), self.web_context.html(rendered))
    }

    /// A successful page.
    pub fn html(&self, rendered: String) -> (r: (u16, String))
        ensures
            r.0 == 200,
            r.1@ == finished(rendered@, minified(rendered@)),
    {
        self.page(PageKind::Success, rendered)
    }

    /// The alert shown for an unexpected failure; the failure itself is
    /// logged by the caller and never shown.
    pub fn internal_server_error(&self, rendered: String) -> (r: (u16, String))
        ensures
            r.0 == 500,
            r.1@ == finished(rendered@, minified(rendered@)),
    {
        self.page(PageKind::InternalServerError, rendered)
    }

    /// The full page shown for an unexpected failure.
    pub fn internal_server_error_page(&self, rendered: String) -> (r: (u16, String))
        ensures
            r.0 == 500,
            r.1@ == finished(rendered@, minified(rendered@)),
    {
        self.page(PageKind::InternalServerError, rendered)
    }

    /// The alert listing the fields that failed validation.
    pub fn unprocessable_entity(&self, rendered: String) -> (r: (u16, String))
        ensures
            r.0 == 422,
            r.1@ == finished(rendered@, minified(rendered@)),
    {
        self.page(PageKind::UnprocessableEntity, rendered)
    }

    /// The page shown for an unknown resource.
    pub fn not_found_page(&self, rendered: String) -> (r: (u16, String))
        ensures
            r.0 == 404,
            r.1@ == finished(rendered@, minified(rendered@)),
    {
        self.page(PageKind::NotFound, rendered)
    }
}

} // verus!
