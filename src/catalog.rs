use crate::language::{canonical_tag, is_supported, parse_tag, views};
use vstd::prelude::*;

verus! {

/// The languages that have a loaded message bundle, and the bundle used
/// when none matches. Read-only once built.
pub struct LanguageCatalog {
    pub languages: Vec<String>,
    pub fallback: String,
}

/// The bundles selected for one request: the requested language first where
/// the catalog has it, then the catalog's fallback.
#[derive(Clone)]
pub struct CatalogHandle {
    pub current_languages: Vec<String>,
    pub fallback: String,
}

impl LanguageCatalog {
    /// The fallback language always has a bundle.
    pub open spec fn wf(&self) -> bool {
        views(self.languages@).contains(self.fallback@)
    }

    /// The tags the catalog can render.
    pub open spec fn supported(&self) -> Seq<Seq<char>> {
        views(self.languages@)
    }

    /// The languages of the handle selected for `lang`.
    pub open spec fn selection(&self, lang: Seq<char>) -> Seq<Seq<char>> {
        if self.supported().contains(lang) && lang != self.fallback@ {
            seq![lang, self.fallback@]
        } else {
            seq![self.fallback@]
        }
    }

    /// Builds a catalog; the fallback is added to the languages if missing.
    pub fn new(languages: Vec<String>, fallback: String) -> (r: Self)
        ensures
            r.wf(),
            r.fallback@ == fallback@,
            r.supported() == if views(languages@).contains(fallback@) {
                views(languages@)
            } else {
                views(languages@).push(fallback@)
            },
    {
        let mut languages = languages;
        let ghost before = languages@;
        if !is_supported(&fallback, &languages) {
            languages.push(fallback.clone());
            assert(views(languages@) =~= views(before).push(fallback@));
            assert(views(languages@)[views(before).len() as int] == fallback@);
        }
        LanguageCatalog { languages, fallback }
    }

    /// Selects the bundles for a resolved language; a language the catalog
    /// lacks gets the fallback bundle alone.
    pub fn select(&self, lang: &String) -> (r: CatalogHandle)
        ensures
            views(r.current_languages@) == self.selection(lang@),
            r.fallback@ == self.fallback@,
    {
        let mut current: Vec<String> = Vec::new();
        if is_supported(lang, &self.languages) && *lang != self.fallback {
            current.push(lang.clone());
        }
        current.push(self.fallback.clone());
        assert(views(current@) =~= self.selection(lang@));
        CatalogHandle { current_languages: current, fallback: self.fallback.clone() }
    }

    /// Selects the bundles for a tag given as text; text that is no
    /// well-formed tag gets the fallback bundle alone.
    pub fn select_tag(&self, tag: &str) -> (r: CatalogHandle)
        ensures
            r.fallback@ == self.fallback@,
            views(r.current_languages@) == match canonical_tag(tag@) {
                Some(t) => self.selection(t),
                None => seq![self.fallback@],
            },
    {
        match parse_tag(tag) {
            Some(t) => self.select(&t),
            None => {
                let current = vec![self.fallback.clone()];
                assert(views(current@) =~= seq![self.fallback@]);
                CatalogHandle { current_languages: current, fallback: self.fallback.clone() }
            },
        }
    }
}

/// The first current language of the handle that the catalog supports,
/// else the handle's fallback.
pub open spec fn handle_language(
    current: Seq<Seq<char>>,
    supported: Seq<Seq<char>>,
    fallback: Seq<char>,
) -> Seq<char>
    decreases current.len(),
{
    if current.len() == 0 {
        fallback
    } else if supported.contains(current[0]) {
        current[0]
    } else {
        handle_language(current.drop_first(), supported, fallback)
    }
}

impl CatalogHandle {
    /// The language the handle renders in: its first current language that
    /// `catalog` supports, else its fallback.
    pub fn language(&self, catalog: &LanguageCatalog) -> (r: String)
        ensures
            r@ == handle_language(
                views(self.current_languages@),
                catalog.supported(),
                self.fallback@,
            ),
    {
        let ghost cur = views(self.current_languages@);
        assert(cur.skip(0) == cur);
        let mut i: usize = 0;
        while i < self.current_languages.len()
            invariant
                i <= self.current_languages.len(),
                cur == views(self.current_languages@),
                handle_language(cur, catalog.supported(), self.fallback@) == handle_language(
                    cur.skip(i as int),
                    catalog.supported(),
                    self.fallback@,
                ),
            decreases self.current_languages.len() - i,
        {
            assert(cur.skip(i as int).drop_first() == cur.skip(i + 1));
            if is_supported(&self.current_languages[i], &catalog.languages) {
                return self.current_languages[i].clone();
            }
            i += 1;
        }
        assert(cur.skip(i as int).len() == 0);
        self.fallback.clone()
    }
}

} // verus!
