use crate::catalog::LanguageCatalog;
use crate::config::{AppConfig, JwtClaims};
use crate::context::{request_language, AppContext};
use crate::language::{first_supported, flatten, parsed, resolved};
use crate::render::finished;
use vstd::utf8::{decode_utf8, valid_utf8};
use vstd::prelude::*;

verus! {

/// A candidate list holds a tag that parses to a supported one.
pub open spec fn has_supported(cands: Seq<Seq<char>>, supported: Seq<Seq<char>>) -> bool {
    exists|k: int|
        0 <= k < cands.len() && #[trigger] parsed(cands)[k] is Some && supported.contains(
            parsed(cands)[k]->Some_0,
        )
}

proof fn lemma_first_supported_prefix(
    a: Seq<Option<Seq<char>>>,
    b: Seq<Option<Seq<char>>>,
    supported: Seq<Seq<char>>,
    fallback: Seq<char>,
    k: int,
)
    requires
        0 <= k < a.len(),
        a[k] is Some,
        supported.contains(a[k]->Some_0),
    ensures
        first_supported(a + b, supported, fallback) == first_supported(a, supported, fallback),
    decreases a.len(),
{
    assert((a + b)[0] == a[0]);
    if !(a[0] is Some && supported.contains(a[0]->Some_0)) {
        assert((a + b).drop_first() == a.drop_first() + b);
        lemma_first_supported_prefix(a.drop_first(), b, supported, fallback, k - 1);
    }
}

proof fn lemma_first_supported_none(
    cands: Seq<Option<Seq<char>>>,
    supported: Seq<Seq<char>>,
    fallback: Seq<char>,
)
    requires
        forall|k: int|
            0 <= k < cands.len() ==> !(#[trigger] cands[k] is Some && supported.contains(
                cands[k]->Some_0,
            )),
    ensures
        first_supported(cands, supported, fallback) == fallback,
    decreases cands.len(),
{
    if cands.len() > 0 {
        assert(!(cands[0] is Some && supported.contains(cands[0]->Some_0)));
        assert forall|k: int| 0 <= k < cands.len() - 1 implies !(
        #[trigger] cands.drop_first()[k] is Some && supported.contains(
            cands.drop_first()[k]->Some_0,
        )) by {
            assert(cands.drop_first()[k] == cands[k + 1]);
        }
        lemma_first_supported_none(cands.drop_first(), supported, fallback);
    }
}

/// The candidates of a query source and a header source, in that order.
proof fn lemma_flatten_two(query: Seq<Seq<char>>, header: Seq<Seq<char>>)
    ensures
        parsed(flatten(seq![query, header])) == parsed(query) + parsed(header),
{
    let s = seq![query, header];
    assert(s.drop_last() == seq![query]);
    assert(seq![query].drop_last() == Seq::<Seq<Seq<char>>>::empty());
    assert(seq![query].last() == query);
    assert(flatten(Seq::<Seq<Seq<char>>>::empty()) == Seq::<Seq<char>>::empty());
    assert(flatten(seq![query]) == Seq::<Seq<char>>::empty() + query);
    assert(seq![query, header].last() == header);
    assert(Seq::<Seq<char>>::empty() + query == query);
    assert(parsed(query + header) =~= parsed(query) + parsed(header));
}

/// Where the query parameter names a supported language, that language is
/// chosen, whatever the Accept-Language header holds.
pub proof fn law_query_takes_priority(
    query: Seq<Seq<char>>,
    header1: Seq<Seq<char>>,
    header2: Seq<Seq<char>>,
    supported: Seq<Seq<char>>,
    fallback: Seq<char>,
)
    requires
        has_supported(query, supported),
    ensures
        resolved(seq![query, header1], supported, fallback) == first_supported(
            parsed(query),
            supported,
            fallback,
        ),
        resolved(seq![query, header1], supported, fallback) == resolved(
            seq![query, header2],
            supported,
            fallback,
        ),
        supported.contains(resolved(seq![query, header1], supported, fallback)),
{
    let k = choose|k: int|
        0 <= k < query.len() && #[trigger] parsed(query)[k] is Some && supported.contains(
            parsed(query)[k]->Some_0,
        );
    lemma_flatten_two(query, header1);
    lemma_flatten_two(query, header2);
    lemma_first_supported_prefix(parsed(query), parsed(header1), supported, fallback, k);
    lemma_first_supported_prefix(parsed(query), parsed(header2), supported, fallback, k);
    lemma_first_supported_found(parsed(query), supported, fallback, k);
}

proof fn lemma_first_supported_found(
    cands: Seq<Option<Seq<char>>>,
    supported: Seq<Seq<char>>,
    fallback: Seq<char>,
    k: int,
)
    requires
        0 <= k < cands.len(),
        cands[k] is Some,
        supported.contains(cands[k]->Some_0),
    ensures
        supported.contains(first_supported(cands, supported, fallback)),
    decreases cands.len(),
{
    if !(cands[0] is Some && supported.contains(cands[0]->Some_0)) {
        lemma_first_supported_found(cands.drop_first(), supported, fallback, k - 1);
    }
}

/// Where no source yields a supported tag (all absent, unparseable or
/// unknown), the fallback language is chosen.
pub proof fn law_fallback_when_nothing_matches(
    sources: Seq<Seq<Seq<char>>>,
    supported: Seq<Seq<char>>,
    fallback: Seq<char>,
)
    requires
        !has_supported(flatten(sources), supported),
    ensures
        resolved(sources, supported, fallback) == fallback,
{
    let cands = parsed(flatten(sources));
    assert forall|k: int| 0 <= k < cands.len() implies !(#[trigger] cands[k] is Some
        && supported.contains(cands[k]->Some_0)) by {
        if cands[k] is Some && supported.contains(cands[k]->Some_0) {
            assert(has_supported(flatten(sources), supported));
        }
    }
    lemma_first_supported_none(cands, supported, fallback);
}

/// Resolving the same candidates twice gives the same language.
pub proof fn law_resolution_deterministic(
    sources1: Seq<Seq<Seq<char>>>,
    sources2: Seq<Seq<Seq<char>>>,
    supported: Seq<Seq<char>>,
    fallback: Seq<char>,
)
    requires
        sources1 == sources2,
    ensures
        resolved(sources1, supported, fallback) == resolved(sources2, supported, fallback),
{
}

/// The bundles selected for a supported language include that language.
pub proof fn law_selection_holds_language(catalog: LanguageCatalog, lang: Seq<char>)
    requires
        catalog.wf(),
        catalog.supported().contains(lang),
    ensures
        catalog.selection(lang).contains(lang),
{
    let sel = catalog.selection(lang);
    if lang != catalog.fallback@ {
        assert(sel[0] == lang);
    } else {
        assert(sel[0] == lang);
    }
}

/// Two requests' contexts each carry the language of their own request:
/// what one request resolved never depends on the other's data.
pub proof fn law_contexts_isolated(
    a: AppContext,
    b: AppContext,
    claims_a: JwtClaims,
    claims_b: JwtClaims,
    sources_a: Seq<Vec<String>>,
    sources_b: Seq<Vec<String>>,
    config: AppConfig,
    catalog: LanguageCatalog,
)
    requires
        a.composed_from(claims_a, sources_a, config, catalog),
        b.composed_from(claims_b, sources_b, config, catalog),
    ensures
        a.web_context.lang@ == request_language(sources_a, catalog),
        b.web_context.lang@ == request_language(sources_b, catalog),
        a.feed_cmd.user_lang@ == request_language(sources_a, catalog),
        b.feed_cmd.user_lang@ == request_language(sources_b, catalog),
        a.feed_cmd.user_id@ == claims_a.sub@,
        b.feed_cmd.user_id@ == claims_b.sub@,
{
}

/// Where the minifier's output does not decode, the document goes out
/// exactly as rendered; where it does, the decoded output goes out.
pub proof fn law_minify_falls_back(raw: Seq<char>, min: Seq<u8>)
    ensures
        !valid_utf8(min) ==> finished(raw, min) == raw,
        valid_utf8(min) ==> finished(raw, min) == decode_utf8(min),
{
}

} // verus!
