use unic_langid::LanguageIdentifier;
use vstd::prelude::*;

verus! {

/// The canonical form of a language tag as the tag parser prints it back,
/// or `None` where the text is not a well-formed tag.
pub uninterp spec fn canonical_tag(s: Seq<char>) -> Option<Seq<char>>;

/// Relies on `<unic_langid::LanguageIdentifier as FromStr>::from_str` and its
/// `Display`: a parse that depends on the text alone, printed back in
/// canonical form.
#[verifier::external_body]
pub(crate) fn parse_tag(s: &str) -> (r: Option<String>)
    ensures
        r matches Some(t) ==> canonical_tag(s@) == Some(t@),
        r is None ==> canonical_tag(s@) is None,
{
    s.parse::<LanguageIdentifier>().ok().map(|l| l.to_string())
}

/// The views of a list of strings.
pub open spec fn views(v: Seq<String>) -> Seq<Seq<char>> {
    v.map_values(|s: String| s@)
}

/// The candidate tags in order: sources by priority, each source in the
/// caller's order of preference.
pub open spec fn flatten(sources: Seq<Seq<Seq<char>>>) -> Seq<Seq<char>>
    decreases sources.len(),
{
    if sources.len() == 0 {
        Seq::empty()
    } else {
        flatten(sources.drop_last()) + sources.last()
    }
}

/// Every candidate passed through the tag parser.
pub open spec fn parsed(cands: Seq<Seq<char>>) -> Seq<Option<Seq<char>>> {
    cands.map_values(|c: Seq<char>| canonical_tag(c))
}

/// The first candidate that parsed to a supported tag, else the fallback.
pub open spec fn first_supported(
    cands: Seq<Option<Seq<char>>>,
    supported: Seq<Seq<char>>,
    fallback: Seq<char>,
) -> Seq<char>
    decreases cands.len(),
{
    if cands.len() == 0 {
        fallback
    } else if cands[0] is Some && supported.contains(cands[0]->Some_0) {
        cands[0]->Some_0
    } else {
        first_supported(cands.drop_first(), supported, fallback)
    }
}

/// The selected tag is a supported one or the fallback.
pub proof fn lemma_first_supported_member(
    cands: Seq<Option<Seq<char>>>,
    supported: Seq<Seq<char>>,
    fallback: Seq<char>,
)
    ensures
        first_supported(cands, supported, fallback) == fallback || supported.contains(
            first_supported(cands, supported, fallback),
        ),
    decreases cands.len(),
{
    if cands.len() > 0 {
        lemma_first_supported_member(cands.drop_first(), supported, fallback);
    }
}

/// The language resolved from candidate tags grouped by source.
pub open spec fn resolved(
    sources: Seq<Seq<Seq<char>>>,
    supported: Seq<Seq<char>>,
    fallback: Seq<char>,
) -> Seq<char> {
    first_supported(parsed(flatten(sources)), supported, fallback)
}

/// Whether `tag` is one of `supported`.
pub fn is_supported(tag: &String, supported: &Vec<String>) -> (r: bool)
    ensures
        r == views(supported@).contains(tag@),
{
    let mut i: usize = 0;
    while i < supported.len()
        invariant
            i <= supported.len(),
            forall|j: int| 0 <= j < i ==> supported@[j]@ != tag@,
        decreases supported.len() - i,
    {
        if supported[i] == *tag {
            assert(views(supported@)[i as int] == tag@);
            return true;
        }
        i += 1;
    }
    assert forall|k: int| 0 <= k < views(supported@).len() implies views(supported@)[k] != tag@ by {
        assert(supported@[k]@ != tag@);
    }
    false
}

/// Picks the first parsed candidate that is supported, else the fallback.
pub fn select_language(
    cands: &Vec<Option<String>>,
    supported: &Vec<String>,
    fallback: &String,
) -> (r: String)
    ensures
        r@ == first_supported(
            cands@.map_values(|c: Option<String>| opt_view(c)),
            views(supported@),
            fallback@,
        ),
{
    let ghost cs = cands@.map_values(|c: Option<String>| opt_view(c));
    assert(cs.skip(0) == cs);
    let mut i: usize = 0;
    while i < cands.len()
        invariant
            i <= cands.len(),
            cs == cands@.map_values(|c: Option<String>| opt_view(c)),
            first_supported(cs, views(supported@), fallback@) == first_supported(
                cs.skip(i as int),
                views(supported@),
                fallback@,
            ),
        decreases cands.len() - i,
    {
        let ghost rest = cs.skip(i as int);
        assert(rest.drop_first() == cs.skip(i + 1));
        match &cands[i] {
            Some(t) => {
                if is_supported(t, supported) {
                    return t.clone();
                }
            },
            None => {},
        }
        i += 1;
    }
    assert(cs.skip(i as int).len() == 0);
    fallback.clone()
}

/// The views of candidate tags grouped by source.
pub open spec fn source_views(sources: Seq<Vec<String>>) -> Seq<Seq<Seq<char>>> {
    sources.map_values(|v: Vec<String>| views(v@))
}

/// Resolves the caller's language from candidate tags grouped by source,
/// highest priority first: the first candidate that parses to a supported
/// tag, else the fallback. Unparseable candidates are skipped.
pub fn resolve_language(
    sources: &Vec<Vec<String>>,
    supported: &Vec<String>,
    fallback: &String,
) -> (r: String)
    ensures
        r@ == resolved(source_views(sources@), views(supported@), fallback@),
{
    let ghost sv = source_views(sources@);
    let mut cands: Vec<Option<String>> = Vec::new();
    let mut i: usize = 0;
    while i < sources.len()
        invariant
            i <= sources.len(),
            sv == source_views(sources@),
            cands@.map_values(|c: Option<String>| opt_view(c)) == parsed(flatten(sv.take(i as int))),
        decreases sources.len() - i,
    {
        let src = &sources[i];
        let ghost before = cands@.map_values(|c: Option<String>| opt_view(c));
        let mut j: usize = 0;
        while j < src.len()
            invariant
                i < sources.len(),
                j <= src.len(),
                src == sources@[i as int],
                sv == source_views(sources@),
                before == parsed(flatten(sv.take(i as int))),
                cands@.map_values(|c: Option<String>| opt_view(c)) == before + parsed(
                    views(src@).take(j as int),
                ),
            decreases src.len() - j,
        {
            let t = parse_tag(src[j].as_str());
            assert(opt_view(t) == canonical_tag(src@[j as int]@));
            let ghost old_c = cands@;
            cands.push(t);
            assert(cands@.map_values(|c: Option<String>| opt_view(c)) =~= old_c.map_values(
                |c: Option<String>| opt_view(c),
            ).push(opt_view(t)));
            assert(views(src@).take(j + 1) == views(src@).take(j as int).push(src@[j as int]@));
            assert(parsed(views(src@).take(j + 1)) == parsed(views(src@).take(j as int)).push(
                canonical_tag(src@[j as int]@),
            ));
            assert(cands@.map_values(|c: Option<String>| opt_view(c)) =~= before + parsed(
                views(src@).take(j + 1),
            ));
            j += 1;
        }
        assert(views(src@).take(j as int) == views(src@));
        assert(sv.take(i + 1).drop_last() == sv.take(i as int));
        assert(sv.take(i + 1).last() == views(src@));
        assert(parsed(flatten(sv.take(i + 1))) =~= parsed(flatten(sv.take(i as int))) + parsed(
            views(src@),
        ));
        i += 1;
    }
    assert(sv.take(i as int) == sv);
    select_language(&cands, supported, fallback)
}

/// The view of an optional string.
pub open spec fn opt_view(c: Option<String>) -> Option<Seq<char>> {
    match c {
        Some(s) => Some(s@),
        None => None,
    }
}

} // verus!
