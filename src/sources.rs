use crate::language::views;
use crate::render::starts_with;
use vstd::prelude::*;
use vstd::string::*;

verus! {

/// The pieces of `s` between occurrences of `sep`; never empty.
pub open spec fn split_on(s: Seq<char>, sep: char) -> Seq<Seq<char>>
    decreases s.len(),
{
    if s.len() == 0 {
        seq![Seq::empty()]
    } else {
        let r = split_on(s.drop_last(), sep);
        if s.last() == sep {
            r.push(Seq::empty())
        } else {
            r.update(r.len() - 1, r.last().push(s.last()))
        }
    }
}

pub proof fn lemma_split_nonempty(s: Seq<char>, sep: char)
    ensures
        split_on(s, sep).len() >= 1,
    decreases s.len(),
{
    if s.len() > 0 {
        lemma_split_nonempty(s.drop_last(), sep);
    }
}

/// Splits `s` at every `sep`.
pub fn split(s: &str, sep: char) -> (r: Vec<String>)
    ensures
        views(r@) == split_on(s@, sep),
{
    let n = s.unicode_len();
    let mut out: Vec<String> = Vec::new();
    let mut start: usize = 0;
    let mut i: usize = 0;
    assert(s@.take(0) =~= Seq::<char>::empty());
    assert(views(out@).push(s@.subrange(0, 0)) =~= seq![Seq::<char>::empty()]);
    while i < n
        invariant
            n == s@.len(),
            start <= i <= n,
            split_on(s@.take(i as int), sep) == views(out@).push(s@.subrange(start as int, i as int)),
        decreases n - i,
    {
        let c = s.get_char(i);
        assert(s@.take(i + 1).drop_last() =~= s@.take(i as int));
        assert(s@.take(i + 1).last() == c);
        let ghost before = out@;
        if c == sep {
            out.push(String::from_str(s.substring_char(start, i)));
            assert(views(out@) =~= views(before).push(s@.subrange(start as int, i as int)));
            start = i + 1;
            assert(s@.subrange(start as int, i + 1) =~= Seq::<char>::empty());
        } else {
            assert(s@.subrange(start as int, i + 1) =~= s@.subrange(start as int, i as int).push(c));
            assert(views(out@).push(s@.subrange(start as int, i + 1)) =~= views(out@).push(
                s@.subrange(start as int, i as int),
            ).update(views(out@).len() as int, s@.subrange(start as int, i as int).push(c)));
        }
        i += 1;
    }
    assert(s@.take(n as int) =~= s@);
    out.push(String::from_str(s.substring_char(start, n)));
    assert(views(out@) =~= split_on(s@, sep));
    out
}

/// Spaces and tabs, the blanks allowed around list items in a header.
pub open spec fn is_blank(c: char) -> bool {
    c == ' ' || c == '\t'
}

pub open spec fn trim_front(s: Seq<char>) -> Seq<char>
    decreases s.len(),
{
    if s.len() > 0 && is_blank(s[0]) {
        trim_front(s.drop_first())
    } else {
        s
    }
}

pub open spec fn trim_back(s: Seq<char>) -> Seq<char>
    decreases s.len(),
{
    if s.len() > 0 && is_blank(s.last()) {
        trim_back(s.drop_last())
    } else {
        s
    }
}

/// `s` without blanks at either end.
pub open spec fn trimmed(s: Seq<char>) -> Seq<char> {
    trim_back(trim_front(s))
}

/// Takes the blanks off both ends of `s`.
pub fn trim(s: &str) -> (r: String)
    ensures
        r@ == trimmed(s@),
{
    let n = s.unicode_len();
    let mut lo: usize = 0;
    assert(s@.subrange(0, n as int) =~= s@);
    while lo < n && (s.get_char(lo) == ' ' || s.get_char(lo) == '\t')
        invariant
            n == s@.len(),
            lo <= n,
            trim_front(s@) == trim_front(s@.subrange(lo as int, n as int)),
        decreases n - lo,
    {
        assert(s@.subrange(lo as int, n as int).drop_first() =~= s@.subrange(lo + 1, n as int));
        lo += 1;
    }
    let mut hi: usize = n;
    while hi > lo && (s.get_char(hi - 1) == ' ' || s.get_char(hi - 1) == '\t')
        invariant
            n == s@.len(),
            lo <= hi <= n,
            trim_front(s@) == s@.subrange(lo as int, n as int),
            trim_back(s@.subrange(lo as int, n as int)) == trim_back(
                s@.subrange(lo as int, hi as int),
            ),
        decreases hi - lo,
    {
        assert(s@.subrange(lo as int, hi as int).drop_last() =~= s@.subrange(lo as int, hi - 1));
        hi -= 1;
    }
    String::from_str(s.substring_char(lo, hi))
}

/// The value of a `key=value` pair whose key is `key`.
pub open spec fn pair_value(pair: Seq<char>, key: Seq<char>) -> Option<Seq<char>> {
    if key.push('=').is_prefix_of(pair) {
        Some(pair.subrange(key.len() as int + 1, pair.len() as int))
    } else {
        None
    }
}

/// The values given to `key`, in order.
pub open spec fn values_of(pairs: Seq<Seq<char>>, key: Seq<char>) -> Seq<Seq<char>>
    decreases pairs.len(),
{
    if pairs.len() == 0 {
        Seq::empty()
    } else {
        let r = values_of(pairs.drop_last(), key);
        match pair_value(pairs.last(), key) {
            Some(v) => r.push(v),
            None => r,
        }
    }
}

/// The candidate tags of a query string (`a=b&c=d`, without the `?`): every
/// value given to `key`, in order.
pub fn query_language(query: &str, key: &str) -> (r: Vec<String>)
    ensures
        views(r@) == values_of(split_on(query@, '&'), key@),
{
    let pairs = split(query, '&');
    let mut prefix = String::from_str(key);
    prefix.append("=");
    proof {
        reveal_strlit("=");
    }
    assert(prefix@ =~= key@.push('='));
    let klen = key.unicode_len();
    let mut out: Vec<String> = Vec::new();
    let mut i: usize = 0;
    while i < pairs.len()
        invariant
            i <= pairs.len(),
            views(pairs@) == split_on(query@, '&'),
            prefix@ == key@.push('='),
            klen == key@.len(),
            views(out@) == values_of(views(pairs@).take(i as int), key@),
        decreases pairs.len() - i,
    {
        let p = pairs[i].as_str();
        assert(views(pairs@).take(i + 1).drop_last() =~= views(pairs@).take(i as int));
        assert(views(pairs@).take(i + 1).last() == p@);
        if starts_with(p, prefix.as_str()) {
            let ghost before = out@;
            let m = p.unicode_len();
            assert(prefix@.len() <= p@.len());
            out.push(String::from_str(p.substring_char(klen + 1, m)));
            assert(views(out@) =~= views(before).push(p@.subrange(klen + 1, p@.len() as int)));
        }
        i += 1;
    }
    assert(views(pairs@).take(pairs.len() as int) =~= views(pairs@));
    out
}

/// The value of a decimal digit.
pub open spec fn digit(c: char) -> int {
    c as int - '0' as int
}

pub open spec fn is_digit(c: char) -> bool {
    '0' <= c <= '9'
}

/// A quality value in thousandths, from the text after `q=`: `0`, `1`, or
/// either followed by a point and up to three digits (only zeros after a
/// `1`). Anything else has no value.
pub open spec fn quality(t: Seq<char>) -> Option<int> {
    if t.len() == 0 || t.len() > 5 {
        None
    } else if t.len() == 1 {
        if t[0] == '0' {
            Some(0)
        } else if t[0] == '1' {
            Some(1000)
        } else {
            None
        }
    } else if t[1] != '.' || !(t[0] == '0' || t[0] == '1') {
        None
    } else if t.len() == 2 {
        Some(if t[0] == '1' { 1000 } else { 0 })
    } else if !(forall|k: int| 2 <= k < t.len() ==> #[trigger] is_digit(t[k])) {
        None
    } else {
        let d1 = digit(t[2]);
        let d2 = if t.len() > 3 { digit(t[3]) } else { 0 };
        let d3 = if t.len() > 4 { digit(t[4]) } else { 0 };
        let frac = 100 * d1 + 10 * d2 + d3;
        if t[0] == '0' {
            Some(frac)
        } else if frac == 0 {
            Some(1000)
        } else {
            None
        }
    }
}

/// The weight of a header entry's parameter: its quality where it is a
/// well-formed `q=` parameter, else full weight.
pub open spec fn weight_of(param: Seq<char>) -> int {
    if "q="@.is_prefix_of(param) {
        match quality(param.skip(2)) {
            Some(q) => q,
            None => 1000,
        }
    } else {
        1000
    }
}

fn digit_at(t: &str, k: usize) -> (r: u32)
    requires
        k < t@.len(),
        is_digit(t@[k as int]),
    ensures
        r as int == digit(t@[k as int]),
        r <= 9,
{
    let c = t.get_char(k);
    (c as u32) - ('0' as u32)
}

/// Parses the text after `q=` into thousandths.
pub fn parse_quality(t: &str) -> (r: Option<u32>)
    ensures
        r matches Some(q) ==> quality(t@) == Some(q as int),
        r is None ==> quality(t@) is None,
{
    let n = t.unicode_len();
    if n == 0 || n > 5 {
        return None;
    }
    let c0 = t.get_char(0);
    if n == 1 {
        return if c0 == '0' {
            Some(0)
        } else if c0 == '1' {
            Some(1000)
        } else {
            None
        };
    }
    if t.get_char(1) != '.' || !(c0 == '0' || c0 == '1') {
        return None;
    }
    if n == 2 {
        return Some(if c0 == '1' { 1000 } else { 0 });
    }
    let mut k: usize = 2;
    while k < n
        invariant
            n == t@.len(),
            2 <= k <= n,
            forall|j: int| 2 <= j < k ==> #[trigger] is_digit(t@[j]),
        decreases n - k,
    {
        let c = t.get_char(k);
        if !('0' <= c && c <= '9') {
            assert(!is_digit(t@[k as int]));
            return None;
        }
        k += 1;
    }
    let d1 = digit_at(t, 2);
    let d2 = if n > 3 { digit_at(t, 3) } else { 0 };
    let d3 = if n > 4 { digit_at(t, 4) } else { 0 };
    let frac = 100 * d1 + 10 * d2 + d3;
    if c0 == '0' {
        Some(frac)
    } else if frac == 0 {
        Some(1000)
    } else {
        None
    }
}

/// The language tag of an Accept-Language entry (`fr-CH;q=0.9`).
pub open spec fn entry_tag(e: Seq<char>) -> Seq<char> {
    trimmed(split_on(e, ';')[0])
}

/// The weight of an Accept-Language entry in thousandths: from its first
/// parameter, full where it has none, nothing where its tag is empty.
pub open spec fn entry_weight(e: Seq<char>) -> int {
    if entry_tag(e).len() == 0 {
        0
    } else if split_on(e, ';').len() > 1 {
        weight_of(trimmed(split_on(e, ';')[1]))
    } else {
        1000
    }
}

/// The tags of the entries that weigh exactly `w`, in header order.
pub open spec fn with_weight(es: Seq<Seq<char>>, w: int) -> Seq<Seq<char>>
    decreases es.len(),
{
    if es.len() == 0 {
        Seq::empty()
    } else {
        let r = with_weight(es.drop_last(), w);
        if entry_weight(es.last()) == w {
            r.push(entry_tag(es.last()))
        } else {
            r
        }
    }
}

/// The tags of the entries that weigh `w` or more, heaviest first, entries
/// of equal weight in header order.
pub open spec fn by_weight(es: Seq<Seq<char>>, w: int) -> Seq<Seq<char>>
    decreases 1001 - w,
{
    if w > 1000 {
        Seq::empty()
    } else {
        by_weight(es, w + 1) + with_weight(es, w)
    }
}

/// Reads one Accept-Language entry: its tag and its weight.
fn read_entry(e: &str) -> (r: (String, u32))
    ensures
        r.0@ == entry_tag(e@),
        r.1 as int == entry_weight(e@),
{
    let parts = split(e, ';');
    proof {
        lemma_split_nonempty(e@, ';');
    }
    let tag = trim(parts[0].as_str());
    if tag.as_str().unicode_len() == 0 {
        return (tag, 0);
    }
    if parts.len() < 2 {
        return (tag, 1000);
    }
    let param = trim(parts[1].as_str());
    proof {
        reveal_strlit("q=");
    }
    if !starts_with(param.as_str(), "q=") {
        return (tag, 1000);
    }
    let m = param.as_str().unicode_len();
    let rest = param.as_str().substring_char(2, m);
    assert(rest@ =~= param@.skip(2));
    match parse_quality(rest) {
        Some(q) => (tag, q),
        None => (tag, 1000),
    }
}

/// The candidate tags of an Accept-Language header, heaviest first; entries
/// of equal weight keep their order, and entries of weight zero or without
/// a tag are left out.
pub fn accept_language(header: &str) -> (r: Vec<String>)
    ensures
        views(r@) == by_weight(split_on(header@, ','), 1),
{
    let entries = split(header, ',');
    let ghost es = split_on(header@, ',');
    let mut tags: Vec<String> = Vec::new();
    let mut weights: Vec<u32> = Vec::new();
    let mut i: usize = 0;
    while i < entries.len()
        invariant
            i <= entries.len(),
            views(entries@) == es,
            tags@.len() == i,
            weights@.len() == i,
            forall|j: int| 0 <= j < i ==> #[trigger] tags@[j]@ == entry_tag(es[j]),
            forall|j: int| 0 <= j < i ==> #[trigger] weights@[j] as int == entry_weight(es[j]),
        decreases entries.len() - i,
    {
        assert(views(entries@)[i as int] == entries@[i as int]@);
        let (t, w) = read_entry(entries[i].as_str());
        tags.push(t);
        weights.push(w);
        i += 1;
    }
    let mut out: Vec<String> = Vec::new();
    let mut w: u32 = 1000;
    assert(views(out@) =~= by_weight(es, 1001));
    while w >= 1
        invariant
            w <= 1000,
            tags@.len() == es.len(),
            weights@.len() == es.len(),
            forall|j: int| 0 <= j < es.len() ==> #[trigger] tags@[j]@ == entry_tag(es[j]),
            forall|j: int| 0 <= j < es.len() ==> #[trigger] weights@[j] as int == entry_weight(es[j]),
            views(out@) == by_weight(es, w + 1),
        decreases w,
    {
        let ghost start = views(out@);
        let mut j: usize = 0;
        assert(es.take(0) =~= Seq::<Seq<char>>::empty());
        assert(start + with_weight(es.take(0), w as int) =~= start);
        while j < tags.len()
            invariant
                1 <= w <= 1000,
                j <= tags@.len(),
                tags@.len() == es.len(),
                weights@.len() == es.len(),
                forall|k: int| 0 <= k < es.len() ==> #[trigger] tags@[k]@ == entry_tag(es[k]),
                forall|k: int| 0 <= k < es.len() ==> #[trigger] weights@[k] as int == entry_weight(es[k]),
                views(out@) == start + with_weight(es.take(j as int), w as int),
            decreases tags.len() - j,
        {
            assert(es.take(j + 1).drop_last() =~= es.take(j as int));
            assert(es.take(j + 1).last() == es[j as int]);
            if weights[j] == w {
                let ghost before = views(out@);
                out.push(tags[j].clone());
                assert(views(out@) =~= before.push(tags@[j as int]@));
            }
            j += 1;
        }
        assert(es.take(j as int) =~= es);
        assert(by_weight(es, w as int) == by_weight(es, w + 1) + with_weight(es, w as int));
        w -= 1;
    }
    out
}

/// The candidates of the query string's `key` parameter, or none.
pub open spec fn query_candidates(query: Option<Seq<char>>, key: Seq<char>) -> Seq<Seq<char>> {
    match query {
        Some(q) => values_of(split_on(q, '&'), key),
        None => Seq::empty(),
    }
}

/// The candidates of an Accept-Language header, or none.
pub open spec fn header_candidates(header: Option<Seq<char>>) -> Seq<Seq<char>> {
    match header {
        Some(h) => by_weight(split_on(h, ','), 1),
        None => Seq::empty(),
    }
}

/// The candidate tags of a request grouped by source, highest priority
/// first: the `key` query parameter, then the Accept-Language header.
pub fn language_sources(query: Option<&str>, key: &str, header: Option<&str>) -> (r: Vec<
    Vec<String>,
>)
    ensures
        r@.len() == 2,
        views(r@[0]@) == query_candidates(
            match query {
                Some(q) => Some(q@),
                None => None,
            },
            key@,
        ),
        views(r@[1]@) == header_candidates(
            match header {
                Some(h) => Some(h@),
                None => None,
            },
        ),
{
    let from_query = match query {
        Some(q) => query_language(q, key),
        None => Vec::new(),
    };
    let from_header = match header {
        Some(h) => accept_language(h),
        None => Vec::new(),
    };
    proof {
        assert(views(Seq::<String>::empty()) =~= Seq::<Seq<char>>::empty());
    }
    vec![from_query, from_header]
}

} // verus!
