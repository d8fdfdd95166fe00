//! URL parts read through the `url` parser (re-exported by `reqwest`), and the
//! canonical form that lets one original be recognised under two addresses.
use vstd::prelude::*;

use crate::provider::download::opt_view;
use crate::provider::pair_views;
use crate::text::{str_eq, text_lt, text_precedes};

verus! {

/// The parts of a parsed absolute URL that the library reads.
pub struct UrlParts {
    pub scheme: String,
    pub query: Vec<(String, String)>,
    pub base: String,
}

/// What `reqwest::Url::parse` followed by `Url::scheme` gives for a text: the
/// URL's scheme, or `None` when the text is not an absolute URL.
pub uninterp spec fn spec_url_scheme(url: Seq<char>) -> Option<Seq<char>>;

/// The decoded name/value pairs that `Url::query_pairs` yields for a parsed URL, in order.
pub uninterp spec fn spec_url_query(url: Seq<char>) -> Seq<(Seq<char>, Seq<char>)>;

/// The serialization of a parsed URL after `set_fragment(None)` and `set_query(None)`.
pub uninterp spec fn spec_url_base(url: Seq<char>) -> Seq<char>;

/// The serialization of the URL that `Url::parse_with_params` builds from `base`
/// and `pairs` (`base` parsed, `pairs` appended to its query); `base` itself when
/// it does not parse.
pub uninterp spec fn spec_url_with_query(base: Seq<char>, pairs: Seq<(Seq<char>, Seq<char>)>) -> Seq<
    char,
>;

/// Wraps `reqwest::Url::parse` and reads the parsed URL's `scheme`, its
/// `query_pairs`, and its serialization once `set_fragment(None)` and
/// `set_query(None)` removed fragment and query. The contract names each part;
/// it claims nothing of their content beyond that `None` means the parse failed.
#[verifier::external_body]
pub(crate) fn url_parts(url: &str) -> (r: Option<UrlParts>)
    ensures
        match r {
            Some(p) => spec_url_scheme(url@) == Some(p.scheme@) && pair_views(p.query@)
                == spec_url_query(url@) && p.base@ == spec_url_base(url@),
            None => spec_url_scheme(url@) is None,
        },
{
    let mut parsed = reqwest::Url::parse(url).ok()?;
    let scheme = parsed.scheme().to_string();
    let query = parsed.query_pairs().map(|(k, v)| (k.into_owned(), v.into_owned())).collect();
    parsed.set_fragment(None);
    parsed.set_query(None);
    Some(UrlParts { scheme, query, base: parsed.to_string() })
}

/// Wraps `reqwest::Url::parse_with_params`: the serialization of `base` with
/// `pairs` appended to its query. A `base` that does not parse is returned
/// unchanged.
#[verifier::external_body]
fn url_with_query(base: &str, pairs: &Vec<(String, String)>) -> (r: String)
    ensures
        r@ == spec_url_with_query(base@, pair_views(pairs@)),
{
    match reqwest::Url::parse_with_params(base, pairs.iter()) {
        Ok(url) => url.to_string(),
        Err(_) => base.to_string(),
    }
}

// ---------------------------------------------------------------------------
// Sorted query pairs
// ---------------------------------------------------------------------------

/// The order of query pairs: by name, then by value (the order `sort` gives
/// `(String, String)` tuples).
pub open spec fn pair_lt(a: (Seq<char>, Seq<char>), b: (Seq<char>, Seq<char>)) -> bool {
    text_lt(a.0, b.0) || (a.0 == b.0 && text_lt(a.1, b.1))
}

/// Stable insertion of a pair after every pair that does not follow it.
pub open spec fn insert_pair(s: Seq<(Seq<char>, Seq<char>)>, x: (Seq<char>, Seq<char>)) -> Seq<
    (Seq<char>, Seq<char>),
>
    decreases s.len(),
{
    if s.len() == 0 {
        seq![x]
    } else if pair_lt(x, s.last()) {
        insert_pair(s.drop_last(), x).push(s.last())
    } else {
        s.push(x)
    }
}

/// Query pairs in ascending order.
pub open spec fn sorted_pairs(s: Seq<(Seq<char>, Seq<char>)>) -> Seq<(Seq<char>, Seq<char>)>
    decreases s.len(),
{
    if s.len() == 0 {
        Seq::empty()
    } else {
        insert_pair(sorted_pairs(s.drop_last()), s.last())
    }
}

proof fn lemma_insert_pair_suffix(s: Seq<(Seq<char>, Seq<char>)>, x: (Seq<char>, Seq<char>), j: int)
    requires
        0 <= j <= s.len(),
        forall|k: int| j <= k < s.len() ==> pair_lt(x, #[trigger] s[k]),
    ensures
        insert_pair(s, x) == insert_pair(s.subrange(0, j), x) + s.subrange(j, s.len() as int),
    decreases s.len() - j,
{
    if j < s.len() {
        let d = s.drop_last();
        assert forall|k: int| j <= k < d.len() implies pair_lt(x, #[trigger] d[k]) by {
            assert(d[k] == s[k]);
        }
        lemma_insert_pair_suffix(d, x, j);
        assert(d.subrange(0, j) =~= s.subrange(0, j));
        assert(pair_lt(x, s[s.len() - 1]));
        assert(d.subrange(j, d.len() as int).push(s.last()) =~= s.subrange(j, s.len() as int));
    } else {
        assert(s.subrange(0, j) =~= s);
        assert(s.subrange(j, s.len() as int) =~= Seq::<(Seq<char>, Seq<char>)>::empty());
    }
}

fn pair_precedes(a: &(String, String), b: &(String, String)) -> (r: bool)
    ensures
        r == pair_lt((a.0@, a.1@), (b.0@, b.1@)),
{
    text_precedes(&a.0, &b.0) || (str_eq(a.0.as_str(), b.0.as_str()) && text_precedes(&a.1, &b.1))
}

fn insert_sorted_pair(sorted: &mut Vec<(String, String)>, x: (String, String))
    ensures
        pair_views(final(sorted)@) == insert_pair(pair_views(old(sorted)@), (x.0@, x.1@)),
{
    let ghost s = pair_views(sorted@);
    let ghost xv = (x.0@, x.1@);
    let mut j: usize = sorted.len();
    while j > 0 && pair_precedes(&x, &sorted[j - 1])
        invariant
            j <= sorted.len(),
            pair_views(sorted@) == s,
            xv == (x.0@, x.1@),
            forall|k: int| j <= k < s.len() ==> pair_lt(xv, #[trigger] s[k]),
        decreases j,
    {
        assert(s[j - 1] == (sorted@[j - 1].0@, sorted@[j - 1].1@));
        j -= 1;
    }
    proof {
        lemma_insert_pair_suffix(s, xv, j as int);
        let p = s.subrange(0, j as int);
        if j > 0 {
            assert(p.last() == s[j - 1]);
        }
    }
    sorted.insert(j, x);
    assert(pair_views(sorted@) =~= s.subrange(0, j as int).push(xv) + s.subrange(
        j as int,
        s.len() as int,
    ));
}

/// Sorts query pairs by name, then by value.
pub fn sort_pairs(pairs: Vec<(String, String)>) -> (r: Vec<(String, String)>)
    ensures
        pair_views(r@) == sorted_pairs(pair_views(pairs@)),
{
    let ghost all = pair_views(pairs@);
    let mut pending = pairs;
    let mut sorted: Vec<(String, String)> = Vec::new();
    while pending.len() > 0
        invariant
            pending.len() <= all.len(),
            pair_views(pending@) == all.subrange(all.len() - pending.len(), all.len() as int),
            pair_views(sorted@) == sorted_pairs(all.take(all.len() - pending.len())),
        decreases pending.len(),
    {
        let ghost n = all.len() - pending.len();
        let ghost p = pending@;
        let x = pending.remove(0);
        assert((x.0@, x.1@) == pair_views(p)[0]);
        assert((x.0@, x.1@) == all[n]);
        assert(all.take(n + 1).drop_last() =~= all.take(n));
        insert_sorted_pair(&mut sorted, x);
        assert(pending@ =~= p.subrange(1, p.len() as int));
        assert(pair_views(pending@) =~= pair_views(p).subrange(1, p.len() as int));
    }
    assert(all.take(all.len() as int) =~= all);
    sorted
}

// ---------------------------------------------------------------------------
// Canonical original URLs
// ---------------------------------------------------------------------------

/// The canonical query of a web URL: its pairs sorted; `None` for a URL that did
/// not parse or whose scheme is not `http` or `https`.
pub open spec fn spec_canonical_query(
    scheme: Option<Seq<char>>,
    query: Seq<(Seq<char>, Seq<char>)>,
) -> Option<Seq<(Seq<char>, Seq<char>)>> {
    match scheme {
        Some(s) => if s == "http"@ || s == "https"@ {
            Some(sorted_pairs(query))
        } else {
            None
        },
        None => None,
    }
}

/// Decides whether a parsed URL has a canonical form and orders its query.
pub fn canonical_query(scheme: Option<&str>, query: Vec<(String, String)>) -> (r: Option<
    Vec<(String, String)>,
>)
    ensures
        match spec_canonical_query(opt_view(scheme), pair_views(query@)) {
            Some(q) => r matches Some(v) && pair_views(v@) == q,
            None => r is None,
        },
{
    match scheme {
        Some(s) => {
            if str_eq(s, "http") || str_eq(s, "https") {
                Some(sort_pairs(query))
            } else {
                None
            }
        },
        None => None,
    }
}

/// The canonical form of an original's URL: without fragment, query pairs sorted;
/// `None` unless it is an `http` or `https` URL.
pub open spec fn spec_normalized_url(url: Seq<char>) -> Option<Seq<char>> {
    match spec_canonical_query(spec_url_scheme(url), spec_url_query(url)) {
        None => None,
        Some(q) => Some(
            if q.len() == 0 {
                spec_url_base(url)
            } else {
                spec_url_with_query(spec_url_base(url), q)
            },
        ),
    }
}

/// Canonicalizes an original's URL so tracking-parameter order and fragments do
/// not split one picture into two catalog identities.
pub fn normalize_original_url(value: &str) -> (r: Option<String>)
    ensures
        match spec_normalized_url(value@) {
            Some(u) => r matches Some(s) && s@ == u,
            None => r is None,
        },
{
    let parts = match url_parts(value) {
        Some(p) => p,
        None => {
            return None;
        },
    };
    let UrlParts { scheme, query, base } = parts;
    let sorted = match canonical_query(Some(scheme.as_str()), query) {
        Some(q) => q,
        None => {
            return None;
        },
    };
    if sorted.len() == 0 {
        Some(base)
    } else {
        Some(url_with_query(base.as_str(), &sorted))
    }
}

} // verus!
