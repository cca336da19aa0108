//! The Consumet API as the downloader uses it: endpoints, the choice of the
//! search result, of the episode and of the stream.
use vstd::prelude::*;
use crate::anikuro::{url_encode, url_encode_spec, queries_of, gather_queries};
use crate::matching::{pick_best_index, pick_best_quality, pick_best_spec, ranks_of, is_last_max};
use crate::text::{chars_of, owned, push_str, string_from_range, trim, trim_bounds};

verus! {

/// The `title` field of a search result: a plain string, an object whose
/// `english`, `romaji` and `native` keys may be present (each with its value
/// when that value is a string), or anything else.
pub enum ConsumetTitle {
    Text(String),
    Object {
        english: Option<Option<String>>,
        romaji: Option<Option<String>>,
        native: Option<Option<String>>,
    },
    Other,
}

/// One search result.
pub struct SearchResult {
    pub id: String,
    pub title: ConsumetTitle,
    pub image: Option<String>,
    pub sub_or_dub: Option<String>,
}

/// One episode of an anime; `number` is its episode number converted to an
/// integer (truncated), when the API gives one.
pub struct EpisodeInfo {
    pub id: String,
    pub number: Option<usize>,
    pub url: Option<String>,
    pub title: Option<String>,
}

/// One stream of an episode.
pub struct StreamSource {
    pub url: String,
    pub is_m3u8: bool,
    pub quality: Option<String>,
}

/// Why no stream came out of the API.
pub enum ConsumetError {
    /// No base URL is configured.
    NoUrl,
    /// The request failed, with the message of the failure.
    Http(String),
    /// The answer could not be read, with the message of the failure.
    Json(String),
    /// No search result is close enough to the title.
    NoMatch(String),
    /// The chosen anime has no such episode.
    NoEpisode(usize),
    /// The episode has no stream.
    NoStream,
}

impl ConsumetError {
    /// The message shown for this error.
    pub fn message(&self) -> (r: String)
        ensures
            match self {
                ConsumetError::NoUrl => r@ == "URL Consumet vide"@,
                ConsumetError::Http(m) => r@ == "HTTP: "@ + m@,
                ConsumetError::Json(m) => r@ == "JSON: "@ + m@,
                ConsumetError::NoMatch(t) => r@ == "Aucun résultat pour « "@ + t@ + " »"@,
                ConsumetError::NoEpisode(n) => r@ == "Pas d'épisode "@ + crate::num::decimal(*n as nat)
                    + " dans les résultats"@,
                ConsumetError::NoStream => r@ == "Pas de stream pour cet épisode"@,
            },
    {
        match self {
            ConsumetError::NoUrl => owned("URL Consumet vide"),
            ConsumetError::Http(m) => {
                let mut r = owned("HTTP: ");
                push_str(&mut r, m.as_str());
                r
            },
            ConsumetError::Json(m) => {
                let mut r = owned("JSON: ");
                push_str(&mut r, m.as_str());
                r
            },
            ConsumetError::NoMatch(t) => {
                let mut r = owned("Aucun résultat pour « ");
                push_str(&mut r, t.as_str());
                push_str(&mut r, " »");
                r
            },
            ConsumetError::NoEpisode(n) => {
                let mut r = owned("Pas d'épisode ");
                crate::num::push_decimal(&mut r, *n as u64);
                push_str(&mut r, " dans les résultats");
                r
            },
            ConsumetError::NoStream => owned("Pas de stream pour cet épisode"),
        }
    }
}

/// The display title of a search result: the string itself, or the first of
/// the `english`, `romaji`, `native` keys that is present when its value is a
/// string, otherwise empty.
pub open spec fn title_str_spec(t: ConsumetTitle) -> Seq<char> {
    match t {
        ConsumetTitle::Text(s) => s@,
        ConsumetTitle::Object { english, romaji, native } => {
            let first = if english is Some {
                english
            } else if romaji is Some {
                romaji
            } else {
                native
            };
            match first {
                Some(Some(s)) => s@,
                _ => Seq::empty(),
            }
        },
        ConsumetTitle::Other => Seq::empty(),
    }
}

impl SearchResult {
    /// The display title, as `title_str_spec` describes it.
    pub fn title_str(&self) -> (r: String)
        ensures
            r@ == title_str_spec(self.title),
    {
        match &self.title {
            ConsumetTitle::Text(s) => owned(s.as_str()),
            ConsumetTitle::Object { english, romaji, native } => {
                let first = if english.is_some() {
                    english
                } else if romaji.is_some() {
                    romaji
                } else {
                    native
                };
                match first {
                    Some(Some(s)) => owned(s.as_str()),
                    _ => String::new(),
                }
            },
            ConsumetTitle::Other => String::new(),
        }
    }
}

/// Percent-encodes a query (the same encoding as for Anikuro).
pub fn urlencoding(s: &str) -> (r: String)
    ensures
        r@ == url_encode_spec(s@),
{
    url_encode(s)
}

/// `s` without its trailing `/` characters.
pub open spec fn trim_end_slash(s: Seq<char>) -> Seq<char>
    decreases s.len(),
{
    if s.len() > 0 && s.last() == '/' {
        trim_end_slash(s.drop_last())
    } else {
        s
    }
}

/// The base URL of the service: refused when blank, otherwise without its
/// trailing slashes.
pub fn consumet_base(base_url: &str) -> (r: Result<String, ConsumetError>)
    ensures
        trim(base_url@).len() == 0 ==> r matches Err(ConsumetError::NoUrl),
        trim(base_url@).len() > 0 ==> (r matches Ok(b) && b@ == trim_end_slash(base_url@)),
{
    let v = chars_of(base_url);
    let (lo, hi) = trim_bounds(&v, 0, v.len());
    assert(v@.subrange(0, v@.len() as int) =~= v@);
    if lo == hi {
        return Err(ConsumetError::NoUrl);
    }
    let mut end = v.len();
    while end > 0 && v[end - 1] == '/'
        invariant
            end <= v@.len(),
            trim_end_slash(v@) == trim_end_slash(v@.take(end as int)),
        decreases end,
    {
        assert(v@.take(end as int).drop_last() =~= v@.take(end - 1));
        end = end - 1;
    }
    proof {
        assert(v@.take(v@.len() as int) =~= v@);
        assert(v@.take(end as int) =~= v@.subrange(0, end as int));
    }
    Ok(string_from_range(&v, 0, end))
}

/// `base + "/anime/" + provider + middle + encoded(arg)`.
pub open spec fn endpoint_spec(base: Seq<char>, provider: Seq<char>, middle: Seq<char>, arg: Seq<char>) -> Seq<char> {
    base + "/anime/"@ + provider + middle + url_encode_spec(arg)
}

fn endpoint(base: &str, provider: &str, middle: &str, arg: &str) -> (r: String)
    ensures
        r@ == endpoint_spec(base@, provider@, middle@, arg@),
{
    let mut out = owned(base);
    push_str(&mut out, "/anime/");
    push_str(&mut out, provider);
    push_str(&mut out, middle);
    let e = url_encode(arg);
    push_str(&mut out, e.as_str());
    out
}

/// The search endpoint: `{base}/anime/{provider}/{query}`.
pub fn search_url(base: &str, provider: &str, query: &str) -> (r: String)
    ensures
        r@ == endpoint_spec(base@, provider@, "/"@, query@),
{
    endpoint(base, provider, "/", query)
}

/// The episode list endpoint: `{base}/anime/{provider}/info/{id}`.
pub fn info_url(base: &str, provider: &str, id: &str) -> (r: String)
    ensures
        r@ == endpoint_spec(base@, provider@, "/info/"@, id@),
{
    endpoint(base, provider, "/info/", id)
}

/// The stream endpoint: `{base}/anime/{provider}/watch/{episode_id}`.
pub fn watch_url(base: &str, provider: &str, episode_id: &str) -> (r: String)
    ensures
        r@ == endpoint_spec(base@, provider@, "/watch/"@, episode_id@),
{
    endpoint(base, provider, "/watch/", episode_id)
}

/// Each search result as a candidate with its single display title.
pub open spec fn result_candidates(results: Seq<SearchResult>) -> Seq<Seq<Seq<char>>> {
    Seq::new(results.len(), |i: int| seq![title_str_spec(results[i].title)])
}

/// The search result to use: `NoMatch` when there are no results or none is
/// close enough to the main or alternative titles.
pub fn choose_result(results: &Vec<SearchResult>, main: &str, alts: &Vec<String>) -> (r: Result<usize, ConsumetError>)
    ensures
        results@.len() == 0 ==> (r matches Err(ConsumetError::NoMatch(t)) && t@ == main@),
        results@.len() > 0 ==> match pick_best_spec(result_candidates(results@), queries_of(main@, alts.deep_view())) {
            None => (r matches Err(ConsumetError::NoMatch(t)) && t@ == main@),
            Some(i) => r == Ok::<usize, ConsumetError>(i as usize),
        },
        r matches Ok(i) ==> i < results@.len(),
{
    if results.len() == 0 {
        return Err(ConsumetError::NoMatch(owned(main)));
    }
    let mut cands: Vec<Vec<String>> = Vec::new();
    let mut i: usize = 0;
    while i < results.len()
        invariant
            i <= results@.len(),
            cands.deep_view() == result_candidates(results@).take(i as int),
        decreases results.len() - i,
    {
        let t = results[i].title_str();
        let mut one: Vec<String> = Vec::new();
        let ghost tv = t;
        one.push(t);
        proof {
            crate::text::lemma_deep_view_push(Seq::<String>::empty(), one@, tv);
            assert(one.deep_view() =~= seq![title_str_spec(results@[i as int].title)]);
        }
        let ghost before = cands@;
        let ghost ov = one;
        cands.push(one);
        proof {
            crate::text::lemma_deep_view_push(before, cands@, ov);
        }
        assert(cands.deep_view() =~= result_candidates(results@).take(i + 1));
        i = i + 1;
    }
    assert(result_candidates(results@).take(i as int) =~= result_candidates(results@));
    let queries = gather_queries(main, alts);
    assert(cands@.len() == cands.deep_view().len());
    match pick_best_index(&cands, &queries) {
        None => Err(ConsumetError::NoMatch(owned(main))),
        Some(b) => Ok(b),
    }
}

/// The episode to fetch: the first one whose number is `n`, otherwise the
/// `n`-th in the list (counting from one; the first for `n == 0`).
pub open spec fn episode_choice(eps: Seq<EpisodeInfo>, n: usize) -> Option<int> {
    if exists|i: int| 0 <= i < eps.len() && eps[i].number == Some(n) {
        Some(choose|i: int|
            0 <= i < eps.len() && eps[i].number == Some(n) && forall|j: int|
                0 <= j < i ==> eps[j].number != Some(n))
    } else {
        let k = if n == 0 {
            0
        } else {
            n - 1
        };
        if k < eps.len() {
            Some(k)
        } else {
            None
        }
    }
}

/// The episode to fetch, as `episode_choice` says; `NoEpisode(n)` when there is none.
pub fn choose_episode(eps: &Vec<EpisodeInfo>, n: usize) -> (r: Result<usize, ConsumetError>)
    ensures
        match episode_choice(eps@, n) {
            Some(i) => r == Ok::<usize, ConsumetError>(i as usize),
            None => r matches Err(ConsumetError::NoEpisode(m)) && m == n,
        },
        r matches Ok(i) ==> i < eps@.len(),
{
    let mut i: usize = 0;
    while i < eps.len()
        invariant
            i <= eps@.len(),
            forall|j: int| 0 <= j < i ==> eps@[j].number != Some(n),
        decreases eps.len() - i,
    {
        let hit = match eps[i].number {
            Some(m) => m == n,
            None => false,
        };
        if hit {
            assert(0 <= i < eps@.len() && eps@[i as int].number == Some(n));
            let ghost c = choose|k: int|
                0 <= k < eps@.len() && eps@[k].number == Some(n) && forall|j: int|
                    0 <= j < k ==> eps@[j].number != Some(n);
            assert(c == i) by {
                assert(0 <= i < eps@.len() && eps@[i as int].number == Some(n) && forall|j: int|
                    0 <= j < i ==> eps@[j].number != Some(n));
                if c < i {
                } else if c > i {
                    assert(eps@[i as int].number != Some(n));
                }
            }
            return Ok(i);
        }
        i = i + 1;
    }
    let k = if n == 0 {
        0
    } else {
        n - 1
    };
    if k < eps.len() {
        Ok(k)
    } else {
        Err(ConsumetError::NoEpisode(n))
    }
}

/// The quality labels of a list of streams.
pub open spec fn stream_qualities(s: Seq<StreamSource>) -> Seq<Option<Seq<char>>> {
    Seq::new(s.len(), |i: int| s[i].quality.deep_view())
}

/// The stream to download: the last one of the best quality rank
/// (`backup` ranks low); `NoStream` when there is none.
pub fn choose_source(sources: &Vec<StreamSource>) -> (r: Result<usize, ConsumetError>)
    ensures
        sources@.len() == 0 ==> r matches Err(ConsumetError::NoStream),
        r matches Ok(i) ==> is_last_max(ranks_of(stream_qualities(sources@), true), i as int),
        sources@.len() > 0 ==> r is Ok,
{
    let mut qs: Vec<Option<String>> = Vec::new();
    let mut i: usize = 0;
    while i < sources.len()
        invariant
            i <= sources@.len(),
            qs@.len() == i,
            qs.deep_view() == stream_qualities(sources@).take(i as int),
        decreases sources.len() - i,
    {
        let q = match &sources[i].quality {
            Some(s) => Some(owned(s.as_str())),
            None => None,
        };
        let ghost before = qs@;
        let ghost qq = q;
        qs.push(q);
        proof {
            crate::text::lemma_deep_view_push(before, qs@, qq);
        }
        assert(qs.deep_view() =~= stream_qualities(sources@).take(i + 1));
        i = i + 1;
    }
    assert(stream_qualities(sources@).take(i as int) =~= stream_qualities(sources@));
    match pick_best_quality(&qs, true) {
        None => Err(ConsumetError::NoStream),
        Some(b) => Ok(b),
    }
}

/// The index of the best stream among several (the same rule as `choose_source`).
pub fn pick_best_source(sources: &Vec<StreamSource>) -> (r: Option<usize>)
    ensures
        r is None <==> sources@.len() == 0,
        r matches Some(i) ==> is_last_max(ranks_of(stream_qualities(sources@), true), i as int),
{
    match choose_source(sources) {
        Ok(i) => Some(i),
        Err(_) => None,
    }
}

} // verus!
