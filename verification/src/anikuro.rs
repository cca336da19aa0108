//! The Anikuro API as the downloader uses it: query encoding, the choice of
//! the search result, and of the stream among the returned sources.
use vstd::prelude::*;
use crate::matching::{pick_best_index, pick_best_quality, pick_best_spec, ranks_of, is_last_max};
use crate::text::{chars_of, char_is_ascii_alphanumeric, is_ascii_alphanumeric, owned, push_char, push_str};

verus! {

// ---------------------------------------------------------------------------
// Query encoding
// ---------------------------------------------------------------------------

/// Characters that stay as they are in an encoded query.
pub open spec fn is_unreserved(c: char) -> bool {
    is_ascii_alphanumeric(c) || c == '-' || c == '_' || c == '.' || c == '~'
}

/// Upper-case hexadecimal digit for `d < 16`.
pub open spec fn hex_upper(d: int) -> char {
    if d < 10 {
        (0x30 + d) as char
    } else {
        (0x41 + d - 10) as char
    }
}

/// `%XX` for every byte, in upper-case hexadecimal.
pub open spec fn percent_bytes(bs: Seq<u8>) -> Seq<char>
    decreases bs.len(),
{
    if bs.len() == 0 {
        Seq::empty()
    } else {
        percent_bytes(bs.drop_last()) + seq!['%', hex_upper((bs.last() / 16) as int), hex_upper((bs.last() % 16) as int)]
    }
}

/// A query percent-encoded: unreserved characters kept, every other character
/// written as the `%XX` escapes of its UTF-8 bytes.
pub open spec fn url_encode_spec(s: Seq<char>) -> Seq<char>
    decreases s.len(),
{
    if s.len() == 0 {
        Seq::empty()
    } else {
        let c = s.last();
        url_encode_spec(s.drop_last()) + if is_unreserved(c) {
            seq![c]
        } else {
            percent_bytes(vstd::utf8::encode_utf8(seq![c]))
        }
    }
}

fn hex_digit(d: u8) -> (c: char)
    requires
        d < 16,
    ensures
        c == hex_upper(d as int),
{
    let c = match d {
        0 => '0',
        1 => '1',
        2 => '2',
        3 => '3',
        4 => '4',
        5 => '5',
        6 => '6',
        7 => '7',
        8 => '8',
        9 => '9',
        10 => 'A',
        11 => 'B',
        12 => 'C',
        13 => 'D',
        14 => 'E',
        _ => 'F',
    };
    assert(c == hex_upper(d as int));
    c
}

/// Percent-encodes a query string, as `url_encode_spec` describes it.
pub fn url_encode(s: &str) -> (r: String)
    ensures
        r@ == url_encode_spec(s@),
{
    let v = chars_of(s);
    let mut out = String::new();
    let mut i: usize = 0;
    while i < v.len()
        invariant
            i <= v@.len(),
            v@ == s@,
            out@ == url_encode_spec(v@.take(i as int)),
        decreases v.len() - i,
    {
        let c = v[i];
        let ghost before = out@;
        assert(v@.take(i + 1).drop_last() =~= v@.take(i as int));
        if char_is_ascii_alphanumeric(c) || c == '-' || c == '_' || c == '.' || c == '~' {
            push_char(&mut out, c);
            assert(out@ =~= before + seq![c]);
        } else {
            let mut one = String::new();
            push_char(&mut one, c);
            let bytes = one.as_str().as_bytes();
            assert(one@ =~= seq![c]);
            let mut k: usize = 0;
            while k < bytes.len()
                invariant
                    k <= bytes@.len(),
                    out@ == before + percent_bytes(bytes@.take(k as int)),
                decreases bytes.len() - k,
            {
                let b = bytes[k];
                push_char(&mut out, '%');
                push_char(&mut out, hex_digit(b / 16));
                push_char(&mut out, hex_digit(b % 16));
                assert(bytes@.take(k + 1).drop_last() =~= bytes@.take(k as int));
                assert(out@ =~= before + percent_bytes(bytes@.take(k + 1)));
                k = k + 1;
            }
            assert(bytes@.take(k as int) =~= bytes@);
        }
        i = i + 1;
    }
    assert(v@.take(i as int) =~= v@);
    out
}

// ---------------------------------------------------------------------------
// Search results
// ---------------------------------------------------------------------------

/// The title block of a search result.
pub struct TitleObj {
    pub romaji: Option<String>,
    pub english: Option<String>,
    pub native: Option<String>,
    pub user_preferred: Option<String>,
}

/// One search result.
pub struct SearchItem {
    pub anilist_id: Option<i64>,
    pub title: Option<TitleObj>,
}

/// The titles of `t` that are present and not empty, English first, then
/// romaji, user-preferred and native.
pub open spec fn all_titles_spec(t: TitleObj) -> Seq<Seq<char>> {
    present_title(t.english) + present_title(t.romaji) + present_title(t.user_preferred)
        + present_title(t.native)
}

/// The title as a one-element list when present and not empty.
pub open spec fn present_title(o: Option<String>) -> Seq<Seq<char>> {
    match o {
        Some(s) => if s@.len() > 0 {
            seq![s@]
        } else {
            Seq::empty()
        },
        None => Seq::empty(),
    }
}

fn push_present(out: &mut Vec<String>, o: &Option<String>)
    ensures
        final(out).deep_view() == old(out).deep_view() + present_title(*o),
{
    if let Some(s) = o {
        if !s.as_str().is_empty() {
            let ghost before = out@;
            let ghost bd = out.deep_view();
            let o = owned(s.as_str());
            out.push(o);
            proof {
                crate::text::lemma_deep_view_push(before, out@, o);
            }
            assert(out.deep_view() =~= bd + seq![s@]);
            return;
        }
    }
    assert(out.deep_view() =~= old(out).deep_view() + Seq::<Seq<char>>::empty());
}

impl TitleObj {
    /// The titles that are present and not empty, English first.
    pub fn all_titles(&self) -> (r: Vec<String>)
        ensures
            r.deep_view() == all_titles_spec(*self),
    {
        let mut out: Vec<String> = Vec::new();
        push_present(&mut out, &self.english);
        push_present(&mut out, &self.romaji);
        push_present(&mut out, &self.user_preferred);
        push_present(&mut out, &self.native);
        assert(out.deep_view() =~= all_titles_spec(*self));
        out
    }
}

/// The titles of every search result (none for a result without a title block).
pub open spec fn candidates_of(items: Seq<SearchItem>) -> Seq<Seq<Seq<char>>> {
    Seq::new(
        items.len(),
        |i: int|
            match items[i].title {
                Some(t) => all_titles_spec(t),
                None => Seq::empty(),
            },
    )
}

/// The main title followed by the alternative ones.
pub open spec fn queries_of(main: Seq<char>, alts: Seq<Seq<char>>) -> Seq<Seq<char>> {
    seq![main] + alts
}

/// Gathers the main title and the alternative titles into one list.
pub fn gather_queries(main: &str, alts: &Vec<String>) -> (r: Vec<String>)
    ensures
        r.deep_view() == queries_of(main@, alts.deep_view()),
{
    let mut out: Vec<String> = Vec::new();
    out.push(owned(main));
    let mut i: usize = 0;
    while i < alts.len()
        invariant
            i <= alts@.len(),
            out.deep_view() == seq![main@] + alts.deep_view().take(i as int),
        decreases alts.len() - i,
    {
        let ghost before = out@;
        let a = owned(alts[i].as_str());
        out.push(a);
        proof {
            crate::text::lemma_deep_view_push(before, out@, a);
        }
        assert(alts.deep_view()[i as int] == alts@[i as int]@);
        assert(out.deep_view() =~= seq![main@] + alts.deep_view().take(i + 1));
        i = i + 1;
    }
    assert(alts.deep_view().take(i as int) =~= alts.deep_view());
    out
}

/// The search result closest to the main or alternative titles, if close enough.
pub fn pick_best_match(items: &Vec<SearchItem>, main: &str, alts: &Vec<String>) -> (r: Option<usize>)
    ensures
        r matches Some(i) ==> pick_best_spec(candidates_of(items@), queries_of(main@, alts.deep_view())) == Some(i as int),
        r is None ==> pick_best_spec(candidates_of(items@), queries_of(main@, alts.deep_view())) is None,
        r matches Some(i) ==> i < items@.len(),
{
    proof {
        crate::matching::lemma_pick_best_index(candidates_of(items@), queries_of(main@, alts.deep_view()));
    }
    let mut cands: Vec<Vec<String>> = Vec::new();
    let mut i: usize = 0;
    while i < items.len()
        invariant
            i <= items@.len(),
            cands.deep_view() == candidates_of(items@).take(i as int),
        decreases items.len() - i,
    {
        let titles = match &items[i].title {
            Some(t) => t.all_titles(),
            None => {
                let e: Vec<String> = Vec::new();
                assert(e.deep_view() =~= Seq::<Seq<char>>::empty());
                e
            },
        };
        let ghost before = cands@;
        let ghost tv = titles;
        cands.push(titles);
        proof {
            crate::text::lemma_deep_view_push(before, cands@, tv);
        }
        assert(cands.deep_view() =~= candidates_of(items@).take(i + 1));
        i = i + 1;
    }
    assert(candidates_of(items@).take(i as int) =~= candidates_of(items@));
    let queries = gather_queries(main, alts);
    assert(cands@.len() == cands.deep_view().len());
    pick_best_index(&cands, &queries)
}

// ---------------------------------------------------------------------------
// Sources
// ---------------------------------------------------------------------------

/// One stream of a track.
pub struct SourceEntry {
    pub url: Option<String>,
    pub quality: Option<String>,
}

/// A sub or dub track: its default stream, its request headers (each key with
/// its value when that value is a string) and its streams.
pub struct SubObj {
    pub default: Option<String>,
    pub headers: Option<Vec<(String, Option<String>)>>,
    pub sources: Option<Vec<SourceEntry>>,
}

/// The raw tracks of an episode.
pub struct SourcesRaw {
    pub sub: Option<SubObj>,
    pub dub: Option<SubObj>,
}

/// Why no stream came out of the API.
pub enum AnikuroError {
    /// The request failed, with the message of the failure.
    Http(String),
    /// The API answered with an error message.
    Api(String),
    /// The answer could not be read, with the message of the failure.
    Json(String),
    /// No search result is close enough to the title.
    NoMatch(String),
    /// No stream for the chosen result.
    NoStream,
}

impl AnikuroError {
    /// The message shown for this error.
    pub fn message(&self) -> (r: String)
        ensures
            match self {
                AnikuroError::Http(m) => r@ == "HTTP: "@ + m@,
                AnikuroError::Api(m) => r@ == "API: "@ + m@,
                AnikuroError::Json(m) => r@ == "JSON: "@ + m@,
                AnikuroError::NoMatch(t) => r@ == "Aucun résultat pour « "@ + t@ + " »"@,
                AnikuroError::NoStream => r@ == "Pas de source streaming"@,
            },
    {
        match self {
            AnikuroError::Http(m) => {
                let mut r = owned("HTTP: ");
                push_str(&mut r, m.as_str());
                r
            },
            AnikuroError::Api(m) => {
                let mut r = owned("API: ");
                push_str(&mut r, m.as_str());
                r
            },
            AnikuroError::Json(m) => {
                let mut r = owned("JSON: ");
                push_str(&mut r, m.as_str());
                r
            },
            AnikuroError::NoMatch(t) => {
                let mut r = owned("Aucun résultat pour « ");
                push_str(&mut r, t.as_str());
                push_str(&mut r, " »");
                r
            },
            AnikuroError::NoStream => owned("Pas de source streaming"),
        }
    }
}

/// The value of the first header whose name is `key`, if any.
pub open spec fn header_value(h: Seq<(String, Option<String>)>, key: Seq<char>) -> Option<Option<Seq<char>>>
    decreases h.len(),
{
    if h.len() == 0 {
        None
    } else if h[0].0@ == key {
        Some(h[0].1.deep_view())
    } else {
        header_value(h.drop_first(), key)
    }
}

/// The referer of a track: the `Referer` header, or when there is none the
/// `referer` header, kept when its value is a string.
pub open spec fn referer_spec(headers: Option<Vec<(String, Option<String>)>>) -> Option<Seq<char>> {
    match headers {
        None => None,
        Some(h) => match header_value(h@, "Referer"@) {
            Some(v) => v,
            None => match header_value(h@, "referer"@) {
                Some(v) => v,
                None => None,
            },
        },
    }
}

fn find_header(h: &Vec<(String, Option<String>)>, key: &str) -> (r: Option<Option<String>>)
    ensures
        r.deep_view() == header_value(h@, key@),
{
    let mut i: usize = 0;
    assert(h@.skip(0) =~= h@);
    while i < h.len()
        invariant
            i <= h@.len(),
            header_value(h@, key@) == header_value(h@.skip(i as int), key@),
        decreases h.len() - i,
    {
        assert(h@.skip(i as int).drop_first() =~= h@.skip(i + 1));
        assert(h@.skip(i as int)[0] == h@[i as int]);
        if crate::text::str_eq(h[i].0.as_str(), key) {
            let v = match &h[i].1 {
                Some(s) => Some(owned(s.as_str())),
                None => None,
            };
            return Some(v);
        }
        i = i + 1;
    }
    None
}

/// The referer header of a track, as `referer_spec` describes it.
pub fn referer_of(headers: &Option<Vec<(String, Option<String>)>>) -> (r: Option<String>)
    ensures
        r.deep_view() == referer_spec(*headers),
{
    match headers {
        None => None,
        Some(h) => match find_header(h, "Referer") {
            Some(v) => v,
            None => match find_header(h, "referer") {
                Some(v) => v,
                None => None,
            },
        },
    }
}

/// The track to use: the dub when a dub is preferred and present, else the
/// sub, else whichever is present.
pub open spec fn chosen_track(raw: SourcesRaw, prefer_dub: bool) -> Option<SubObj> {
    if prefer_dub {
        if raw.dub is Some {
            raw.dub
        } else {
            raw.sub
        }
    } else {
        if raw.sub is Some {
            raw.sub
        } else {
            raw.dub
        }
    }
}

/// The quality labels of a list of streams.
pub open spec fn qualities_of(s: Seq<SourceEntry>) -> Seq<Option<Seq<char>>> {
    Seq::new(s.len(), |i: int| s[i].quality.deep_view())
}

/// The stream URL of a track: the URL of its best-ranked stream when that
/// stream has one, otherwise the track's default URL.
pub open spec fn track_url_ok(t: SubObj, url: Seq<char>) -> bool {
    match t.sources {
        Some(srcs) => if srcs@.len() > 0 {
            exists|i: int|
                is_last_max(ranks_of(qualities_of(srcs@), false), i) && (match srcs@[i].url {
                    Some(u) => u@ == url,
                    None => t.default matches Some(d) && d@ == url,
                })
        } else {
            t.default matches Some(d) && d@ == url
        },
        None => t.default matches Some(d) && d@ == url,
    }
}

/// A track yields no URL: its best stream has none and it has no default.
pub open spec fn track_has_no_url(t: SubObj) -> bool {
    &&& t.default is None
    &&& match t.sources {
        Some(srcs) => forall|i: int|
            is_last_max(ranks_of(qualities_of(srcs@), false), i) ==> srcs@[i].url is None,
        None => true,
    }
}

/// The stream and referer that the API answer yields, after its `ok` flag was checked.
pub fn select_stream(raw: Option<SourcesRaw>, prefer_dub: bool) -> (r: Result<(String, Option<String>), AnikuroError>)
    ensures
        raw is None ==> r is Err && r->Err_0 is NoStream,
        raw matches Some(rw) ==> match chosen_track(rw, prefer_dub) {
            None => r is Err && r->Err_0 is NoStream,
            Some(t) => match r {
                Ok((url, referer)) => track_url_ok(t, url@) && referer.deep_view() == referer_spec(t.headers),
                Err(e) => e is NoStream && track_has_no_url(t),
            },
        },
{
    let rw = match raw {
        None => return Err(AnikuroError::NoStream),
        Some(rw) => rw,
    };
    let track = if prefer_dub {
        if rw.dub.is_some() {
            rw.dub
        } else {
            rw.sub
        }
    } else {
        if rw.sub.is_some() {
            rw.sub
        } else {
            rw.dub
        }
    };
    let t = match track {
        None => return Err(AnikuroError::NoStream),
        Some(t) => t,
    };
    let referer = referer_of(&t.headers);
    match best_source_url(&t.sources) {
        Some(u) => Ok((u, referer)),
        None => match &t.default {
            Some(d) => Ok((owned(d.as_str()), referer)),
            None => Err(AnikuroError::NoStream),
        },
    }
}

/// The URL of the best-ranked stream of a track, when that stream has one.
fn best_source_url(sources: &Option<Vec<SourceEntry>>) -> (r: Option<String>)
    ensures
        r matches Some(u) ==> sources matches Some(s) && exists|i: int|
            is_last_max(ranks_of(qualities_of(s@), false), i) && (s@[i].url matches Some(x)
                && x@ == u@),
        r is None ==> match *sources {
            None => true,
            Some(s) => s@.len() == 0 || ((exists|i: int|
                is_last_max(ranks_of(qualities_of(s@), false), i)) && forall|i: int|
                is_last_max(ranks_of(qualities_of(s@), false), i) ==> s@[i].url is None),
        },
{
    let srcs = match sources {
        None => return None,
        Some(srcs) => srcs,
    };
    let mut qs: Vec<Option<String>> = Vec::new();
    let mut i: usize = 0;
    while i < srcs.len()
        invariant
            i <= srcs@.len(),
            qs@.len() == i,
            qs.deep_view() == qualities_of(srcs@).take(i as int),
        decreases srcs.len() - i,
    {
        let q = match &srcs[i].quality {
            Some(s) => Some(owned(s.as_str())),
            None => None,
        };
        let ghost before = qs@;
        let ghost qq = q;
        qs.push(q);
        proof {
            crate::text::lemma_deep_view_push(before, qs@, qq);
        }
        assert(qs.deep_view() =~= qualities_of(srcs@).take(i + 1));
        i = i + 1;
    }
    assert(qualities_of(srcs@).take(i as int) =~= qualities_of(srcs@));
    match pick_best_quality(&qs, false) {
        None => None,
        Some(b) => {
            let ghost rs = ranks_of(qualities_of(srcs@), false);
            proof {
                assert forall|j: int| is_last_max(rs, j) implies j == b by {
                    crate::matching::lemma_last_max_unique(rs, j, b as int);
                }
            }
            match &srcs[b].url {
                Some(u) => Some(owned(u.as_str())),
                None => None,
            }
        },
    }
}

/// The result to fetch sources for, after a search for `main`: `NoMatch` when
/// there are no results or none close enough, `NoStream` when the chosen one
/// has no AniList id.
pub fn choose_anilist_id(items: &Vec<SearchItem>, main: &str, alts: &Vec<String>) -> (r: Result<i64, AnikuroError>)
    ensures
        items@.len() == 0 ==> (r matches Err(AnikuroError::NoMatch(t)) && t@ == main@),
        items@.len() > 0 ==> match pick_best_spec(candidates_of(items@), queries_of(main@, alts.deep_view())) {
            None => (r matches Err(AnikuroError::NoMatch(t)) && t@ == main@),
            Some(i) => match items@[i].anilist_id {
                Some(id) => r == Ok::<i64, AnikuroError>(id),
                None => r matches Err(AnikuroError::NoStream),
            },
        },
{
    if items.len() == 0 {
        return Err(AnikuroError::NoMatch(owned(main)));
    }
    match pick_best_match(items, main, alts) {
        None => Err(AnikuroError::NoMatch(owned(main))),
        Some(i) => match items[i].anilist_id {
            Some(id) => Ok(id),
            None => Err(AnikuroError::NoStream),
        },
    }
}

/// The error of an answer whose `ok` flag is false: its message, or `fallback`.
pub fn api_error(message: Option<String>, fallback: &str) -> (r: AnikuroError)
    ensures
        (r matches AnikuroError::Api(m) && m@ == match message {
            Some(s) => s@,
            None => fallback@,
        }),
{
    match message {
        Some(s) => AnikuroError::Api(s),
        None => AnikuroError::Api(owned(fallback)),
    }
}

/// The search endpoint for a query.
pub fn search_url(query: &str) -> (r: String)
    ensures
        r@ == "https://anikuro.to/api/v1/discovery/search?q="@ + url_encode_spec(query@),
{
    let mut out = owned("https://anikuro.to/api/v1/discovery/search?q=");
    let q = url_encode(query);
    push_str(&mut out, q.as_str());
    out
}

/// The sources endpoint for an episode of a result on a provider.
pub fn sources_url(provider: &str, anilist_id: i64, episode: u64) -> (r: String)
    ensures
        r@ == "https://anikuro.to/api/v1/sources/"@ + provider@ + "/"@ + crate::num::signed_decimal(anilist_id as int)
            + ":"@ + crate::num::decimal(episode as nat),
{
    let mut out = owned("https://anikuro.to/api/v1/sources/");
    push_str(&mut out, provider);
    push_str(&mut out, "/");
    crate::num::push_signed_decimal(&mut out, anilist_id);
    push_str(&mut out, ":");
    crate::num::push_decimal(&mut out, episode);
    out
}

} // verus!
