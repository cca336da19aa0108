//! The UniqueStream catalogue: the shapes of its API answers, the choice of
//! an audio track, the order in which HLS playlists are tried, and the paging
//! through a season's episodes.
use vstd::prelude::*;
use crate::num::{decimal, push_decimal};
use crate::text::{chars_of, owned, push_str, seq_lt, str_eq, str_lt};

verus! {

/// Root of the catalogue's API.
pub const BASE: &'static str = "https://anime.uniquestream.net/api/v1";

/// Number of episodes asked for per page.
pub const EPISODES_PER_PAGE: i64 = 20;

/// What can go wrong while talking to the catalogue.  Transport and decoding
/// failures carry the message of the failure.
pub enum UsError {
    Http(String),
    Json(String),
    Api(String),
    NoHls,
    NotASeries,
}

impl UsError {
    /// The message shown for this error.
    pub fn message(&self) -> (r: String)
        ensures
            match self {
                UsError::Http(m) => r@ == "HTTP: "@ + m@,
                UsError::Json(m) => r@ == "JSON: "@ + m@,
                UsError::Api(m) => r@ == "API: "@ + m@,
                UsError::NoHls => r@ == "Pas de média HLS"@,
                UsError::NotASeries => r@ == "Pas de série pour ce content_id (probablement un film/special)"@,
            },
    {
        match self {
            UsError::Http(m) => {
                let mut r = owned("HTTP: ");
                push_str(&mut r, m.as_str());
                r
            },
            UsError::Json(m) => {
                let mut r = owned("JSON: ");
                push_str(&mut r, m.as_str());
                r
            },
            UsError::Api(m) => {
                let mut r = owned("API: ");
                push_str(&mut r, m.as_str());
                r
            },
            UsError::NoHls => owned("Pas de média HLS"),
            UsError::NotASeries => owned("Pas de série pour ce content_id (probablement un film/special)"),
        }
    }
}

/// An image of a series.
pub struct SeriesImage {
    pub url: String,
    pub kind: String,
}

/// A season as the series page lists it.
pub struct SeasonInfo {
    pub content_id: String,
    pub title: String,
    pub season_number: Option<i64>,
    pub episode_count: Option<i64>,
}

/// The page of a series.
pub struct SeriesDetail {
    pub content_id: String,
    pub title: String,
    pub description: Option<String>,
    pub images: Vec<SeriesImage>,
    pub seasons: Vec<SeasonInfo>,
    pub audio_locales: Option<Vec<String>>,
    pub subtitle_locales: Option<Vec<String>>,
}

/// The page of a film.
pub struct MovieDetail {
    pub content_id: Option<String>,
    pub title: String,
    pub description: Option<String>,
    pub image: Option<String>,
    pub year: Option<i64>,
    pub duration_ms: Option<i64>,
    pub audio_locales: Option<Vec<String>>,
    pub subtitle_locales: Option<Vec<String>>,
}

/// A content page: a series or a film.
pub enum ContentDetail {
    Series(SeriesDetail),
    Movie(MovieDetail),
}

/// A playlist with burnt-in subtitles.
pub struct HardSubs {
    pub locale: String,
    pub playlist: String,
}

/// The main HLS stream of a media answer.
pub struct HlsBlock {
    pub locale: String,
    pub playlist: String,
    pub hard_subs: Option<Vec<HardSubs>>,
}

/// One further audio version of a media answer.
pub struct HlsVersion {
    pub locale: String,
    pub playlist: String,
}

/// The further audio versions of a media answer.
pub struct MediaVersions {
    pub hls: Vec<HlsVersion>,
}

/// The answer of a media request.
pub struct EpisodeMedia {
    pub title: Option<String>,
    pub content_id: Option<String>,
    pub hls: Option<HlsBlock>,
    pub versions: Option<MediaVersions>,
}

/// One entry of the catalogue index.
pub struct IndexEntry {
    pub prefix: String,
    pub count: i64,
    pub offset: i64,
}

/// The catalogue index.
pub struct IndexResponse {
    pub total: i64,
    pub data: Vec<IndexEntry>,
}

// ---------------------------------------------------------------------------
// Audio track
// ---------------------------------------------------------------------------

/// The dubbed tracks in order of preference.
pub open spec fn dub_preference() -> Seq<Seq<char>> {
    seq!["fr-FR"@, "en-US"@, "es-ES"@, "es-419"@, "de-DE"@, "pt-BR"@, "it-IT"@]
}

/// The locales a content offers (none when the list is absent).
pub open spec fn locales_of(o: Option<Seq<Seq<char>>>) -> Seq<Seq<char>> {
    match o {
        Some(v) => v,
        None => Seq::empty(),
    }
}

/// The first of `prefs[k..]` that `locales` holds.
pub open spec fn first_offered(prefs: Seq<Seq<char>>, locales: Seq<Seq<char>>, k: int) -> Option<Seq<char>>
    decreases prefs.len() - k,
{
    if k < 0 || k >= prefs.len() {
        None
    } else if locales.contains(prefs[k]) {
        Some(prefs[k])
    } else {
        first_offered(prefs, locales, k + 1)
    }
}

/// The audio track to ask for: when a dub is preferred, the first dub of the
/// preference list that is offered; else Japanese when offered; else the first
/// locale offered; else Japanese.
pub open spec fn audio_locale_spec(locales: Seq<Seq<char>>, prefer_dub: bool) -> Seq<char> {
    match (if prefer_dub { first_offered(dub_preference(), locales, 0) } else { None }) {
        Some(l) => l,
        None => if locales.contains("ja-JP"@) {
            "ja-JP"@
        } else if locales.len() > 0 {
            locales[0]
        } else {
            "ja-JP"@
        },
    }
}

fn offers(locales: &Vec<String>, want: &str) -> (b: bool)
    ensures
        b == locales.deep_view().contains(want@),
{
    let mut i: usize = 0;
    while i < locales.len()
        invariant
            i <= locales@.len(),
            forall|k: int| 0 <= k < i ==> locales.deep_view()[k] != want@,
        decreases locales.len() - i,
    {
        if str_eq(locales[i].as_str(), want) {
            assert(locales.deep_view()[i as int] == want@);
            return true;
        }
        i = i + 1;
    }
    proof {
        if locales.deep_view().contains(want@) {
            let k = choose|k: int| 0 <= k < locales.deep_view().len() && locales.deep_view()[k] == want@;
            assert(locales.deep_view()[k] != want@);
        }
    }
    false
}

/// The audio track to ask for, as `audio_locale_spec` describes it.
pub fn pick_audio_locale(audio_locales: &Option<Vec<String>>, prefer_dub: bool) -> (r: String)
    ensures
        r@ == audio_locale_spec(locales_of(audio_locales.deep_view()), prefer_dub),
{
    let empty: Vec<String> = Vec::new();
    let locales: &Vec<String> = match audio_locales {
        Some(v) => v,
        None => &empty,
    };
    assert(locales.deep_view() =~= locales_of(audio_locales.deep_view()));
    let ghost ls = locales.deep_view();
    if prefer_dub {
        let prefs: [&str; 7] = ["fr-FR", "en-US", "es-ES", "es-419", "de-DE", "pt-BR", "it-IT"];
        let mut k: usize = 0;
        assert(prefs@.len() == 7);
        while k < 7
            invariant
                k <= 7,
                prefs@.len() == 7,
                forall|j: int| 0 <= j < 7 ==> (#[trigger] prefs@[j])@ == dub_preference()[j],
                first_offered(dub_preference(), ls, 0) == first_offered(dub_preference(), ls, k as int),
                ls == locales.deep_view(),
                ls == locales_of(audio_locales.deep_view()),
                prefer_dub,
            decreases 7 - k,
        {
            let cand = prefs[k];
            assert(cand@ == dub_preference()[k as int]);
            if offers(locales, cand) {
                assert(first_offered(dub_preference(), ls, k as int) == Some(cand@));
                return owned(cand);
            }
            k = k + 1;
        }
    }
    if offers(locales, "ja-JP") {
        return owned("ja-JP");
    }
    if locales.len() > 0 {
        owned(locales[0].as_str())
    } else {
        owned("ja-JP")
    }
}

// ---------------------------------------------------------------------------
// Order in which HLS playlists are tried
// ---------------------------------------------------------------------------

/// A candidate stream: its audio locale and its playlist URL.
pub type Candidate = (String, String);

/// The views of a list of candidates.
pub open spec fn pairs_view(s: Seq<Candidate>) -> Seq<(Seq<char>, Seq<char>)> {
    Seq::new(s.len(), |i: int| (s[i].0@, s[i].1@))
}

/// The candidates of the further versions, those with a playlist, in order.
pub open spec fn version_candidates(vs: Seq<HlsVersion>) -> Seq<(Seq<char>, Seq<char>)>
    decreases vs.len(),
{
    if vs.len() == 0 {
        Seq::empty()
    } else {
        let rest = version_candidates(vs.drop_last());
        if vs.last().playlist@.len() > 0 {
            rest.push((vs.last().locale@, vs.last().playlist@))
        } else {
            rest
        }
    }
}

/// The candidates of one media answer: its main stream, then its further
/// versions, each kept when its playlist is not empty.
pub open spec fn media_candidates(m: EpisodeMedia) -> Seq<(Seq<char>, Seq<char>)> {
    let main = match m.hls {
        Some(h) => if h.playlist@.len() > 0 {
            seq![(h.locale@, h.playlist@)]
        } else {
            Seq::empty()
        },
        None => Seq::empty(),
    };
    let more = match m.versions {
        Some(v) => version_candidates(v.hls@),
        None => Seq::empty(),
    };
    main + more
}

/// The candidates of all the media answers, in order.
pub open spec fn all_candidates(ms: Seq<EpisodeMedia>) -> Seq<(Seq<char>, Seq<char>)>
    decreases ms.len(),
{
    if ms.len() == 0 {
        Seq::empty()
    } else {
        all_candidates(ms.drop_last()) + media_candidates(ms.last())
    }
}

/// How early a locale is tried: the asked-for locale first; then, when a dub is
/// preferred, the dubs in order and Japanese last; otherwise Japanese.
pub open spec fn locale_rank(loc: Seq<char>, desired: Seq<char>, prefer_dub: bool) -> int {
    if loc == desired {
        0
    } else if prefer_dub {
        if loc == "fr-FR"@ {
            1
        } else if loc == "en-US"@ {
            2
        } else if loc == "es-ES"@ {
            3
        } else if loc == "es-419"@ {
            4
        } else if loc == "de-DE"@ {
            5
        } else if loc == "pt-BR"@ {
            6
        } else if loc == "it-IT"@ {
            7
        } else if loc == "ja-JP"@ {
            50
        } else {
            20
        }
    } else if loc == "ja-JP"@ {
        1
    } else {
        20
    }
}

/// Candidate `a` is tried before `b`: lower rank, or equal rank and a playlist
/// URL that sorts first.
pub open spec fn tried_before(
    a: (Seq<char>, Seq<char>),
    b: (Seq<char>, Seq<char>),
    desired: Seq<char>,
    prefer_dub: bool,
) -> bool {
    let ra = locale_rank(a.0, desired, prefer_dub);
    let rb = locale_rank(b.0, desired, prefer_dub);
    ra < rb || (ra == rb && seq_lt(a.1, b.1))
}

/// Candidate `i` is the first one with its playlist.
pub open spec fn first_with_playlist(cs: Seq<(Seq<char>, Seq<char>)>, i: int) -> bool {
    forall|j: int| 0 <= j < i ==> #[trigger] cs[j].1 != cs[i].1
}

/// Some entry of `ov` has playlist `pl`.
pub open spec fn has_playlist(ov: Seq<(Seq<char>, Seq<char>)>, pl: Seq<char>) -> bool {
    exists|k: int| 0 <= k < ov.len() && ov[k].1 == pl
}

/// `e` is the first candidate with its playlist.
pub open spec fn is_first_entry(cs: Seq<(Seq<char>, Seq<char>)>, e: (Seq<char>, Seq<char>)) -> bool {
    exists|i: int| 0 <= i < cs.len() && first_with_playlist(cs, i) && cs[i] == e
}

/// `ov` is the order in which the candidates `cs` are tried: each playlist
/// once, with the locale of its first candidate, sorted by `tried_before`.
pub open spec fn attempt_order(
    cs: Seq<(Seq<char>, Seq<char>)>,
    ov: Seq<(Seq<char>, Seq<char>)>,
    desired: Seq<char>,
    prefer_dub: bool,
) -> bool {
    &&& forall|k: int| 0 <= k < ov.len() ==> is_first_entry(cs, #[trigger] ov[k])
    &&& forall|i: int| 0 <= i < cs.len() ==> has_playlist(ov, #[trigger] cs[i].1)
    &&& forall|k1: int, k2: int|
        0 <= k1 < k2 < ov.len() ==> tried_before(#[trigger] ov[k1], #[trigger] ov[k2], desired, prefer_dub)
}

/// The rank of a locale, as `locale_rank` gives it.
fn rank_of(loc: &str, desired: &str, prefer_dub: bool) -> (r: u32)
    ensures
        r == locale_rank(loc@, desired@, prefer_dub),
{
    if str_eq(loc, desired) {
        0
    } else if prefer_dub {
        if str_eq(loc, "fr-FR") {
            1
        } else if str_eq(loc, "en-US") {
            2
        } else if str_eq(loc, "es-ES") {
            3
        } else if str_eq(loc, "es-419") {
            4
        } else if str_eq(loc, "de-DE") {
            5
        } else if str_eq(loc, "pt-BR") {
            6
        } else if str_eq(loc, "it-IT") {
            7
        } else if str_eq(loc, "ja-JP") {
            50
        } else {
            20
        }
    } else if str_eq(loc, "ja-JP") {
        1
    } else {
        20
    }
}

proof fn lemma_tried_before_trans(
    a: (Seq<char>, Seq<char>),
    b: (Seq<char>, Seq<char>),
    c: (Seq<char>, Seq<char>),
    desired: Seq<char>,
    prefer_dub: bool,
)
    requires
        tried_before(a, b, desired, prefer_dub),
        tried_before(b, c, desired, prefer_dub),
    ensures
        tried_before(a, c, desired, prefer_dub),
{
    if seq_lt(a.1, b.1) && seq_lt(b.1, c.1) {
        crate::text::lemma_seq_lt_trans(a.1, b.1, c.1);
    }
}

proof fn lemma_tried_before_total(
    a: (Seq<char>, Seq<char>),
    b: (Seq<char>, Seq<char>),
    desired: Seq<char>,
    prefer_dub: bool,
)
    requires
        a.1 != b.1,
        !tried_before(a, b, desired, prefer_dub),
    ensures
        tried_before(b, a, desired, prefer_dub),
{
    crate::text::lemma_seq_lt_total(a.1, b.1);
}

/// Candidate `(loc, pl)` is tried before `e`.
fn goes_before(loc: &String, pl: &String, e: &Candidate, desired: &str, prefer_dub: bool) -> (b: bool)
    ensures
        b == tried_before((loc@, pl@), (e.0@, e.1@), desired@, prefer_dub),
{
    let r = rank_of(loc.as_str(), desired, prefer_dub);
    let re = rank_of(e.0.as_str(), desired, prefer_dub);
    r < re || (r == re && str_lt(pl.as_str(), e.1.as_str()))
}

/// Appends the views of `c` to a list of candidates and keeps the view in step.
fn push_candidate(out: &mut Vec<Candidate>, locale: &String, playlist: &String)
    ensures
        pairs_view(final(out)@) == pairs_view(old(out)@).push((locale@, playlist@)),
{
    out.push((locale.clone(), playlist.clone()));
    assert(pairs_view(out@) =~= pairs_view(old(out)@).push((locale@, playlist@)));
}

/// The candidates of all the media answers, as `all_candidates` lists them.
pub fn collect_candidates(media: &Vec<EpisodeMedia>) -> (r: Vec<Candidate>)
    ensures
        pairs_view(r@) == all_candidates(media@),
{
    let mut out: Vec<Candidate> = Vec::new();
    let mut i: usize = 0;
    assert(pairs_view(out@) =~= all_candidates(media@.take(0)));
    while i < media.len()
        invariant
            i <= media@.len(),
            pairs_view(out@) == all_candidates(media@.take(i as int)),
        decreases media.len() - i,
    {
        let m = &media[i];
        let ghost before = pairs_view(out@);
        assert(media@.take(i + 1).drop_last() =~= media@.take(i as int));
        if let Some(h) = &m.hls {
            if !h.playlist.as_str().is_empty() {
                push_candidate(&mut out, &h.locale, &h.playlist);
            }
        }
        let ghost mid = pairs_view(out@);
        if let Some(v) = &m.versions {
            let mut j: usize = 0;
            assert(v.hls@.take(0) =~= Seq::<HlsVersion>::empty());
            while j < v.hls.len()
                invariant
                    j <= v.hls@.len(),
                    pairs_view(out@) == mid + version_candidates(v.hls@.take(j as int)),
                decreases v.hls.len() - j,
            {
                assert(v.hls@.take(j + 1).drop_last() =~= v.hls@.take(j as int));
                let hv = &v.hls[j];
                if !hv.playlist.as_str().is_empty() {
                    push_candidate(&mut out, &hv.locale, &hv.playlist);
                }
                j = j + 1;
                assert(pairs_view(out@) =~= mid + version_candidates(v.hls@.take(j as int)));
            }
            assert(v.hls@.take(j as int) =~= v.hls@);
        }
        assert(pairs_view(out@) =~= before + media_candidates(media@[i as int]));
        i = i + 1;
    }
    assert(media@.take(i as int) =~= media@);
    out
}

/// The order in which the candidates are tried, as `attempt_order` describes it.
pub fn order_candidates(cands: &Vec<Candidate>, desired: &str, prefer_dub: bool) -> (out: Vec<Candidate>)
    ensures
        attempt_order(pairs_view(cands@), pairs_view(out@), desired@, prefer_dub),
{
    let ghost cs = pairs_view(cands@);
    let mut out: Vec<Candidate> = Vec::new();
    let mut i: usize = 0;
    while i < cands.len()
        invariant
            i <= cands@.len(),
            cs == pairs_view(cands@),
            attempt_order(cs.take(i as int), pairs_view(out@), desired@, prefer_dub),
        decreases cands.len() - i,
    {
        let ghost ov = pairs_view(out@);
        let ghost pre = cs.take(i as int);
        let ghost post = cs.take(i + 1);
        let ghost c = cs[i as int];
        assert(post =~= pre.push(c));
        let loc = &cands[i].0;
        let pl = &cands[i].1;
        // Is the playlist already in the list?
        let mut k: usize = 0;
        let mut found = false;
        while k < out.len()
            invariant_except_break
                !found,
            invariant
                k <= out@.len(),
                ov == pairs_view(out@),
                pl@ == c.1,
                forall|q: int| 0 <= q < k ==> ov[q].1 != c.1,
            ensures
                found ==> k < ov.len() && ov[k as int].1 == c.1,
                !found ==> forall|q: int| 0 <= q < ov.len() ==> ov[q].1 != c.1,
            decreases out.len() - k,
        {
            if str_eq(out[k].1.as_str(), pl.as_str()) {
                found = true;
                break;
            }
            k = k + 1;
        }
        if found {
            assert(has_playlist(ov, c.1)) by {
                assert(ov[k as int].1 == c.1);
            }
            assert forall|q: int| 0 <= q < ov.len() implies is_first_entry(post, #[trigger] ov[q]) by {
                let w = choose|w: int| 0 <= w < pre.len() && first_with_playlist(pre, w) && pre[w] == ov[q];
                assert(post[w] == pre[w]);
                assert forall|j: int| 0 <= j < w implies #[trigger] post[j].1 != post[w].1 by {
                    assert(post[j] == pre[j]);
                    assert(pre[j].1 != pre[w].1);
                }
            }
            assert forall|j: int| 0 <= j < post.len() implies has_playlist(ov, #[trigger] post[j].1) by {
                if j < pre.len() {
                    assert(post[j] == pre[j]);
                    assert(has_playlist(ov, pre[j].1));
                }
            }
        } else {
            assert(!has_playlist(ov, c.1));
            let mut p: usize = 0;
            while p < out.len() && !goes_before(loc, pl, &out[p], desired, prefer_dub)
                invariant
                    p <= out@.len(),
                    ov == pairs_view(out@),
                    pl@ == c.1,
                    loc@ == c.0,
                    forall|q: int| 0 <= q < p ==> !tried_before(c, #[trigger] ov[q], desired@, prefer_dub),
                decreases out.len() - p,
            {
                p = p + 1;
            }
            let item = (loc.clone(), pl.clone());
            out.insert(p, item);
            let ghost nv = pairs_view(out@);
            assert(nv =~= ov.insert(p as int, c));
            assert forall|q: int| 0 <= q < nv.len() implies is_first_entry(post, #[trigger] nv[q]) by {
                if q == p {
                    assert(post[i as int] == c);
                    assert forall|j: int| 0 <= j < i implies #[trigger] post[j].1 != post[i as int].1 by {
                        assert(post[j] == pre[j]);
                        assert(has_playlist(ov, pre[j].1));
                    }
                    assert(first_with_playlist(post, i as int));
                } else {
                    let oq = if q < p { q } else { q - 1 };
                    assert(nv[q] == ov[oq]);
                    assert(is_first_entry(pre, ov[oq]));
                    let w = choose|w: int| 0 <= w < pre.len() && first_with_playlist(pre, w) && pre[w] == ov[oq];
                    assert(post[w] == pre[w]);
                    assert forall|j: int| 0 <= j < w implies #[trigger] post[j].1 != post[w].1 by {
                        assert(post[j] == pre[j]);
                        assert(pre[j].1 != pre[w].1);
                    }
                }
            }
            assert forall|j: int| 0 <= j < post.len() implies has_playlist(nv, #[trigger] post[j].1) by {
                if j < pre.len() {
                    assert(post[j] == pre[j]);
                    assert(has_playlist(ov, pre[j].1));
                    let w = choose|w: int| 0 <= w < ov.len() && ov[w].1 == pre[j].1;
                    if w < p {
                        assert(nv[w] == ov[w]);
                    } else {
                        assert(nv[w + 1] == ov[w]);
                    }
                } else {
                    assert(nv[p as int] == c);
                }
            }
            assert forall|k1: int, k2: int|
                0 <= k1 < k2 < nv.len() implies tried_before(#[trigger] nv[k1], #[trigger] nv[k2], desired@, prefer_dub) by {
                if k1 < p && k2 < p {
                    assert(nv[k1] == ov[k1] && nv[k2] == ov[k2]);
                } else if k1 < p && k2 == p {
                    assert(nv[k1] == ov[k1]);
                    assert(ov[k1].1 != c.1) by {
                        if ov[k1].1 == c.1 {
                            assert(has_playlist(ov, c.1));
                        }
                    }
                    assert(!tried_before(c, ov[k1], desired@, prefer_dub));
                    lemma_tried_before_total(c, ov[k1], desired@, prefer_dub);
                } else if k1 < p && k2 > p {
                    assert(nv[k1] == ov[k1] && nv[k2] == ov[k2 - 1]);
                } else if k1 == p {
                    assert(nv[k2] == ov[k2 - 1]);
                    assert(tried_before(c, ov[p as int], desired@, prefer_dub));
                    if k2 - 1 > p {
                        assert(tried_before(ov[p as int], ov[k2 - 1], desired@, prefer_dub));
                        lemma_tried_before_trans(c, ov[p as int], ov[k2 - 1], desired@, prefer_dub);
                    }
                } else {
                    assert(nv[k1] == ov[k1 - 1] && nv[k2] == ov[k2 - 1]);
                }
            }
        }
        i = i + 1;
    }
    assert(cs.take(i as int) =~= cs);
    out
}

/// The playlists to try, in order, for the media answers gathered for one
/// episode or film; `NoHls` when they offer none.
pub fn hls_attempt_order(media: &Vec<EpisodeMedia>, desired: &str, prefer_dub: bool) -> (r: Result<Vec<Candidate>, UsError>)
    ensures
        all_candidates(media@).len() == 0 <==> (r is Err && r->Err_0 is NoHls),
        r matches Ok(v) ==> v@.len() > 0 && attempt_order(all_candidates(media@), pairs_view(v@), desired@, prefer_dub),
        r is Err ==> r->Err_0 is NoHls,
{
    let cands = collect_candidates(media);
    if cands.len() == 0 {
        return Err(UsError::NoHls);
    }
    let out = order_candidates(&cands, desired, prefer_dub);
    assert(has_playlist(pairs_view(out@), pairs_view(cands@)[0].1));
    Ok(out)
}

// ---------------------------------------------------------------------------
// Requests
// ---------------------------------------------------------------------------

/// The media request for one kind of content (`episode` or `movie`), id and locale.
pub fn media_url(kind: &str, id: &str, locale: &str) -> (r: String)
    ensures
        r@ == BASE@ + "/"@ + kind@ + "/"@ + id@ + "/media/hls/"@ + locale@,
{
    let mut r = owned(BASE);
    push_str(&mut r, "/");
    push_str(&mut r, kind);
    push_str(&mut r, "/");
    push_str(&mut r, id);
    push_str(&mut r, "/media/hls/");
    push_str(&mut r, locale);
    r
}

/// The catalogue index, which gives the number of series.
pub fn index_url() -> (r: String)
    ensures
        r@ == BASE@ + "/videos/index"@,
{
    let mut r = owned(BASE);
    push_str(&mut r, "/videos/index");
    r
}

/// A playlist can be downloaded when its request succeeded and the answer
/// is an M3U playlist.
pub fn playlist_ready(status: u16, body: &str) -> (b: bool)
    ensures
        b == (200 <= status <= 299 && crate::text::contains(body@, "#EXTM3U"@)),
{
    200 <= status && status <= 299 && crate::text::str_contains(body, "#EXTM3U")
}

/// The answer to a request for a series or content page: a missing page
/// means the id names no series; any other failure is reported with its
/// status and the first 200 bytes of the body.
pub fn page_status(status: u16, body: &str) -> (r: Result<(), UsError>)
    requires
        !(200 <= status <= 299) && status != 404 && crate::text::byte_len(body@) > 200 ==> crate::text::byte_len(
            body@.take(crate::naming::fit_count(body@, 200, body@.len() as int)),
        ) == 200,
    ensures
        status == 404 ==> r matches Err(UsError::NotASeries),
        200 <= status <= 299 ==> r is Ok,
        !(200 <= status <= 299) && status != 404 ==> (r matches Err(UsError::Api(m)) && m@ == "HTTP "@
            + crate::fetcher::status_text(status) + " body[:200]="@ + body@.take(
            crate::naming::fit_count(body@, 200, body@.len() as int),
        )),
{
    if status == 404 {
        return Err(UsError::NotASeries);
    }
    if 200 <= status && status <= 299 {
        return Ok(());
    }
    let mut m = owned("HTTP ");
    crate::fetcher::push_status_text(&mut m, status);
    push_str(&mut m, " body[:200]=");
    let p = crate::naming::byte_prefix(body, 200);
    push_str(&mut m, p.as_str());
    Err(UsError::Api(m))
}

/// The locale asked for in the second media request, which lists every version.
pub const ALL_VERSIONS_LOCALE: &'static str = "zz-ZZ";

/// The two media requests made for one episode or film: the asked locale,
/// then the request that lists every version.
pub fn media_requests(kind: &str, id: &str, desired: &str) -> (r: (String, String))
    ensures
        r.0@ == BASE@ + "/"@ + kind@ + "/"@ + id@ + "/media/hls/"@ + desired@,
        r.1@ == BASE@ + "/"@ + kind@ + "/"@ + id@ + "/media/hls/"@ + ALL_VERSIONS_LOCALE@,
{
    (media_url(kind, id, desired), media_url(kind, id, ALL_VERSIONS_LOCALE))
}

/// A dub is preferred for every locale but Japanese.
pub fn prefers_dub(locale: &str) -> (b: bool)
    ensures
        b == (locale@ != "ja-JP"@),
{
    !str_eq(locale, "ja-JP")
}

/// The page of a series.
pub fn series_url(content_id: &str) -> (r: String)
    ensures
        r@ == BASE@ + "/series/"@ + content_id@,
{
    let mut r = owned(BASE);
    push_str(&mut r, "/series/");
    push_str(&mut r, content_id);
    r
}

/// The generic page of a content.
pub fn content_url(content_id: &str) -> (r: String)
    ensures
        r@ == BASE@ + "/content/"@ + content_id@,
{
    let mut r = owned(BASE);
    push_str(&mut r, "/content/");
    push_str(&mut r, content_id);
    r
}

/// One page of the episodes of a season.
pub fn episodes_url(season_content_id: &str, page: u64, limit: u64) -> (r: String)
    ensures
        r@ == BASE@ + "/season/"@ + season_content_id@ + "/episodes?page="@ + decimal(page as nat)
            + "&limit="@ + decimal(limit as nat),
{
    let mut r = owned(BASE);
    push_str(&mut r, "/season/");
    push_str(&mut r, season_content_id);
    push_str(&mut r, "/episodes?page=");
    push_decimal(&mut r, page);
    push_str(&mut r, "&limit=");
    push_decimal(&mut r, limit);
    r
}

/// One page of the catalogue.
pub fn browse_url(offset: u64, limit: u64) -> (r: String)
    ensures
        r@ == BASE@ + "/videos/browse?offset="@ + decimal(offset as nat) + "&limit="@ + decimal(limit as nat),
{
    let mut r = owned(BASE);
    push_str(&mut r, "/videos/browse?offset=");
    push_decimal(&mut r, offset);
    push_str(&mut r, "&limit=");
    push_decimal(&mut r, limit);
    r
}

/// The content page names its kind: a film is read as such, any other kind is refused.
pub fn check_content_type(content_type: &str) -> (r: Result<(), UsError>)
    ensures
        content_type@ == "movie"@ <==> r is Ok,
        r matches Err(e) ==> (e matches UsError::Api(m) && m@ == "content_type inconnu: "@ + content_type@),
{
    if str_eq(content_type, "movie") {
        Ok(())
    } else {
        let mut m = owned("content_type inconnu: ");
        push_str(&mut m, content_type);
        Err(UsError::Api(m))
    }
}

/// A film page without its own id takes the id it was asked for.
pub fn movie_with_id(movie: MovieDetail, content_id: &str) -> (r: MovieDetail)
    ensures
        movie.content_id matches Some(c) ==> (r.content_id matches Some(d) && d@ == c@),
        movie.content_id is None ==> (r.content_id matches Some(d) && d@ == content_id@),
        r.title@ == movie.title@,
        r.duration_ms == movie.duration_ms,
        r.year == movie.year,
        r.audio_locales.deep_view() == movie.audio_locales.deep_view(),
        r.image.deep_view() == movie.image.deep_view(),
{
    let mut m = movie;
    if m.content_id.is_none() {
        m.content_id = Some(owned(content_id));
    }
    m
}

// ---------------------------------------------------------------------------
// Films and seasons
// ---------------------------------------------------------------------------

/// The title of the single episode of a film: its title, or `Film` when it has none.
pub fn movie_episode_title(title: &str) -> (r: String)
    ensures
        title@.len() == 0 ==> r@ == "Film"@,
        title@.len() > 0 ==> r@ == title@,
{
    if title.is_empty() {
        owned("Film")
    } else {
        owned(title)
    }
}

/// The audio locales of a film: those it lists, or Japanese alone when it lists none.
pub fn movie_audio_locales(audio_locales: &Option<Vec<String>>) -> (r: Vec<String>)
    ensures
        locales_of(audio_locales.deep_view()).len() == 0 ==> r.deep_view() == seq!["ja-JP"@],
        locales_of(audio_locales.deep_view()).len() > 0 ==> r.deep_view() == locales_of(audio_locales.deep_view()),
{
    let r = series_audio_locales(audio_locales);
    if r.len() == 0 {
        let mut v: Vec<String> = Vec::new();
        v.push(owned("ja-JP"));
        assert(v.deep_view() =~= seq!["ja-JP"@]);
        v
    } else {
        r
    }
}

/// The audio locales of a series: those it lists, or none.
pub fn series_audio_locales(audio_locales: &Option<Vec<String>>) -> (r: Vec<String>)
    ensures
        r.deep_view() == locales_of(audio_locales.deep_view()),
{
    match audio_locales {
        Some(v) => {
            let mut out: Vec<String> = Vec::new();
            let mut i: usize = 0;
            while i < v.len()
                invariant
                    i <= v@.len(),
                    out@.len() == i,
                    out.deep_view() == v.deep_view().take(i as int),
                decreases v.len() - i,
            {
                let ghost before = out@;
                out.push(owned(v[i].as_str()));
                proof {
                    crate::text::lemma_deep_view_push(before, out@, out@[i as int]);
                }
                assert(out.deep_view() =~= v.deep_view().take(i + 1));
                i = i + 1;
            }
            assert(v.deep_view().take(i as int) =~= v.deep_view());
            out
        },
        None => {
            let out: Vec<String> = Vec::new();
            assert(out.deep_view() =~= Seq::<Seq<char>>::empty());
            out
        },
    }
}

/// The number a season is filed under: its own, or 0 when it has none.
pub fn season_number_of(s: &SeasonInfo) -> (r: i64)
    ensures
        r == match s.season_number {
            Some(n) => n,
            None => 0,
        },
{
    match s.season_number {
        Some(n) => n,
        None => 0,
    }
}

// ---------------------------------------------------------------------------
// Paging through the episodes of a season
// ---------------------------------------------------------------------------

/// Where the reading of a season's episodes stands: the page to ask for next,
/// how many episodes were read, and whether the reading is over.
pub struct EpisodePager {
    pub page: u64,
    pub collected: usize,
    pub done: bool,
}

/// What to do after a page was read.
pub enum PagerStep {
    Fetch(u64),
    Finished,
}

impl EpisodePager {
    /// Reading starts with the first page.
    pub fn new() -> (p: Self)
        ensures
            p.page == 1,
            p.collected == 0,
            !p.done,
    {
        EpisodePager { page: 1, collected: 0, done: false }
    }

    /// A page of `batch_len` episodes came back.  An empty page ends the
    /// reading; a page shorter than `EPISODES_PER_PAGE` is kept and ends it;
    /// a full page is kept and the next page is asked for.
    pub fn on_batch(&mut self, batch_len: usize) -> (step: PagerStep)
        requires
            !old(self).done,
            old(self).collected + batch_len <= usize::MAX,
            old(self).page < u64::MAX,
        ensures
            batch_len == 0 ==> final(self).done && step is Finished && final(self).collected == old(self).collected
                && final(self).page == old(self).page,
            0 < batch_len < EPISODES_PER_PAGE ==> final(self).done && step is Finished
                && final(self).collected == old(self).collected + batch_len && final(self).page == old(self).page,
            batch_len >= EPISODES_PER_PAGE ==> !final(self).done && final(self).page == old(self).page + 1
                && step == PagerStep::Fetch(final(self).page) && final(self).collected == old(self).collected
                + batch_len,
    {
        if batch_len == 0 {
            self.done = true;
            return PagerStep::Finished;
        }
        self.collected = self.collected + batch_len;
        if batch_len < 20 {
            self.done = true;
            PagerStep::Finished
        } else {
            self.page = self.page + 1;
            PagerStep::Fetch(self.page)
        }
    }
}

} // verus!
