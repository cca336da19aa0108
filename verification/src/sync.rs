//! Keeping the local catalogue in step with the sites: how the list of a site
//! is paged through and when that stops, how the later enrichment is counted,
//! which images are fetched, and how a cached episode list becomes the
//! seasons and flags of an entry.
use vstd::prelude::*;
use crate::catalog::{Episode, Lang, Root2, Saison, Vf, Vo};
use crate::num::{decimal, push_decimal};
use crate::text::{copy_strings, owned, push_str, starts_with, str_eq, str_starts_with};
use crate::uniquestream::{locales_of, movie_audio_locales, movie_episode_title, ContentDetail, MovieDetail};
use crate::voiranime::{sources_view, VaEpisode, VaSource};

verus! {

/// How a synchronisation ended: how many entries were saved out of how many,
/// or the reason it could not start.
pub enum SyncOutcome {
    Success { saved: usize, total: usize },
    Failure(String),
}

// ---------------------------------------------------------------------------
// Paging through the uniquestream catalogue
// ---------------------------------------------------------------------------

/// A uniquestream entry as the local database keeps it: its content id, the
/// JSON of the series, and the JSON of its detail and of its episodes once
/// they were read.
pub struct UsStoredAnime {
    pub content_id: String,
    pub json_data: String,
    pub detail_json: Option<String>,
    pub episodes_json: Option<String>,
}

/// A voiranime entry as the local database keeps it: its slug, the JSON of
/// the series, and the JSON of its episodes once they were read.
pub struct VaStoredAnime {
    pub slug: String,
    pub json_data: String,
    pub episodes_json: Option<String>,
}

/// How many series one uniquestream catalogue request asks for.
pub const US_BROWSE_LIMIT: i64 = 50;

/// Where the reading of the uniquestream catalogue stands: the offset of the
/// next request, the series saved, the saves that failed, the images cached,
/// and whether the reading is over.
pub struct UsListSync {
    pub offset: i64,
    pub saved: usize,
    pub errors: usize,
    pub images_cached: usize,
    pub finished: bool,
}

impl UsListSync {
    /// Reading starts at offset 0 with nothing counted.
    pub fn new() -> (s: Self)
        ensures
            s.offset == 0,
            s.saved == 0,
            s.errors == 0,
            s.images_cached == 0,
            !s.finished,
    {
        UsListSync { offset: 0, saved: 0, errors: 0, images_cached: 0, finished: false }
    }

    /// The next request, offset and limit, or `None` once the reading is over.
    pub fn next_request(&self) -> (r: Option<(i64, i64)>)
        ensures
            self.finished ==> r is None,
            !self.finished ==> r == Some((self.offset, US_BROWSE_LIMIT)),
    {
        if self.finished {
            None
        } else {
            Some((self.offset, US_BROWSE_LIMIT))
        }
    }

    /// A catalogue request failed: the reading stops.
    pub fn on_browse_failed(&mut self)
        ensures
            *final(self) == (UsListSync { finished: true, ..*old(self) }),
    {
        self.finished = true;
    }

    /// A catalogue request returned `n` series (after they were saved): an
    /// empty answer ends the reading; otherwise the offset moves past them,
    /// and a short answer ends the reading.
    pub fn on_batch(&mut self, n: usize)
        requires
            0 <= old(self).offset,
            old(self).offset + n <= i64::MAX,
        ensures
            n == 0 ==> *final(self) == (UsListSync { finished: true, ..*old(self) }),
            n > 0 ==> *final(self) == (UsListSync {
                offset: (old(self).offset + n) as i64,
                finished: old(self).finished || n < US_BROWSE_LIMIT,
                ..*old(self)
            }),
    {
        if n == 0 {
            self.finished = true;
            return;
        }
        self.offset = self.offset + n as i64;
        if (n as i64) < US_BROWSE_LIMIT {
            self.finished = true;
        }
    }

    /// One series was saved (`ok`) or not.  A failed save is counted, and only
    /// the first three failures are reported: the result says whether this
    /// one is.
    pub fn on_saved(&mut self, ok: bool) -> (report: bool)
        requires
            ok ==> old(self).saved < usize::MAX,
            !ok ==> old(self).errors < usize::MAX,
        ensures
            ok ==> *final(self) == (UsListSync { saved: (old(self).saved + 1) as usize, ..*old(self) }) && !report,
            !ok ==> *final(self) == (UsListSync { errors: (old(self).errors + 1) as usize, ..*old(self) })
                && report == (final(self).errors <= 3),
    {
        if ok {
            self.saved = self.saved + 1;
            false
        } else {
            self.errors = self.errors + 1;
            self.errors <= 3
        }
    }

    /// `n` more images were cached.
    pub fn on_images(&mut self, n: usize)
        requires
            old(self).images_cached + n <= usize::MAX,
        ensures
            *final(self) == (UsListSync { images_cached: (old(self).images_cached + n) as usize, ..*old(self) }),
    {
        self.images_cached = self.images_cached + n;
    }

    /// The outcome once the enrichment is over: what the list saved and the
    /// enrichment completed, out of the index total and the entries to enrich.
    pub fn outcome(&self, index_total: usize, deep: &DeepProgress) -> (r: SyncOutcome)
        requires
            self.saved + deep.done <= usize::MAX,
            index_total + deep.total_pending <= usize::MAX,
        ensures
            r == (SyncOutcome::Success {
                saved: (self.saved + deep.done) as usize,
                total: (index_total + deep.total_pending) as usize,
            }),
    {
        SyncOutcome::Success { saved: self.saved + deep.done, total: index_total + deep.total_pending }
    }
}

// ---------------------------------------------------------------------------
// Paging through the voiranime catalogue
// ---------------------------------------------------------------------------

/// Where the reading of the voiranime catalogue stands: the page to ask for,
/// the series saved, the failures (of pages and of saves, counted together),
/// the empty pages met in a row, the images cached, and whether the reading
/// is over.
pub struct VaListSync {
    pub page: i64,
    pub saved: usize,
    pub errors: usize,
    pub consecutive_empty: u32,
    pub images_cached: usize,
    pub finished: bool,
}

impl VaListSync {
    /// Reading starts at page 1 with nothing counted.
    pub fn new() -> (s: Self)
        ensures
            s.page == 1,
            s.saved == 0,
            s.errors == 0,
            s.consecutive_empty == 0,
            s.images_cached == 0,
            !s.finished,
    {
        VaListSync { page: 1, saved: 0, errors: 0, consecutive_empty: 0, images_cached: 0, finished: false }
    }

    /// The page to ask for next, or `None` once the reading is over.
    pub fn next_request(&self) -> (r: Option<i64>)
        ensures
            self.finished ==> r is None,
            !self.finished ==> r == Some(self.page),
    {
        if self.finished {
            None
        } else {
            Some(self.page)
        }
    }

    /// A page could not be read: the failure is counted; past five failures
    /// the reading stops, else the next page is asked for.
    pub fn on_browse_failed(&mut self)
        requires
            old(self).errors < usize::MAX,
            old(self).page < i64::MAX,
        ensures
            final(self).errors == old(self).errors + 1,
            final(self).errors > 5 ==> *final(self) == (VaListSync {
                errors: final(self).errors,
                finished: true,
                ..*old(self)
            }),
            final(self).errors <= 5 ==> *final(self) == (VaListSync {
                errors: final(self).errors,
                page: (old(self).page + 1) as i64,
                ..*old(self)
            }),
    {
        self.errors = self.errors + 1;
        if self.errors > 5 {
            self.finished = true;
        } else {
            self.page = self.page + 1;
        }
    }

    /// A page returned `n` series.  Two empty pages in a row end the reading;
    /// a single empty page moves on to the next; a page with series resets
    /// the count of empty pages and moves on (after they are saved).
    pub fn on_batch(&mut self, n: usize)
        requires
            old(self).page < i64::MAX,
            old(self).consecutive_empty < u32::MAX,
        ensures
            n == 0 && old(self).consecutive_empty + 1 >= 2 ==> *final(self) == (VaListSync {
                consecutive_empty: (old(self).consecutive_empty + 1) as u32,
                finished: true,
                ..*old(self)
            }),
            n == 0 && old(self).consecutive_empty + 1 < 2 ==> *final(self) == (VaListSync {
                consecutive_empty: (old(self).consecutive_empty + 1) as u32,
                page: (old(self).page + 1) as i64,
                ..*old(self)
            }),
            n > 0 ==> *final(self) == (VaListSync {
                consecutive_empty: 0,
                page: (old(self).page + 1) as i64,
                ..*old(self)
            }),
    {
        if n == 0 {
            self.consecutive_empty = self.consecutive_empty + 1;
            if self.consecutive_empty >= 2 {
                self.finished = true;
            } else {
                self.page = self.page + 1;
            }
        } else {
            self.consecutive_empty = 0;
            self.page = self.page + 1;
        }
    }

    /// One series was saved (`ok`) or not.  A failed save is counted with the
    /// other failures, and reported while there are at most three of them.
    pub fn on_saved(&mut self, ok: bool) -> (report: bool)
        requires
            ok ==> old(self).saved < usize::MAX,
            !ok ==> old(self).errors < usize::MAX,
        ensures
            ok ==> *final(self) == (VaListSync { saved: (old(self).saved + 1) as usize, ..*old(self) }) && !report,
            !ok ==> *final(self) == (VaListSync { errors: (old(self).errors + 1) as usize, ..*old(self) })
                && report == (final(self).errors <= 3),
    {
        if ok {
            self.saved = self.saved + 1;
            false
        } else {
            self.errors = self.errors + 1;
            self.errors <= 3
        }
    }

    /// `n` more images were cached.
    pub fn on_images(&mut self, n: usize)
        requires
            old(self).images_cached + n <= usize::MAX,
        ensures
            *final(self) == (VaListSync { images_cached: (old(self).images_cached + n) as usize, ..*old(self) }),
    {
        self.images_cached = self.images_cached + n;
    }

    /// The outcome once the enrichment is over: what the list saved and the
    /// enrichment completed, out of what the list saved and the entries to
    /// enrich.
    pub fn outcome(&self, deep: &DeepProgress) -> (r: SyncOutcome)
        requires
            self.saved + deep.done <= usize::MAX,
            self.saved + deep.total_pending <= usize::MAX,
        ensures
            r == (SyncOutcome::Success {
                saved: (self.saved + deep.done) as usize,
                total: (self.saved + deep.total_pending) as usize,
            }),
    {
        SyncOutcome::Success { saved: self.saved + deep.done, total: self.saved + deep.total_pending }
    }
}

// ---------------------------------------------------------------------------
// Enrichment of the saved entries
// ---------------------------------------------------------------------------

/// Progress is reported every this many uniquestream entries enriched.
pub const US_DEEP_REPORT_EVERY: usize = 50;

/// Progress is reported every this many voiranime entries enriched.
pub const VA_DEEP_REPORT_EVERY: usize = 25;

/// The enrichment of the entries saved by the list: how many are pending,
/// how many were completed, how many failed, and how often progress is
/// reported.
pub struct DeepProgress {
    pub total_pending: usize,
    pub done: usize,
    pub failed: usize,
    pub report_every: usize,
}

impl DeepProgress {
    /// Nothing enriched yet out of `total_pending`.
    pub fn new(total_pending: usize, report_every: usize) -> (p: Self)
        requires
            report_every > 0,
        ensures
            p == (DeepProgress { total_pending, done: 0, failed: 0, report_every }),
    {
        DeepProgress { total_pending, done: 0, failed: 0, report_every }
    }

    /// One more entry was enriched.  Progress is reported when the count
    /// reaches a multiple of `report_every`, and at the last entry.
    pub fn on_done(&mut self) -> (report: bool)
        requires
            old(self).done < usize::MAX,
            old(self).report_every > 0,
        ensures
            *final(self) == (DeepProgress { done: (old(self).done + 1) as usize, ..*old(self) }),
            report == (final(self).done % final(self).report_every == 0 || final(self).done
                == final(self).total_pending),
    {
        self.done = self.done + 1;
        self.done % self.report_every == 0 || self.done == self.total_pending
    }

    /// One more entry could not be enriched.
    pub fn on_failed(&mut self)
        requires
            old(self).failed < usize::MAX,
        ensures
            *final(self) == (DeepProgress { failed: (old(self).failed + 1) as usize, ..*old(self) }),
    {
        self.failed = self.failed + 1;
    }
}

// ---------------------------------------------------------------------------
// Images
// ---------------------------------------------------------------------------

/// The referer sent with uniquestream images.
pub const US_IMAGE_REFERER: &'static str = "https://anime.uniquestream.net/";

/// The referer sent with voiranime images.
pub const VA_IMAGE_REFERER: &'static str = "https://voir-anime.to/";

/// The poster of an entry: its small poster when it has one, else its poster.
pub open spec fn poster_url_spec(a: Root2) -> Seq<char> {
    match a.affiche_small {
        Some(s) => s@,
        None => a.affiche@,
    }
}

/// The poster of an entry, as `poster_url_spec` says.
pub fn poster_url(a: &Root2) -> (r: String)
    ensures
        r@ == poster_url_spec(*a),
{
    match &a.affiche_small {
        Some(s) => owned(s.as_str()),
        None => owned(a.affiche.as_str()),
    }
}

/// An image is fetched when its address is a non-empty `http` address that
/// is not stored yet.
pub open spec fn image_wanted(url: Seq<char>, present: bool) -> bool {
    url.len() > 0 && starts_with(url, "http"@) && !present
}

/// Whether the image at `url` is to be fetched, `present` telling whether it
/// is stored already.
pub fn needs_image_fetch(url: &str, present: bool) -> (b: bool)
    ensures
        b == image_wanted(url@, present),
{
    !url.is_empty() && str_starts_with(url, "http") && !present
}

/// An image to fetch: its address and the referer to send, if any.
pub type ImageTarget = (String, Option<String>);

/// The non-empty posters of the entries, in order, sent without referer.
pub open spec fn poster_targets(a: Seq<Root2>) -> Seq<(Seq<char>, Option<Seq<char>>)>
    decreases a.len(),
{
    if a.len() == 0 {
        Seq::empty()
    } else {
        let rest = poster_targets(a.drop_last());
        let u = poster_url_spec(a.last());
        if u.len() > 0 {
            rest.push((u, None))
        } else {
            rest
        }
    }
}

/// The images that are there, in order, each sent with `referer`.
pub open spec fn image_targets(imgs: Seq<Option<Seq<char>>>, referer: Seq<char>) -> Seq<(Seq<char>, Option<Seq<char>>)>
    decreases imgs.len(),
{
    if imgs.len() == 0 {
        Seq::empty()
    } else {
        let rest = image_targets(imgs.drop_last(), referer);
        match imgs.last() {
            Some(u) => rest.push((u, Some(referer))),
            None => rest,
        }
    }
}

/// The non-empty posters of the entries, as `poster_targets` lists them.
pub fn poster_items(animes: &Vec<Root2>) -> (r: Vec<ImageTarget>)
    ensures
        r.deep_view() == poster_targets(animes@),
{
    let mut r: Vec<ImageTarget> = Vec::new();
    let mut i: usize = 0;
    while i < animes.len()
        invariant
            i <= animes@.len(),
            r.deep_view() == poster_targets(animes@.take(i as int)),
        decreases animes@.len() - i,
    {
        let u = poster_url(&animes[i]);
        assert(animes@.take(i as int + 1).drop_last() =~= animes@.take(i as int));
        if !u.as_str().is_empty() {
            let ghost uv = u@;
            r.push((u, None));
            proof {
                assert(r.deep_view() =~= poster_targets(animes@.take(i as int)).push((uv, None)));
            }
        }
        i = i + 1;
    }
    assert(animes@.take(i as int) =~= animes@);
    r
}

/// The images that are there, as `image_targets` lists them.
pub fn image_items(images: &Vec<Option<String>>, referer: &str) -> (r: Vec<ImageTarget>)
    ensures
        r.deep_view() == image_targets(images.deep_view(), referer@),
{
    let mut r: Vec<ImageTarget> = Vec::new();
    let mut i: usize = 0;
    while i < images.len()
        invariant
            i <= images@.len(),
            r.deep_view() == image_targets(images.deep_view().take(i as int), referer@),
        decreases images@.len() - i,
    {
        assert(images.deep_view().take(i as int + 1).drop_last() =~= images.deep_view().take(i as int));
        match &images[i] {
            Some(u) => {
                let ghost uv = u@;
                r.push((owned(u.as_str()), Some(owned(referer))));
                proof {
                    assert(r.deep_view() =~= image_targets(images.deep_view().take(i as int), referer@).push(
                        (uv, Some(referer@)),
                    ));
                }
            },
            None => {},
        }
        i = i + 1;
    }
    assert(images.deep_view().take(i as int) =~= images.deep_view());
    r
}

/// All the images to back-fill: the posters of the catalogue entries, then
/// the uniquestream images, then the voiranime images.
pub fn backfill_targets(
    animes: &Vec<Root2>,
    us_images: &Vec<Option<String>>,
    va_images: &Vec<Option<String>>,
) -> (r: Vec<ImageTarget>)
    ensures
        r.deep_view() == poster_targets(animes@) + image_targets(us_images.deep_view(), US_IMAGE_REFERER@)
            + image_targets(va_images.deep_view(), VA_IMAGE_REFERER@),
{
    let mut r = poster_items(animes);
    let mut us = image_items(us_images, US_IMAGE_REFERER);
    let mut va = image_items(va_images, VA_IMAGE_REFERER);
    let ghost (a, b, c) = (r.deep_view(), us.deep_view(), va.deep_view());
    r.append(&mut us);
    assert(r.deep_view() =~= a + b);
    r.append(&mut va);
    assert(r.deep_view() =~= a + b + c);
    r
}

// ---------------------------------------------------------------------------
// Cached uniquestream episode lists
// ---------------------------------------------------------------------------

/// An episode as the uniquestream cache keeps it; `episode_number` is the
/// whole part of the number the site gives.
pub struct UsCachedEpisode {
    pub content_id: String,
    pub title: String,
    pub episode_number: i64,
    pub duration_ms: Option<i64>,
    pub image: Option<String>,
}

/// A season as the uniquestream cache keeps it.
pub struct UsCachedSeason {
    pub season_content_id: String,
    pub title: String,
    pub season_number: i64,
    pub episodes: Vec<UsCachedEpisode>,
}

/// The cached episode list of a uniquestream entry: its audio locales, its
/// seasons, and whether it is a film.
pub struct UsCachedEpisodes {
    pub audio_locales: Vec<String>,
    pub seasons: Vec<UsCachedSeason>,
    pub is_movie: bool,
}

/// The cache of a film: one season `Film` numbered 1 holding one episode
/// numbered 1 under the film's id, titled as the film (`Film` when it has no
/// title), with the film's audio locales (Japanese alone when it lists none).
pub fn movie_cache(content_id: &str, m: &MovieDetail) -> (r: UsCachedEpisodes)
    ensures
        r.is_movie,
        locales_of(m.audio_locales.deep_view()).len() == 0 ==> r.audio_locales.deep_view() == seq!["ja-JP"@],
        locales_of(m.audio_locales.deep_view()).len() > 0 ==> r.audio_locales.deep_view() == locales_of(
            m.audio_locales.deep_view(),
        ),
        r.seasons@.len() == 1,
        r.seasons@[0].season_content_id@ == content_id@,
        r.seasons@[0].title@ == "Film"@,
        r.seasons@[0].season_number == 1,
        r.seasons@[0].episodes@.len() == 1,
        r.seasons@[0].episodes@[0].content_id@ == content_id@,
        r.seasons@[0].episodes@[0].title@ == (if m.title@.len() == 0 { "Film"@ } else { m.title@ }),
        r.seasons@[0].episodes@[0].episode_number == 1,
        r.seasons@[0].episodes@[0].duration_ms == m.duration_ms,
        r.seasons@[0].episodes@[0].image.deep_view() == m.image.deep_view(),
{
    let image = match &m.image {
        Some(i) => Some(owned(i.as_str())),
        None => None,
    };
    let ep = UsCachedEpisode {
        content_id: owned(content_id),
        title: movie_episode_title(m.title.as_str()),
        episode_number: 1,
        duration_ms: m.duration_ms,
        image,
    };
    let mut episodes: Vec<UsCachedEpisode> = Vec::new();
    episodes.push(ep);
    let season = UsCachedSeason {
        season_content_id: owned(content_id),
        title: owned("Film"),
        season_number: 1,
        episodes,
    };
    let mut seasons: Vec<UsCachedSeason> = Vec::new();
    seasons.push(season);
    UsCachedEpisodes { audio_locales: movie_audio_locales(&m.audio_locales), seasons, is_movie: true }
}

/// The number an episode is cached under: the site's number when it gives
/// one, else its position in the season counted from 1.
pub fn cached_episode_number(site_number: Option<i64>, position: usize) -> (n: i64)
    requires
        position < i64::MAX,
    ensures
        n == match site_number {
            Some(k) => k as int,
            None => position + 1,
        },
{
    match site_number {
        Some(k) => k,
        None => position as i64 + 1,
    }
}

/// A dub is offered: some audio locale is neither Japanese nor empty.
pub open spec fn offers_dub(ls: Seq<Seq<char>>) -> bool {
    exists|i: int| 0 <= i < ls.len() && #[trigger] ls[i] != "ja-JP"@ && ls[i].len() > 0
}

/// The original version is offered: Japanese audio is listed, or no audio
/// locale is.
pub open spec fn offers_original(ls: Seq<Seq<char>>) -> bool {
    ls.len() == 0 || exists|i: int| 0 <= i < ls.len() && #[trigger] ls[i] == "ja-JP"@
}

/// Whether a list of audio locales offers a dub and the original version.
pub fn language_flags(ls: &Vec<String>) -> (r: (bool, bool))
    ensures
        r.0 == offers_dub(ls.deep_view()),
        r.1 == offers_original(ls.deep_view()),
{
    let mut dub = false;
    let mut orig = false;
    let mut i: usize = 0;
    while i < ls.len()
        invariant
            i <= ls@.len(),
            dub == exists|j: int| 0 <= j < i && #[trigger] ls.deep_view()[j] != "ja-JP"@ && ls.deep_view()[j].len() > 0,
            orig == exists|j: int| 0 <= j < i && #[trigger] ls.deep_view()[j] == "ja-JP"@,
        decreases ls@.len() - i,
    {
        let ja = str_eq(ls[i].as_str(), "ja-JP");
        assert(ls.deep_view()[i as int] == ls@[i as int]@);
        if !ja && !ls[i].as_str().is_empty() {
            dub = true;
        }
        if ja {
            orig = true;
        }
        i = i + 1;
    }
    (dub, orig || ls.len() == 0)
}

/// The title of a cached episode in the catalogue: its own, or `Épisode n`
/// with its number (at least 1).
pub open spec fn us_episode_title(e: UsCachedEpisode) -> Seq<char> {
    if e.title@.len() == 0 {
        "Épisode "@ + decimal((if e.episode_number < 1 { 1 } else { e.episode_number }) as nat)
    } else {
        e.title@
    }
}

/// The title of a cached season in the catalogue: its own, or `Saison n`
/// with its number (at least 1).
pub open spec fn us_season_title(s: UsCachedSeason) -> Seq<char> {
    if s.title@.len() == 0 {
        "Saison "@ + decimal((if s.season_number < 1 { 1 } else { s.season_number }) as nat)
    } else {
        s.title@
    }
}

/// The players listed for a language: the uniquestream player when the
/// language is offered, none otherwise.
pub open spec fn us_players(offered: bool) -> Seq<Seq<char>> {
    if offered {
        seq!["uniquestream"@]
    } else {
        Seq::empty()
    }
}

/// An episode as plain values: its title, its original-version players and
/// its French players.
pub open spec fn episode_shape(e: Episode) -> (Seq<char>, Seq<Seq<char>>, Seq<Seq<char>>) {
    (e.title@, e.lang.vo.lecteurs.deep_view(), e.lang.vf.lecteurs.deep_view())
}

/// A season as plain values: its title and its episodes.
pub open spec fn saison_shape(s: Saison) -> (Seq<char>, Seq<(Seq<char>, Seq<Seq<char>>, Seq<Seq<char>>)>) {
    (s.title@, Seq::new(s.episodes@.len(), |j: int| episode_shape(s.episodes@[j])))
}

/// The seasons of an entry as plain values.
pub open spec fn saisons_shape(s: Seq<Saison>) -> Seq<(Seq<char>, Seq<(Seq<char>, Seq<Seq<char>>, Seq<Seq<char>>)>)> {
    Seq::new(s.len(), |i: int| saison_shape(s[i]))
}

/// The catalogue season made of a cached season.
pub open spec fn us_season_shape(s: UsCachedSeason, vo: bool, vf: bool) -> (Seq<char>, Seq<(Seq<char>, Seq<Seq<char>>, Seq<Seq<char>>)>) {
    (
        us_season_title(s),
        Seq::new(s.episodes@.len(), |j: int| (us_episode_title(s.episodes@[j]), us_players(vo), us_players(vf))),
    )
}

/// What a cached uniquestream list gives an entry: whether the original
/// version and a dub are offered, its seasons, and the id of each episode
/// (`episode_ids[s][e]` for episode `e` of season `s`).
pub struct UsEntryUpdate {
    pub has_vo: bool,
    pub has_vf: bool,
    pub saisons: Vec<Saison>,
    pub episode_ids: Vec<Vec<String>>,
}

fn players_for(offered: bool) -> (r: Vec<String>)
    ensures
        r.deep_view() == us_players(offered),
{
    let mut r: Vec<String> = Vec::new();
    if offered {
        r.push(owned("uniquestream"));
        assert(r.deep_view() =~= seq!["uniquestream"@]);
    } else {
        assert(r.deep_view() =~= Seq::<Seq<char>>::empty());
    }
    r
}

fn us_episode_title_of(e: &UsCachedEpisode) -> (r: String)
    ensures
        r@ == us_episode_title(*e),
{
    if e.title.as_str().is_empty() {
        let mut t = owned("Épisode ");
        let n: i64 = if e.episode_number < 1 { 1 } else { e.episode_number };
        push_decimal(&mut t, n as u64);
        t
    } else {
        owned(e.title.as_str())
    }
}

fn us_season_title_of(s: &UsCachedSeason) -> (r: String)
    ensures
        r@ == us_season_title(*s),
{
    if s.title.as_str().is_empty() {
        let mut t = owned("Saison ");
        let n: i64 = if s.season_number < 1 { 1 } else { s.season_number };
        push_decimal(&mut t, n as u64);
        t
    } else {
        owned(s.title.as_str())
    }
}

fn us_season(s: &UsCachedSeason, vo: bool, vf: bool) -> (r: (Saison, Vec<String>))
    ensures
        saison_shape(r.0) == us_season_shape(*s, vo, vf),
        r.1.deep_view() == Seq::new(s.episodes@.len(), |j: int| s.episodes@[j].content_id@),
{
    let mut episodes: Vec<Episode> = Vec::new();
    let mut ids: Vec<String> = Vec::new();
    let mut j: usize = 0;
    while j < s.episodes.len()
        invariant
            j <= s.episodes@.len(),
            episodes@.len() == j,
            ids@.len() == j,
            forall|k: int| 0 <= k < j ==> #[trigger] episode_shape(episodes@[k]) == (
                us_episode_title(s.episodes@[k]),
                us_players(vo),
                us_players(vf),
            ),
            forall|k: int| 0 <= k < j ==> #[trigger] ids@[k]@ == s.episodes@[k].content_id@,
        decreases s.episodes@.len() - j,
    {
        let e = &s.episodes[j];
        let ep = Episode {
            title: us_episode_title_of(e),
            lang: Lang { vf: Vf { lecteurs: players_for(vf) }, vo: Vo { lecteurs: players_for(vo) } },
        };
        episodes.push(ep);
        ids.push(owned(e.content_id.as_str()));
        j = j + 1;
    }
    let saison = Saison { title: us_season_title_of(s), episodes };
    assert(saison_shape(saison).1 =~= us_season_shape(*s, vo, vf).1);
    assert(ids.deep_view() =~= Seq::new(s.episodes@.len(), |k: int| s.episodes@[k].content_id@));
    (saison, ids)
}

/// What a cached uniquestream list gives an entry: a dub is offered when
/// some audio locale is neither Japanese nor empty, the original version
/// when Japanese is listed or nothing is; each cached season becomes a
/// season (titled `Saison n` when untitled) whose episodes (titled
/// `Épisode n` when untitled) list the uniquestream player under each
/// offered language; and each episode's id is kept at its place.
pub fn us_entry_update(cached: &UsCachedEpisodes) -> (r: UsEntryUpdate)
    ensures
        r.has_vf == offers_dub(cached.audio_locales.deep_view()),
        r.has_vo == offers_original(cached.audio_locales.deep_view()),
        saisons_shape(r.saisons@) == Seq::new(
            cached.seasons@.len(),
            |i: int| us_season_shape(cached.seasons@[i], r.has_vo, r.has_vf),
        ),
        r.episode_ids@.len() == cached.seasons@.len(),
        forall|i: int| 0 <= i < cached.seasons@.len() ==> #[trigger] r.episode_ids@[i].deep_view() == Seq::new(
            cached.seasons@[i].episodes@.len(),
            |j: int| cached.seasons@[i].episodes@[j].content_id@,
        ),
{
    let (has_vf, has_vo) = language_flags(&cached.audio_locales);
    let mut saisons: Vec<Saison> = Vec::new();
    let mut ids: Vec<Vec<String>> = Vec::new();
    let mut i: usize = 0;
    while i < cached.seasons.len()
        invariant
            i <= cached.seasons@.len(),
            saisons@.len() == i,
            ids@.len() == i,
            forall|k: int| 0 <= k < i ==> #[trigger] saison_shape(saisons@[k]) == us_season_shape(
                cached.seasons@[k],
                has_vo,
                has_vf,
            ),
            forall|k: int| 0 <= k < i ==> #[trigger] ids@[k].deep_view() == Seq::new(
                cached.seasons@[k].episodes@.len(),
                |j: int| cached.seasons@[k].episodes@[j].content_id@,
            ),
        decreases cached.seasons@.len() - i,
    {
        let (saison, season_ids) = us_season(&cached.seasons[i], has_vo, has_vf);
        saisons.push(saison);
        ids.push(season_ids);
        i = i + 1;
    }
    assert(saisons_shape(saisons@) =~= Seq::new(
        cached.seasons@.len(),
        |k: int| us_season_shape(cached.seasons@[k], has_vo, has_vf),
    ));
    UsEntryUpdate { has_vo, has_vf, saisons, episode_ids: ids }
}

// ---------------------------------------------------------------------------
// Cached voiranime episode lists
// ---------------------------------------------------------------------------

/// The cached detail of a voiranime entry: its episodes with their players,
/// and what its page says of it (the score as the page writes it).
pub struct VaCachedEpisodes {
    pub episodes: Vec<VaEpisode>,
    pub description: String,
    pub genres: Vec<String>,
    pub year: Option<String>,
    pub status: Option<String>,
    pub score_text: Option<String>,
    pub image: Option<String>,
    pub title: String,
}

/// What is cached of a series page: its episodes and what the page says of
/// the series; the slug is the key it is cached under.
pub fn cached_from_detail(detail: crate::voiranime::VaDetail) -> (r: VaCachedEpisodes)
    ensures
        r.episodes == detail.episodes,
        r.description == detail.description,
        r.genres == detail.genres,
        r.year == detail.year,
        r.status == detail.status,
        r.score_text == detail.score_text,
        r.image == detail.image,
        r.title == detail.title,
{
    VaCachedEpisodes {
        episodes: detail.episodes,
        description: detail.description,
        genres: detail.genres,
        year: detail.year,
        status: detail.status,
        score_text: detail.score_text,
        image: detail.image,
        title: detail.title,
    }
}

/// The positions, among the first `n` episodes, of those not in French.
pub open spec fn non_vf_positions(eps: Seq<VaEpisode>, n: int) -> Seq<usize>
    decreases n,
{
    if n <= 0 {
        Seq::empty()
    } else {
        let rest = non_vf_positions(eps, n - 1);
        if eps[n - 1].lang@ != "vf"@ {
            rest.push((n - 1) as usize)
        } else {
            rest
        }
    }
}

/// The episodes that make the season: those not in French when there are
/// any, else all of them.
pub open spec fn primary_positions(eps: Seq<VaEpisode>) -> Seq<usize> {
    let nv = non_vf_positions(eps, eps.len() as int);
    if nv.len() > 0 {
        nv
    } else {
        Seq::new(eps.len(), |i: int| i as usize)
    }
}

/// The players listed for an episode: the hosts of its sources, or
/// `voiranime` when it has none.
pub open spec fn va_hosts(e: VaEpisode) -> Seq<Seq<char>> {
    if e.sources@.len() == 0 {
        seq!["voiranime"@]
    } else {
        Seq::new(e.sources@.len(), |i: int| e.sources@[i].host@)
    }
}

/// The catalogue episode made of the episode at place `k` of the season: its
/// title (`Épisode k+1` when untitled) and its players under its language.
pub open spec fn va_episode_shape(e: VaEpisode, k: int) -> (Seq<char>, Seq<Seq<char>>, Seq<Seq<char>>) {
    let title = if e.title@.len() == 0 {
        "Épisode "@ + decimal((k + 1) as nat)
    } else {
        e.title@
    };
    if e.lang@ == "vf"@ {
        (title, Seq::empty(), va_hosts(e))
    } else {
        (title, va_hosts(e), Seq::empty())
    }
}

/// What a cached voiranime list gives an entry besides its fields: whether
/// the original version and French are offered, and for each episode of its
/// single season the address of its page and its sources.
pub struct VaEntryUpdate {
    pub has_vo: bool,
    pub has_vf: bool,
    pub episode_urls: Vec<String>,
    pub episode_sources: Vec<Vec<VaSource>>,
}

/// A field that is filled only while it is empty.
pub open spec fn fill_if_empty(field: Seq<char>, value: Option<Seq<char>>) -> Seq<char> {
    match value {
        Some(v) => if field.len() == 0 {
            v
        } else {
            field
        },
        None => field,
    }
}

fn copy_sources(v: &Vec<VaSource>) -> (r: Vec<VaSource>)
    ensures
        sources_view(r@) == sources_view(v@),
{
    let mut r: Vec<VaSource> = Vec::new();
    let mut i: usize = 0;
    while i < v.len()
        invariant
            i <= v@.len(),
            r@.len() == i,
            forall|k: int| 0 <= k < i ==> #[trigger] r@[k].host@ == v@[k].host@ && r@[k].iframe@ == v@[k].iframe@,
        decreases v@.len() - i,
    {
        r.push(VaSource { host: owned(v[i].host.as_str()), iframe: owned(v[i].iframe.as_str()) });
        i = i + 1;
    }
    assert(sources_view(r@) =~= sources_view(v@));
    r
}

fn hosts_of(e: &VaEpisode) -> (r: Vec<String>)
    ensures
        r.deep_view() == va_hosts(*e),
{
    let mut r: Vec<String> = Vec::new();
    if e.sources.len() == 0 {
        r.push(owned("voiranime"));
        assert(r.deep_view() =~= va_hosts(*e));
        return r;
    }
    let mut i: usize = 0;
    while i < e.sources.len()
        invariant
            i <= e.sources@.len(),
            r@.len() == i,
            forall|k: int| 0 <= k < i ==> #[trigger] r@[k]@ == e.sources@[k].host@,
        decreases e.sources@.len() - i,
    {
        r.push(owned(e.sources[i].host.as_str()));
        i = i + 1;
    }
    assert(r.deep_view() =~= va_hosts(*e));
    r
}

fn va_episode(e: &VaEpisode, k: usize) -> (r: Episode)
    requires
        k < u64::MAX,
    ensures
        episode_shape(r) == va_episode_shape(*e, k as int),
{
    let title = if e.title.as_str().is_empty() {
        let mut t = owned("Épisode ");
        push_decimal(&mut t, k as u64 + 1);
        t
    } else {
        owned(e.title.as_str())
    };
    let hosts = hosts_of(e);
    let none: Vec<String> = Vec::new();
    assert(none.deep_view() =~= Seq::<Seq<char>>::empty());
    if str_eq(e.lang.as_str(), "vf") {
        Episode { title, lang: Lang { vf: Vf { lecteurs: hosts }, vo: Vo { lecteurs: none } } }
    } else {
        Episode { title, lang: Lang { vf: Vf { lecteurs: none }, vo: Vo { lecteurs: hosts } } }
    }
}

fn positions_not_vf(eps: &Vec<VaEpisode>) -> (r: Vec<usize>)
    ensures
        r@ == non_vf_positions(eps@, eps@.len() as int),
        forall|k: int| 0 <= k < r@.len() ==> #[trigger] r@[k] < eps@.len(),
{
    let mut r: Vec<usize> = Vec::new();
    let mut i: usize = 0;
    while i < eps.len()
        invariant
            i <= eps@.len(),
            r@ == non_vf_positions(eps@, i as int),
            forall|k: int| 0 <= k < r@.len() ==> #[trigger] r@[k] < i,
        decreases eps@.len() - i,
    {
        if !str_eq(eps[i].lang.as_str(), "vf") {
            r.push(i);
        }
        i = i + 1;
    }
    r
}

/// Fills an entry from its cached voiranime list.  The description is
/// replaced by a non-empty cached one; the title, start date, status, note
/// and genres are filled only while empty; a cached image becomes the small
/// poster, and the poster while it is empty.  The episodes not in French
/// (all of them when there are none) become the single season `Saison 1`.
/// The original version is offered when some episode is not in French or
/// there are no episodes, French when some episode is.  `note` is the score
/// as it is to be shown.
pub fn apply_va_cached(anime: &mut Root2, cached: &VaCachedEpisodes, note: Option<String>) -> (r: VaEntryUpdate)
    requires
        cached.episodes@.len() < u64::MAX,
    ensures
        final(anime).description@ == (if cached.description@.len() > 0 {
            cached.description@
        } else {
            old(anime).description@
        }),
        final(anime).title@ == fill_if_empty(
            old(anime).title@,
            if cached.title@.len() > 0 { Some(cached.title@) } else { None },
        ),
        final(anime).affiche@ == fill_if_empty(old(anime).affiche@, cached.image.deep_view()),
        final(anime).affiche_small.deep_view() == (match cached.image {
            Some(i) => Some(i@),
            None => old(anime).affiche_small.deep_view(),
        }),
        final(anime).start_date@ == fill_if_empty(old(anime).start_date@, cached.year.deep_view()),
        final(anime).status@ == fill_if_empty(old(anime).status@, cached.status.deep_view()),
        final(anime).note@ == fill_if_empty(old(anime).note@, note.deep_view()),
        final(anime).themes.deep_view() == (if cached.genres@.len() > 0 && old(anime).themes@.len() == 0 {
            cached.genres.deep_view()
        } else {
            old(anime).themes.deep_view()
        }),
        final(anime).id == old(anime).id,
        final(anime).title_o == old(anime).title_o,
        final(anime).titles == old(anime).titles,
        final(anime).nsfw == old(anime).nsfw,
        final(anime).format == old(anime).format,
        saisons_shape(final(anime).saisons@) == seq![(
            "Saison 1"@,
            Seq::new(
                primary_positions(cached.episodes@).len(),
                |k: int| va_episode_shape(cached.episodes@[primary_positions(cached.episodes@)[k] as int], k),
            ),
        )],
        r.has_vo == (non_vf_positions(cached.episodes@, cached.episodes@.len() as int).len() > 0
            || cached.episodes@.len() == 0),
        r.has_vf == (non_vf_positions(cached.episodes@, cached.episodes@.len() as int).len()
            < cached.episodes@.len()),
        r.episode_urls@.len() == primary_positions(cached.episodes@).len(),
        r.episode_sources@.len() == primary_positions(cached.episodes@).len(),
        forall|k: int| 0 <= k < r.episode_urls@.len() ==> #[trigger] r.episode_urls@[k]@
            == cached.episodes@[primary_positions(cached.episodes@)[k] as int].url@,
        forall|k: int| 0 <= k < r.episode_sources@.len() ==> sources_view(#[trigger] r.episode_sources@[k]@)
            == sources_view(cached.episodes@[primary_positions(cached.episodes@)[k] as int].sources@),
{
    if !cached.description.as_str().is_empty() {
        anime.description = owned(cached.description.as_str());
    }
    if !cached.title.as_str().is_empty() && anime.title.as_str().is_empty() {
        anime.title = owned(cached.title.as_str());
    }
    match &cached.image {
        Some(img) => {
            if anime.affiche.as_str().is_empty() {
                anime.affiche = owned(img.as_str());
            }
            anime.affiche_small = Some(owned(img.as_str()));
        },
        None => {},
    }
    match &cached.year {
        Some(y) => {
            if anime.start_date.as_str().is_empty() {
                anime.start_date = owned(y.as_str());
            }
        },
        None => {},
    }
    match &cached.status {
        Some(st) => {
            if anime.status.as_str().is_empty() {
                anime.status = owned(st.as_str());
            }
        },
        None => {},
    }
    match note {
        Some(n) => {
            if anime.note.as_str().is_empty() {
                anime.note = n;
            }
        },
        None => {},
    }
    if cached.genres.len() > 0 && anime.themes.len() == 0 {
        anime.themes = copy_strings(&cached.genres);
    }
    let eps = &cached.episodes;
    let nv = positions_not_vf(eps);
    let nv_count = nv.len();
    proof {
        lemma_non_vf_len(eps@, eps@.len() as int);
    }
    let ghost prim = primary_positions(eps@);
    let primary: Vec<usize> = if nv.len() > 0 {
        nv
    } else {
        let mut all: Vec<usize> = Vec::new();
        let mut i: usize = 0;
        while i < eps.len()
            invariant
                i <= eps@.len(),
                all@ == Seq::new(i as nat, |k: int| k as usize),
            decreases eps@.len() - i,
        {
            all.push(i);
            i = i + 1;
            assert(all@ =~= Seq::new(i as nat, |k: int| k as usize));
        }
        all
    };
    assert(primary@ == prim);
    let mut episodes: Vec<Episode> = Vec::new();
    let mut urls: Vec<String> = Vec::new();
    let mut sources: Vec<Vec<VaSource>> = Vec::new();
    let mut k: usize = 0;
    while k < primary.len()
        invariant
            k <= primary@.len(),
            primary@ == prim,
            prim == primary_positions(eps@),
            forall|j: int| 0 <= j < prim.len() ==> #[trigger] prim[j] < eps@.len(),
            eps@.len() < u64::MAX,
            episodes@.len() == k,
            urls@.len() == k,
            sources@.len() == k,
            forall|j: int| 0 <= j < k ==> #[trigger] episode_shape(episodes@[j]) == va_episode_shape(
                eps@[prim[j] as int],
                j,
            ),
            forall|j: int| 0 <= j < k ==> #[trigger] urls@[j]@ == eps@[prim[j] as int].url@,
            forall|j: int| 0 <= j < k ==> sources_view(#[trigger] sources@[j]@) == sources_view(
                eps@[prim[j] as int].sources@,
            ),
        decreases primary@.len() - k,
    {
        let p = primary[k];
        let e = &eps[p];
        episodes.push(va_episode(e, k));
        urls.push(owned(e.url.as_str()));
        sources.push(copy_sources(&e.sources));
        k = k + 1;
    }
    let saison = Saison { title: owned("Saison 1"), episodes };
    let mut saisons: Vec<Saison> = Vec::new();
    saisons.push(saison);
    anime.saisons = saisons;
    proof {
        assert(saison_shape(anime.saisons@[0]).1 =~= Seq::new(
            prim.len(),
            |j: int| va_episode_shape(eps@[prim[j] as int], j),
        ));
        assert(saisons_shape(anime.saisons@) =~= seq![(
            "Saison 1"@,
            Seq::new(prim.len(), |j: int| va_episode_shape(eps@[prim[j] as int], j)),
        )]);
    }
    VaEntryUpdate {
        has_vo: nv_count > 0 || eps.len() == 0,
        has_vf: nv_count < eps.len(),
        episode_urls: urls,
        episode_sources: sources,
    }
}

proof fn lemma_non_vf_len(eps: Seq<VaEpisode>, n: int)
    requires
        0 <= n,
    ensures
        non_vf_positions(eps, n).len() <= n,
    decreases n,
{
    if n > 0 {
        lemma_non_vf_len(eps, n - 1);
    }
}

// ---------------------------------------------------------------------------
// Enriching a uniquestream entry
// ---------------------------------------------------------------------------

/// What the content page of a uniquestream entry adds to it: its kind
/// (`series` or `movie`), description and locales as the page gives them;
/// the description to show (only a non-empty one); and, when the audio
/// locales are known, whether a dub and the original version are offered.
pub struct UsDeepUpdate {
    pub content_type: String,
    pub description: Option<String>,
    pub audio_locales: Option<Vec<String>>,
    pub subtitle_locales: Option<Vec<String>>,
    pub info: Option<String>,
    pub dubbed: Option<bool>,
    pub subbed: Option<bool>,
}

fn copy_opt_string(o: &Option<String>) -> (r: Option<String>)
    ensures
        r.deep_view() == o.deep_view(),
{
    match o {
        Some(s) => Some(owned(s.as_str())),
        None => None,
    }
}

fn copy_opt_strings(o: &Option<Vec<String>>) -> (r: Option<Vec<String>>)
    ensures
        r.deep_view() == o.deep_view(),
{
    match o {
        Some(v) => Some(copy_strings(v)),
        None => None,
    }
}

/// The description, audio and subtitle locales of a content page, and its kind.
pub open spec fn content_fields(c: ContentDetail) -> (Option<Seq<char>>, Option<Seq<Seq<char>>>, Option<Seq<Seq<char>>>, Seq<char>) {
    match c {
        ContentDetail::Series(s) => (
            s.description.deep_view(),
            s.audio_locales.deep_view(),
            s.subtitle_locales.deep_view(),
            "series"@,
        ),
        ContentDetail::Movie(m) => (
            m.description.deep_view(),
            m.audio_locales.deep_view(),
            m.subtitle_locales.deep_view(),
            "movie"@,
        ),
    }
}

/// What a content page adds to a uniquestream entry, as `UsDeepUpdate` says.
pub fn us_deep_update(content: &ContentDetail) -> (r: UsDeepUpdate)
    ensures
        r.description.deep_view() == content_fields(*content).0,
        r.audio_locales.deep_view() == content_fields(*content).1,
        r.subtitle_locales.deep_view() == content_fields(*content).2,
        r.content_type@ == content_fields(*content).3,
        r.info.deep_view() == (match content_fields(*content).0 {
            Some(d) => if d.len() > 0 { Some(d) } else { None },
            None => None,
        }),
        r.dubbed == (match content_fields(*content).1 {
            Some(a) => Some(offers_dub(a)),
            None => None,
        }),
        r.subbed == (match content_fields(*content).1 {
            Some(a) => Some(offers_original(a)),
            None => None,
        }),
{
    let (description, audio_locales, subtitle_locales, content_type) = match content {
        ContentDetail::Series(s) => (
            copy_opt_string(&s.description),
            copy_opt_strings(&s.audio_locales),
            copy_opt_strings(&s.subtitle_locales),
            owned("series"),
        ),
        ContentDetail::Movie(m) => (
            copy_opt_string(&m.description),
            copy_opt_strings(&m.audio_locales),
            copy_opt_strings(&m.subtitle_locales),
            owned("movie"),
        ),
    };
    let info = match &description {
        Some(d) => if d.as_str().is_empty() {
            None
        } else {
            Some(owned(d.as_str()))
        },
        None => None,
    };
    let (dubbed, subbed) = match &audio_locales {
        Some(a) => {
            let (dub, orig) = language_flags(a);
            (Some(dub), Some(orig))
        },
        None => (None, None),
    };
    UsDeepUpdate { content_type, description, audio_locales, subtitle_locales, info, dubbed, subbed }
}

} // verus!
