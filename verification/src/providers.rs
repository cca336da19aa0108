//! Video hosts: how a host is recognised from an URL, how the address of the
//! video is read out of the pages that each host serves, and the errors of
//! the extraction.
use vstd::prelude::*;
use crate::rx::{captures_all, first_capture, first_group, group_of, regex_captures};
use crate::text::{
    contains, lowercase, owned, push_str, starts_with, str_contains, str_eq, str_starts_with,
    to_lowercase, trim, trim_str,
};

verus! {

// ---------------------------------------------------------------------------
// Errors and results
// ---------------------------------------------------------------------------

/// What can go wrong while finding or fetching a video.
pub enum ScraperError {
    BrowserLaunch(String),
    Navigation(String),
    VideoSourceNotFound,
    Timeout(String),
    UnsupportedProvider(String),
    IoError(String),
    NetworkError(String),
}

impl ScraperError {
    /// The message shown for this error.
    pub fn message(&self) -> (r: String)
        ensures
            match self {
                ScraperError::BrowserLaunch(m) => r@ == "Erreur de lancement du navigateur: "@ + m@,
                ScraperError::Navigation(m) => r@ == "Erreur de navigation: "@ + m@,
                ScraperError::VideoSourceNotFound => r@ == "Source vidéo non trouvée"@,
                ScraperError::Timeout(m) => r@ == "Timeout: "@ + m@,
                ScraperError::UnsupportedProvider(m) => r@ == "Provider non supporté: "@ + m@,
                ScraperError::IoError(m) => r@ == "Erreur IO: "@ + m@,
                ScraperError::NetworkError(m) => r@ == "Erreur réseau: "@ + m@,
            },
    {
        let (head, tail): (&str, &str) = match self {
            ScraperError::BrowserLaunch(m) => ("Erreur de lancement du navigateur: ", m.as_str()),
            ScraperError::Navigation(m) => ("Erreur de navigation: ", m.as_str()),
            ScraperError::VideoSourceNotFound => ("Source vidéo non trouvée", ""),
            ScraperError::Timeout(m) => ("Timeout: ", m.as_str()),
            ScraperError::UnsupportedProvider(m) => ("Provider non supporté: ", m.as_str()),
            ScraperError::IoError(m) => ("Erreur IO: ", m.as_str()),
            ScraperError::NetworkError(m) => ("Erreur réseau: ", m.as_str()),
        };
        let mut r = owned(head);
        push_str(&mut r, tail);
        proof {
            reveal_strlit("");
        }
        assert(r@ == head@ + tail@);
        r
    }
}

/// The host a video is served by, as far as the extraction tells them apart.
#[derive(Clone, Copy, PartialEq, Eq, Structural, Debug)]
pub enum VideoProvider {
    Sibnet,
    Sendvid,
    FileMoon,
    Vidmoly,
    Unknown,
}

/// The address of a video and the host it comes from.
pub struct VideoSource {
    pub url: String,
    pub provider: VideoProvider,
}

// ---------------------------------------------------------------------------
// Recognising hosts
// ---------------------------------------------------------------------------

/// The host of an embedded player, from the first marker its URL holds.
pub open spec fn provider_spec(src: Seq<char>) -> VideoProvider {
    if contains(src, "sibnet.ru"@) {
        VideoProvider::Sibnet
    } else if contains(src, "sendvid.com"@) {
        VideoProvider::Sendvid
    } else if contains(src, "filemoon"@) {
        VideoProvider::FileMoon
    } else if contains(src, "vidmoly"@) {
        VideoProvider::Vidmoly
    } else {
        VideoProvider::Unknown
    }
}

/// The host of an embedded player, as `provider_spec` describes it.
pub fn classify_provider(iframe_src: &str) -> (r: VideoProvider)
    ensures
        r == provider_spec(iframe_src@),
{
    if str_contains(iframe_src, "sibnet.ru") {
        VideoProvider::Sibnet
    } else if str_contains(iframe_src, "sendvid.com") {
        VideoProvider::Sendvid
    } else if str_contains(iframe_src, "filemoon") {
        VideoProvider::FileMoon
    } else if str_contains(iframe_src, "vidmoly") {
        VideoProvider::Vidmoly
    } else {
        VideoProvider::Unknown
    }
}

/// Markers of the video hosts that an iframe may point to.
pub open spec fn known_hosts() -> Seq<Seq<char>> {
    seq![
        "sibnet.ru"@, "sendvid.com"@, "filemoon"@, "vidmoly"@, "mixdrop"@, "streamtape"@,
        "streamta.pe"@, "doodstream"@, "dood."@, "upstream"@, "vudeo"@, "okru"@, "ok.ru"@,
        "mp4upload"@, "voe.sx"@, "vk.com"@, "streamwish"@, "streamhide"@, "mytv"@, "lulu.st"@,
        "embedsito"@,
    ]
}

/// Some marker of `markers` occurs in `s`.
pub open spec fn holds_any(s: Seq<char>, markers: Seq<Seq<char>>) -> bool {
    exists|k: int| 0 <= k < markers.len() && contains(s, #[trigger] markers[k])
}

/// Some marker of the list occurs in `s`.
fn contains_any(s: &str, markers: &[&str]) -> (b: bool)
    ensures
        b == exists|k: int| 0 <= k < markers@.len() && contains(s@, (#[trigger] markers@[k])@),
{
    let mut k: usize = 0;
    while k < markers.len()
        invariant
            k <= markers@.len(),
            forall|j: int| 0 <= j < k ==> !contains(s@, (#[trigger] markers@[j])@),
        decreases markers.len() - k,
    {
        if str_contains(s, markers[k]) {
            return true;
        }
        k = k + 1;
    }
    false
}

/// The URL, in lower case, names a known video host.
pub fn is_known_video_host(src: &str) -> (b: bool)
    ensures
        b == holds_any(lowercase(src@), known_hosts()),
{
    let s = to_lowercase(src);
    let hosts: [&str; 21] = [
        "sibnet.ru", "sendvid.com", "filemoon", "vidmoly", "mixdrop", "streamtape", "streamta.pe",
        "doodstream", "dood.", "upstream", "vudeo", "okru", "ok.ru", "mp4upload", "voe.sx",
        "vk.com", "streamwish", "streamhide", "mytv", "lulu.st", "embedsito",
    ];
    let b = contains_any(s.as_str(), &hosts);
    assert forall|k: int| 0 <= k < 21 implies (#[trigger] hosts@[k])@ == known_hosts()[k] by {}
    proof {
        if b {
            let k = choose|k: int| 0 <= k < hosts@.len() && contains(s@, (#[trigger] hosts@[k])@);
            assert(contains(s@, known_hosts()[k]));
        }
        if holds_any(s@, known_hosts()) {
            let k = choose|k: int| 0 <= k < known_hosts().len() && contains(s@, #[trigger] known_hosts()[k]);
            assert(contains(s@, hosts@[k]@));
        }
    }
    b
}

/// Markers of the hosts whose embedded players are read with a plain request.
pub open spec fn scrape_hosts() -> Seq<Seq<char>> {
    seq!["vidmoly"@, "yourupload"@, "mp4upload"@, "vudeo"@, "upstream"@, "vupload"@, "uqload"@]
}

/// A page shows the anti-bot challenge of Cloudflare.
pub open spec fn is_challenge_spec(html: Seq<char>) -> bool {
    contains(html, "Just a moment"@) || contains(html, "challenges.cloudflare.com"@) || contains(
        html,
        "cf-challenge-running"@,
    ) || contains(html, "cf_chl_opt"@)
}

/// A page shows the anti-bot challenge of Cloudflare.
pub fn is_cloudflare_challenge(html: &str) -> (b: bool)
    ensures
        b == is_challenge_spec(html@),
{
    str_contains(html, "Just a moment") || str_contains(html, "challenges.cloudflare.com")
        || str_contains(html, "cf-challenge-running") || str_contains(html, "cf_chl_opt")
}

// ---------------------------------------------------------------------------
// Browser identity
// ---------------------------------------------------------------------------

/// The Chrome major version in a user agent.
pub const CHROME_VERSION_RE: &'static str = r"Chrome/(\d+)\.";

/// The `Sec-Ch-Ua` header that goes with a Chrome major version.
pub open spec fn sec_ch_ua_spec(v: Seq<char>) -> Seq<char> {
    "\"Google Chrome\";v=\""@ + v + "\", \"Chromium\";v=\""@ + v + "\", \"Not_A Brand\";v=\"24\""@
}

/// The `Sec-Ch-Ua` header for a Chrome major version.
pub fn sec_ch_ua_with_version(v: &str) -> (r: String)
    ensures
        r@ == sec_ch_ua_spec(v@),
{
    let mut r = owned("\"Google Chrome\";v=\"");
    push_str(&mut r, v);
    push_str(&mut r, "\", \"Chromium\";v=\"");
    push_str(&mut r, v);
    push_str(&mut r, "\", \"Not_A Brand\";v=\"24\"");
    r
}

/// The `Sec-Ch-Ua` header for a user agent: its Chrome major version, or 148
/// when it names none.
pub fn sec_ch_ua_for(ua: &str) -> (r: String)
    ensures
        r@ == sec_ch_ua_spec(
            match first_group(regex_captures(CHROME_VERSION_RE@, ua@), 1) {
                Some(v) => v,
                None => "148"@,
            },
        ),
{
    match first_capture(CHROME_VERSION_RE, ua, 1) {
        Some(v) => sec_ch_ua_with_version(v.as_str()),
        None => sec_ch_ua_with_version("148"),
    }
}

// ---------------------------------------------------------------------------
// Reading pages
// ---------------------------------------------------------------------------

/// An iframe and its source.
pub const IFRAME_RE: &'static str = r#"<iframe[^>]+src=["']([^"']+)["']"#;
/// The stream given to the Sibnet player.
pub const SIBNET_PLAYER_RE: &'static str = r#"player\.src\(\s*\[\s*\{\s*src:\s*["']([^"']+)["']"#;
/// Any Sibnet video path.
pub const SIBNET_FALLBACK_RE: &'static str = r#"/v/[A-Za-z0-9_\-/.]+\.mp4"#;
/// The source of the Sendvid video element.
pub const SENDVID_SRC_RE: &'static str = r#"id=["']video_source["'][^>]*src=["']([^"']+)["']"#;
/// A `<source>` element pointing to an MP4 file.
pub const SENDVID_SOURCE_RE: &'static str = r#"<source[^>]+src=["']([^"']+\.mp4[^"']*)["']"#;
/// The first source of a Vidmoly player.
pub const VIDMOLY_SOURCE_RE: &'static str = r#"sources\s*:\s*\[\s*\{\s*file\s*:\s*["']([^"']+)["']"#;
/// The `file` of a JW player setup.
pub const JW_FILE_RE: &'static str = r#"["']?file["']?\s*:\s*["'](https?://[^"']+|//[^"']+)["']"#;
/// Any absolute MP4 or HLS address.
pub const GENERIC_MP4_RE: &'static str = r#"(https?://[^"'\s<>]+\.(?:mp4|m3u8)(?:\?[^"'\s<>]*)?)"#;

/// What a plain request for a page that embeds a player gave.
pub enum HttpAttempt {
    Found(String),
    Challenge,
    Miss,
}

/// The source of the last iframe, among the matches `caps`, that points to a known video host.
pub open spec fn last_known_iframe_spec(caps: Seq<Seq<Option<Seq<char>>>>, n: int) -> Option<Seq<char>>
    decreases n,
{
    if n <= 0 {
        None
    } else {
        match group_of(caps, n - 1, 1) {
            Some(s) => if holds_any(lowercase(s), known_hosts()) {
                Some(s)
            } else {
                last_known_iframe_spec(caps, n - 1)
            },
            None => last_known_iframe_spec(caps, n - 1),
        }
    }
}

/// The source of the last iframe match that points to a known video host.
pub fn last_known_iframe(caps: &Vec<Vec<Option<String>>>) -> (r: Option<String>)
    ensures
        r.deep_view() == last_known_iframe_spec(caps.deep_view(), caps.deep_view().len() as int),
{
    let ghost cv = caps.deep_view();
    let mut n: usize = caps.len();
    assert(cv.len() == caps@.len());
    while n > 0
        invariant
            n <= caps@.len(),
            cv == caps.deep_view(),
            cv.len() == caps@.len(),
            last_known_iframe_spec(cv, cv.len() as int) == last_known_iframe_spec(cv, n as int),
        decreases n,
    {
        let g = crate::rx::get_group(caps, n - 1, 1);
        match g {
            Some(s) => {
                if is_known_video_host(s.as_str()) {
                    return Some(s);
                }
            },
            None => {},
        }
        n = n - 1;
    }
    None
}

/// HTTP status codes of success.
pub open spec fn is_success(status: u16) -> bool {
    200 <= status <= 299
}

/// What a page that embeds a player gives, from its status, whether the answer
/// came through Cloudflare, and its text: a challenge when the text shows one
/// or Cloudflare answered 403, 429 or 503; nothing for another failure;
/// otherwise the last iframe `caps` shows that points to a known video host.
pub open spec fn page_attempt_spec(
    html: Seq<char>,
    status: u16,
    cf_ray: bool,
    caps: Seq<Seq<Option<Seq<char>>>>,
) -> Option<Option<Seq<char>>> {
    if is_challenge_spec(html) || (cf_ray && (status == 403 || status == 429 || status == 503)) {
        None
    } else if !is_success(status) {
        Some(None)
    } else {
        Some(last_known_iframe_spec(caps, caps.len() as int))
    }
}

/// The view of an attempt: `None` for a challenge, `Some(None)` for a miss.
pub open spec fn attempt_view(a: HttpAttempt) -> Option<Option<Seq<char>>> {
    match a {
        HttpAttempt::Challenge => None,
        HttpAttempt::Miss => Some(None),
        HttpAttempt::Found(s) => Some(Some(s@)),
    }
}

/// What a page that embeds a player gives, its iframe matches already taken.
pub fn page_attempt_from(html: &str, status: u16, cf_ray: bool, caps: &Vec<Vec<Option<String>>>) -> (r: HttpAttempt)
    ensures
        attempt_view(r) == page_attempt_spec(html@, status, cf_ray, caps.deep_view()),
{
    if is_cloudflare_challenge(html) || (cf_ray && (status == 403 || status == 429 || status == 503)) {
        return HttpAttempt::Challenge;
    }
    if !(200 <= status && status <= 299) {
        return HttpAttempt::Miss;
    }
    match last_known_iframe(caps) {
        Some(s) => HttpAttempt::Found(s),
        None => HttpAttempt::Miss,
    }
}

/// What a page that embeds a player gives, as `page_attempt_spec` describes it.
pub fn page_attempt(html: &str, status: u16, cf_ray: bool) -> (r: HttpAttempt)
    ensures
        attempt_view(r) == page_attempt_spec(html@, status, cf_ray, regex_captures(IFRAME_RE@, html@)),
{
    let caps = captures_all(IFRAME_RE, html);
    page_attempt_from(html, status, cf_ray, &caps)
}

/// A Sibnet video path made absolute: kept when it starts with `http`,
/// given `https:` when it starts with `//`, else put on the Sibnet host.
pub open spec fn sibnet_absolute_spec(path: Seq<char>) -> Seq<char> {
    if starts_with(path, "http"@) {
        path
    } else if starts_with(path, "//"@) {
        "https:"@ + path
    } else {
        "https://video.sibnet.ru"@ + path
    }
}

/// A Sibnet video path made absolute, as `sibnet_absolute_spec` describes it.
pub fn sibnet_absolute(path: &str) -> (r: String)
    ensures
        r@ == sibnet_absolute_spec(path@),
{
    if str_starts_with(path, "http") {
        owned(path)
    } else if str_starts_with(path, "//") {
        let mut r = owned("https:");
        push_str(&mut r, path);
        r
    } else {
        let mut r = owned("https://video.sibnet.ru");
        push_str(&mut r, path);
        r
    }
}

/// The video of a Sibnet player page: the stream given to the player, else
/// the first video path of the page, made absolute.
pub fn sibnet_video_url(html: &str) -> (r: Option<String>)
    ensures
        match first_group(regex_captures(SIBNET_PLAYER_RE@, html@), 1) {
            Some(p) => r matches Some(u) && u@ == sibnet_absolute_spec(p),
            None => match first_group(regex_captures(SIBNET_FALLBACK_RE@, html@), 0) {
                Some(p) => r matches Some(u) && u@ == sibnet_absolute_spec(p),
                None => r is None,
            },
        },
{
    let path = match first_capture(SIBNET_PLAYER_RE, html, 1) {
        Some(p) => p,
        None => match first_capture(SIBNET_FALLBACK_RE, html, 0) {
            Some(p) => p,
            None => return None,
        },
    };
    Some(sibnet_absolute(path.as_str()))
}

/// The video of a Vidmoly player page: its first source, else the first MP4
/// or HLS address of the page.
pub fn vidmoly_video_url(html: &str) -> (r: Option<String>)
    ensures
        r.deep_view() == match first_group(regex_captures(VIDMOLY_SOURCE_RE@, html@), 1) {
            Some(u) => Some(u),
            None => first_group(regex_captures(GENERIC_MP4_RE@, html@), 0),
        },
{
    match first_capture(VIDMOLY_SOURCE_RE, html, 1) {
        Some(u) => Some(u),
        None => first_capture(GENERIC_MP4_RE, html, 0),
    }
}

/// An address without surrounding white space, given `https:` when it starts with `//`.
pub open spec fn normalize_scheme_spec(url: Seq<char>) -> Seq<char> {
    let u = trim(url);
    if starts_with(u, "//"@) {
        "https:"@ + u
    } else {
        u
    }
}

/// An address without surrounding white space, given `https:` when it starts with `//`.
pub fn normalize_scheme(url: &str) -> (r: String)
    ensures
        r@ == normalize_scheme_spec(url@),
{
    let u = trim_str(url);
    if str_starts_with(u.as_str(), "//") {
        let mut r = owned("https:");
        push_str(&mut r, u.as_str());
        r
    } else {
        u
    }
}

/// The video of a player page read with a plain request: the first Vidmoly
/// source; else the JW player file when it names an MP4 or HLS address; else
/// the first MP4 or HLS address of the page; each with its scheme completed.
pub open spec fn scraped_video_spec(
    vidmoly: Option<Seq<char>>,
    jw: Option<Seq<char>>,
    generic: Option<Seq<char>>,
) -> Option<Seq<char>> {
    match vidmoly {
        Some(u) => Some(normalize_scheme_spec(u)),
        None => match jw {
            Some(v) if contains(v, ".mp4"@) || contains(v, ".m3u8"@) => Some(normalize_scheme_spec(v)),
            _ => match generic {
                Some(g) => Some(normalize_scheme_spec(g)),
                None => None,
            },
        },
    }
}

/// The video of a player page read with a plain request, as `scraped_video_spec` describes it.
pub fn scraped_video_url(html: &str) -> (r: Option<String>)
    ensures
        r.deep_view() == scraped_video_spec(
            first_group(regex_captures(VIDMOLY_SOURCE_RE@, html@), 1),
            first_group(regex_captures(JW_FILE_RE@, html@), 1),
            first_group(regex_captures(GENERIC_MP4_RE@, html@), 0),
        ),
{
    if let Some(u) = first_capture(VIDMOLY_SOURCE_RE, html, 1) {
        return Some(normalize_scheme(u.as_str()));
    }
    if let Some(v) = first_capture(JW_FILE_RE, html, 1) {
        if str_contains(v.as_str(), ".mp4") || str_contains(v.as_str(), ".m3u8") {
            return Some(normalize_scheme(v.as_str()));
        }
    }
    match first_capture(GENERIC_MP4_RE, html, 0) {
        Some(g) => Some(normalize_scheme(g.as_str())),
        None => None,
    }
}

/// The video of a Sendvid page: the source of its video element, else its
/// first MP4 `<source>`; nothing when that is empty or reads `undefined`.
pub open spec fn sendvid_spec(src: Option<Seq<char>>, source: Option<Seq<char>>) -> Option<Seq<char>> {
    let cand = match src {
        Some(s) => Some(s),
        None => source,
    };
    match cand {
        Some(c) => if c == "undefined"@ || c.len() == 0 {
            None
        } else {
            Some(c)
        },
        None => None,
    }
}

/// The video of a Sendvid page, as `sendvid_spec` describes it.
pub fn sendvid_video_url(html: &str) -> (r: Option<String>)
    ensures
        r.deep_view() == sendvid_spec(
            first_group(regex_captures(SENDVID_SRC_RE@, html@), 1),
            first_group(regex_captures(SENDVID_SOURCE_RE@, html@), 1),
        ),
{
    let cand = match first_capture(SENDVID_SRC_RE, html, 1) {
        Some(s) => s,
        None => match first_capture(SENDVID_SOURCE_RE, html, 1) {
            Some(s) => s,
            None => return None,
        },
    };
    if str_eq(cand.as_str(), "undefined") || cand.as_str().is_empty() {
        None
    } else {
        Some(cand)
    }
}

// ---------------------------------------------------------------------------
// Order of the extraction attempts
// ---------------------------------------------------------------------------

/// A way of reading the video out of a player page with a plain request.
#[derive(Clone, Copy, PartialEq, Eq, Structural, Debug)]
pub enum PageReader {
    Sibnet,
    Sendvid,
    Vidmoly,
    Scrape,
}

/// The plain readers tried, in order, for the player an episode page embeds,
/// before the browser and yt-dlp are called on it.
pub open spec fn readers_for_spec(p: VideoProvider) -> Seq<PageReader> {
    match p {
        VideoProvider::Sibnet => seq![PageReader::Sibnet, PageReader::Vidmoly],
        VideoProvider::Sendvid => seq![PageReader::Sendvid],
        VideoProvider::FileMoon => Seq::empty(),
        VideoProvider::Vidmoly => seq![PageReader::Vidmoly],
        VideoProvider::Unknown => Seq::empty(),
    }
}

/// The plain readers tried for an embedded player, as `readers_for_spec` lists them.
pub fn readers_for(p: VideoProvider) -> (r: Vec<PageReader>)
    ensures
        r@ == readers_for_spec(p),
{
    let mut v: Vec<PageReader> = Vec::new();
    match p {
        VideoProvider::Sibnet => {
            v.push(PageReader::Sibnet);
            v.push(PageReader::Vidmoly);
        },
        VideoProvider::Sendvid => v.push(PageReader::Sendvid),
        VideoProvider::Vidmoly => v.push(PageReader::Vidmoly),
        _ => {},
    }
    assert(v@ =~= readers_for_spec(p));
    v
}

/// The plain reader tried for a player address given directly, before yt-dlp
/// and the browser: chosen from the address in lower case.
pub open spec fn embed_reader_spec(lower: Seq<char>) -> Option<PageReader> {
    if contains(lower, "sibnet.ru"@) {
        Some(PageReader::Sibnet)
    } else if contains(lower, "sendvid"@) {
        Some(PageReader::Sendvid)
    } else if holds_any(lower, scrape_hosts()) {
        Some(PageReader::Scrape)
    } else {
        None
    }
}

/// The plain reader tried for a player address given directly, as `embed_reader_spec` chooses it.
pub fn embed_reader(embed_url: &str) -> (r: Option<PageReader>)
    ensures
        r == embed_reader_spec(lowercase(embed_url@)),
{
    let lower = to_lowercase(embed_url);
    if str_contains(lower.as_str(), "sibnet.ru") {
        Some(PageReader::Sibnet)
    } else if str_contains(lower.as_str(), "sendvid") {
        Some(PageReader::Sendvid)
    } else {
        let hosts: [&str; 7] = ["vidmoly", "yourupload", "mp4upload", "vudeo", "upstream", "vupload", "uqload"];
        let b = contains_any(lower.as_str(), &hosts);
        assert forall|k: int| 0 <= k < 7 implies (#[trigger] hosts@[k])@ == scrape_hosts()[k] by {}
        proof {
            if b {
                let k = choose|k: int| 0 <= k < hosts@.len() && contains(lower@, (#[trigger] hosts@[k])@);
                assert(contains(lower@, scrape_hosts()[k]));
            }
            if holds_any(lower@, scrape_hosts()) {
                let k = choose|k: int| 0 <= k < scrape_hosts().len() && contains(lower@, #[trigger] scrape_hosts()[k]);
                assert(contains(lower@, hosts@[k]@));
            }
        }
        if b {
            Some(PageReader::Scrape)
        } else {
            None
        }
    }
}

} // verus!
