//! The Voiranime catalogue: its series, episodes and players, read out of
//! its HTML pages.
use vstd::prelude::*;
use crate::rx::{captures_all, first_capture, first_group, group_of, regex_captures};
use crate::providers::holds_any;
use crate::text::{
    chars_of, contains, find, lowercase, owned, push_str, starts_with, str_contains, str_eq,
    str_starts_with, string_from_range, to_lowercase, trim, trim_str,
};

verus! {

/// The site's address.
pub const BASE: &'static str = "https://voir-anime.to";

/// What can go wrong while reading the site.  A transport failure carries
/// its message.
pub enum VaError {
    Http(String),
    Parse(String),
    NoIframe,
    Status(u16),
}

impl VaError {
    /// The message shown for this error.
    pub fn message(&self) -> (r: String)
        ensures
            match self {
                VaError::Http(m) => r@ == "HTTP: "@ + m@,
                VaError::Parse(m) => r@ == "Parse: "@ + m@,
                VaError::NoIframe => r@ == "Pas d'iframe trouvée"@,
                VaError::Status(c) => r@ == "HTTP status "@ + crate::num::decimal(*c as nat),
            },
    {
        match self {
            VaError::Http(m) => {
                let mut r = owned("HTTP: ");
                push_str(&mut r, m.as_str());
                r
            },
            VaError::Parse(m) => {
                let mut r = owned("Parse: ");
                push_str(&mut r, m.as_str());
                r
            },
            VaError::NoIframe => owned("Pas d'iframe trouvée"),
            VaError::Status(c) => {
                let mut r = owned("HTTP status ");
                crate::num::push_decimal(&mut r, *c as u64);
                r
            },
        }
    }
}

/// A series of the catalogue list.
pub struct VaSeries {
    pub slug: String,
    pub title: String,
    pub url: String,
    pub image: Option<String>,
}

/// One player of an episode: the name of its host and the address of its frame.
pub struct VaSource {
    pub host: String,
    pub iframe: String,
}

/// The view of a source: its host and frame.
pub open spec fn source_view(s: VaSource) -> (Seq<char>, Seq<char>) {
    (s.host@, s.iframe@)
}

/// The views of a list of sources.
pub open spec fn sources_view(s: Seq<VaSource>) -> Seq<(Seq<char>, Seq<char>)> {
    Seq::new(s.len(), |i: int| source_view(s[i]))
}


// ---------------------------------------------------------------------------
// Player frames
// ---------------------------------------------------------------------------

/// Markers of advertising and tracking frames.
pub open spec fn ad_hosts() -> Seq<Seq<char>> {
    seq!["googlesyndication"@, "doubleclick"@, "googletagmanager"@, "googletagservices"@, "google-analytics"@, "googleadservices"@, "adsystem"@, "adservice"@, "popads"@, "popcash"@, "propellerads"@, "exoclick"@, "adcash"@, "trafficjunky"@, "juicyads"@, "histats"@, "yandex.ru/ads"@, "taboola"@, "outbrain"@, "amazon-adsystem"@, "media.net"@, "criteo"@, "rubiconproject"@, "openx"@, "pubmatic"@, "appnexus"@, "casino"@, "betclic"@, "winamax"@, "betway"@, "1xbet"@, "stake.com"@, "tracker"@, "tracking"@, "trk."@, "/ads/"@, "/ad/"@, "/track/"@]
}

/// Markers of video hosts.
pub open spec fn known_video_hosts() -> Seq<Seq<char>> {
    seq!["vidmoly."@, "sibnet."@, "sendvid."@, "streamtape."@, "streamhide."@, "mp4upload."@, "voe.sx"@, "voe."@, "doodstream."@, "mixdrop."@, "fembed."@, "kwik."@, "kwik.cx"@, "my.mail.ru"@, "yourupload."@, "ok.ru"@, "weneverbeenfree."@, "filemoon."@, "uqload."@, "vidlox."@, "vupload."@, "sbembed."@, "streamz."@, "smashy."@, "embed"@]
}

/// A frame that is no player: empty, the site itself, a blank page, or an
/// advertising or tracking host (the address taken in lower case).
pub open spec fn is_blacklisted_spec(src: Seq<char>) -> bool {
    let lower = lowercase(src);
    contains(lower, "voir-anime.to"@) || contains(lower, "about:blank"@) || lower.len() == 0
        || holds_any(lower, ad_hosts())
}

fn lower_holds_any(lower: &str, markers: &[&str]) -> (b: bool)
    ensures
        b == exists|k: int| 0 <= k < markers@.len() && contains(lower@, (#[trigger] markers@[k])@),
{
    let mut k: usize = 0;
    while k < markers.len()
        invariant
            k <= markers@.len(),
            forall|j: int| 0 <= j < k ==> !contains(lower@, (#[trigger] markers@[j])@),
        decreases markers.len() - k,
    {
        if str_contains(lower, markers[k]) {
            return true;
        }
        k = k + 1;
    }
    false
}

/// The frame is no player, as `is_blacklisted_spec` describes it.
pub fn is_blacklisted_iframe(src: &str) -> (b: bool)
    ensures
        b == is_blacklisted_spec(src@),
{
    let lower = to_lowercase(src);
    let l = lower.as_str();
    if str_contains(l, "voir-anime.to") || str_contains(l, "about:blank") || l.is_empty() {
        return true;
    }
    let hosts: [&str; 38] = ["googlesyndication", "doubleclick", "googletagmanager", "googletagservices", "google-analytics", "googleadservices", "adsystem", "adservice", "popads", "popcash", "propellerads", "exoclick", "adcash", "trafficjunky", "juicyads", "histats", "yandex.ru/ads", "taboola", "outbrain", "amazon-adsystem", "media.net", "criteo", "rubiconproject", "openx", "pubmatic", "appnexus", "casino", "betclic", "winamax", "betway", "1xbet", "stake.com", "tracker", "tracking", "trk.", "/ads/", "/ad/", "/track/"];
    let b = lower_holds_any(l, &hosts);
    assert forall|k: int| 0 <= k < 38 implies (#[trigger] hosts@[k])@ == ad_hosts()[k] by {}
    proof {
        if b {
            let k = choose|k: int| 0 <= k < hosts@.len() && contains(lower@, (#[trigger] hosts@[k])@);
            assert(contains(lower@, ad_hosts()[k]));
        }
        if holds_any(lower@, ad_hosts()) {
            let k = choose|k: int| 0 <= k < ad_hosts().len() && contains(lower@, #[trigger] ad_hosts()[k]);
            assert(contains(lower@, hosts@[k]@));
        }
    }
    b
}

/// The frame, in lower case, names a known video host.
pub fn is_whitelisted_video_host(src: &str) -> (b: bool)
    ensures
        b == holds_any(lowercase(src@), known_video_hosts()),
{
    let lower = to_lowercase(src);
    let l = lower.as_str();
    let hosts: [&str; 25] = ["vidmoly.", "sibnet.", "sendvid.", "streamtape.", "streamhide.", "mp4upload.", "voe.sx", "voe.", "doodstream.", "mixdrop.", "fembed.", "kwik.", "kwik.cx", "my.mail.ru", "yourupload.", "ok.ru", "weneverbeenfree.", "filemoon.", "uqload.", "vidlox.", "vupload.", "sbembed.", "streamz.", "smashy.", "embed"];
    let b = lower_holds_any(l, &hosts);
    assert forall|k: int| 0 <= k < 25 implies (#[trigger] hosts@[k])@ == known_video_hosts()[k] by {}
    proof {
        if b {
            let k = choose|k: int| 0 <= k < hosts@.len() && contains(lower@, (#[trigger] hosts@[k])@);
            assert(contains(lower@, known_video_hosts()[k]));
        }
        if holds_any(lower@, known_video_hosts()) {
            let k = choose|k: int| 0 <= k < known_video_hosts().len() && contains(lower@, #[trigger] known_video_hosts()[k]);
            assert(contains(lower@, hosts@[k]@));
        }
    }
    b
}

/// The part of an episode page from the video frame's marker up to the
/// first closing `</div>` after it.
pub open spec fn frame_block_spec(html: Seq<char>) -> Option<Seq<char>> {
    match find(html, "chapter-video-frame"@) {
        Some(start) => match find(html.skip(start), "</div>"@) {
            Some(close) => Some(html.subrange(start, start + close)),
            None => None,
        },
        None => None,
    }
}

/// The part of an episode page that holds the video frame, as `frame_block_spec` describes it.
pub fn extract_video_frame_block(html: &str) -> (r: Option<String>)
    ensures
        r.deep_view() == frame_block_spec(html@),
{
    let v = chars_of(html);
    let needle = chars_of("chapter-video-frame");
    let close_pat = chars_of("</div>");
    proof {
        crate::text::lemma_find_from(v@, needle@, 0);
    }
    match crate::text::find_chars(&v, &needle) {
        Some(start) => {
            let tail = string_from_range(&v, start, v.len());
            let tv = chars_of(tail.as_str());
            assert(tv@ =~= v@.skip(start as int));
            proof {
                crate::text::lemma_find_from(tv@, close_pat@, 0);
            }
            match crate::text::find_chars(&tv, &close_pat) {
                Some(close) => {
                    assert(start + close <= v@.len());
                    Some(string_from_range(&v, start, start + close))
                },
                None => None,
            }
        },
        None => None,
    }
}

/// An iframe and its source, in any case and over several lines.
pub const VA_IFRAME_RE: &'static str = r#"(?is)<iframe[^>]+src=["']([^"']+)["']"#;

/// The source of the first match from `k` on that is a player (and, when
/// `known_only`, that names a known video host).
pub open spec fn first_player_src(caps: Seq<Seq<Option<Seq<char>>>>, k: int, known_only: bool) -> Option<Seq<char>>
    decreases caps.len() - k,
{
    if k < 0 || k >= caps.len() {
        None
    } else {
        match group_of(caps, k, 1) {
            Some(s) => if !is_blacklisted_spec(s) && (!known_only || holds_any(lowercase(s), known_video_hosts())) {
                Some(s)
            } else {
                first_player_src(caps, k + 1, known_only)
            },
            None => first_player_src(caps, k + 1, known_only),
        }
    }
}

/// The player of an episode page, from the frames of its video block and of
/// the whole page: the first frame of the block that is a player, else the
/// first frame of the page that is a player of a known video host.
pub open spec fn pick_iframe_spec(
    block_caps: Option<Seq<Seq<Option<Seq<char>>>>>,
    page_caps: Seq<Seq<Option<Seq<char>>>>,
) -> Option<Seq<char>> {
    match (match block_caps {
        Some(b) => first_player_src(b, 0, false),
        None => None,
    }) {
        Some(s) => Some(s),
        None => first_player_src(page_caps, 0, true),
    }
}

fn first_player(caps: &Vec<Vec<Option<String>>>, known_only: bool) -> (r: Option<String>)
    ensures
        r.deep_view() == first_player_src(caps.deep_view(), 0, known_only),
{
    let ghost cv = caps.deep_view();
    let mut k: usize = 0;
    while k < caps.len()
        invariant
            k <= caps@.len(),
            cv == caps.deep_view(),
            cv.len() == caps@.len(),
            first_player_src(cv, 0, known_only) == first_player_src(cv, k as int, known_only),
        decreases caps@.len() - k,
    {
        match crate::rx::get_group(caps, k, 1) {
            Some(s) => {
                if !is_blacklisted_iframe(s.as_str()) && (!known_only || is_whitelisted_video_host(s.as_str())) {
                    return Some(s);
                }
            },
            None => {},
        }
        k = k + 1;
    }
    None
}

/// The player of an episode page, from the frame matches already taken.
pub fn pick_iframe(block_caps: &Option<Vec<Vec<Option<String>>>>, page_caps: &Vec<Vec<Option<String>>>) -> (r: Option<String>)
    ensures
        r.deep_view() == pick_iframe_spec(block_caps.deep_view(), page_caps.deep_view()),
{
    let from_block = match block_caps {
        Some(b) => first_player(b, false),
        None => None,
    };
    match from_block {
        Some(s) => Some(s),
        None => first_player(page_caps, true),
    }
}

/// The player of an episode page, as `pick_iframe_spec` describes it.
pub fn parse_iframe(html: &str) -> (r: Option<String>)
    ensures
        r.deep_view() == pick_iframe_spec(
            match frame_block_spec(html@) {
                Some(b) => Some(regex_captures(VA_IFRAME_RE@, b)),
                None => None,
            },
            regex_captures(VA_IFRAME_RE@, html@),
        ),
{
    let block_caps = match extract_video_frame_block(html) {
        Some(b) => Some(captures_all(VA_IFRAME_RE, b.as_str())),
        None => None,
    };
    let page_caps = captures_all(VA_IFRAME_RE, html);
    pick_iframe(&block_caps, &page_caps)
}


// ---------------------------------------------------------------------------
// The players listed in an episode page's script
// ---------------------------------------------------------------------------

/// Where the object that starts at `i` ends (one past its closing brace),
/// reading from `i` with `depth` braces open, inside a string or not, and
/// after a backslash or not; braces inside strings do not count.
pub open spec fn brace_end(s: Seq<char>, i: int, depth: int, in_str: bool, esc: bool) -> Option<int>
    decreases s.len() - i,
{
    if i < 0 || i >= s.len() {
        None
    } else if esc {
        brace_end(s, i + 1, depth, in_str, false)
    } else if s[i] == '\\' {
        brace_end(s, i + 1, depth, in_str, true)
    } else if s[i] == '"' {
        brace_end(s, i + 1, depth, !in_str, false)
    } else if in_str {
        brace_end(s, i + 1, depth, in_str, false)
    } else if s[i] == '{' {
        brace_end(s, i + 1, depth + 1, in_str, false)
    } else if s[i] == '}' {
        if depth - 1 == 0 {
            Some(i + 1)
        } else {
            brace_end(s, i + 1, depth - 1, in_str, false)
        }
    } else {
        brace_end(s, i + 1, depth, in_str, false)
    }
}

proof fn lemma_brace_end_bounds(s: Seq<char>, i: int, depth: int, in_str: bool, esc: bool)
    ensures
        brace_end(s, i, depth, in_str, esc) matches Some(e) ==> i < e <= s.len(),
    decreases s.len() - i,
{
    if 0 <= i < s.len() {
        lemma_brace_end_bounds(s, i + 1, depth, in_str, false);
        lemma_brace_end_bounds(s, i + 1, depth, in_str, true);
        lemma_brace_end_bounds(s, i + 1, depth, !in_str, false);
        lemma_brace_end_bounds(s, i + 1, depth + 1, in_str, false);
        lemma_brace_end_bounds(s, i + 1, depth - 1, in_str, false);
    }
}

/// The object that follows `thisChapterSources` in an episode page: from the
/// first `{` after that word to its matching `}`.
pub open spec fn chapter_json_spec(html: Seq<char>) -> Option<Seq<char>> {
    match find(html, "thisChapterSources"@) {
        Some(st) => match crate::text::index_of_from(html, '{', st) {
            Some(b) => match brace_end(html, b, 0, false, false) {
                Some(e) => Some(html.subrange(b, e)),
                None => None,
            },
            None => None,
        },
        None => None,
    }
}

/// The object that lists the players of an episode page, as `chapter_json_spec` finds it.
pub fn chapter_json(html: &str) -> (r: Option<String>)
    ensures
        r.deep_view() == chapter_json_spec(html@),
{
    let v = chars_of(html);
    let word = chars_of("thisChapterSources");
    proof {
        crate::text::lemma_find_from(v@, word@, 0);
    }
    let st = match crate::text::find_chars(&v, &word) {
        Some(st) => st,
        None => return None,
    };
    proof {
        crate::text::lemma_index_of_from(v@, '{', st as int);
    }
    let b = match crate::text::find_char_from(&v, '{', st) {
        Some(b) => b,
        None => return None,
    };
    let mut i = b;
    let mut depth: i128 = 0;
    assert(word@ == "thisChapterSources"@);
    let mut in_str = false;
    let mut esc = false;
    while i < v.len()
        invariant
            b <= i <= v@.len(),
            v@ == html@,
            -((i - b) as int) <= depth <= (i - b) as int,
            v@.len() <= usize::MAX,
            find(v@, "thisChapterSources"@) == Some(st as int),
            crate::text::index_of_from(v@, '{', st as int) == Some(b as int),
            brace_end(v@, b as int, 0, false, false) == brace_end(v@, i as int, depth as int, in_str, esc),
        decreases v@.len() - i,
    {
        let c = v[i];
        if esc {
            esc = false;
        } else if c == '\\' {
            esc = true;
        } else if c == '"' {
            in_str = !in_str;
        } else if in_str {
        } else if c == '{' {
            depth = depth + 1;
        } else if c == '}' {
            depth = depth - 1;
            if depth == 0 {
                proof {
                    lemma_brace_end_bounds(v@, b as int, 0, false, false);
                }
                return Some(string_from_range(&v, b, i + 1));
            }
        }
        i = i + 1;
    }
    None
}

/// What `serde_json` reads from a text as a JSON object: its members in the
/// order of the map it builds, each value as text when it is a JSON string;
/// `None` when the text is no JSON object.
pub uninterp spec fn json_object_entries(text: Seq<char>) -> Option<Seq<(Seq<char>, Option<Seq<char>>)>>;

/// The views of a list of members.
pub open spec fn entries_view(v: Seq<(String, Option<String>)>) -> Seq<(Seq<char>, Option<Seq<char>>)> {
    Seq::new(v.len(), |i: int| (v[i].0@, v[i].1.deep_view()))
}

/// Calls `serde_json::from_str` for a `serde_json::Map<String, Value>` and
/// keeps, for each member, its key and its value when that is a string.  The
/// result is named `json_object_entries`.
#[verifier::external_body]
fn json_string_entries(text: &str) -> (r: Option<Vec<(String, Option<String>)>>)
    ensures
        r matches Some(v) ==> json_object_entries(text@) == Some(entries_view(v@)),
        r is None ==> json_object_entries(text@) is None,
{
    match serde_json::from_str::<serde_json::Map<String, serde_json::Value>>(text) {
        Ok(map) => Some(map.into_iter().map(|(k, v)| (k, v.as_str().map(|s| s.to_string()))).collect()),
        Err(_) => None,
    }
}

/// The name of a host without its `LECTEUR ` prefix and surrounding white
/// space, or the name as it is when nothing else is left.
pub open spec fn host_label_spec(host: Seq<char>) -> Seq<char> {
    let rest = if starts_with(host, "LECTEUR "@) {
        host.skip(8)
    } else {
        host
    };
    let t = trim(rest);
    if t.len() == 0 {
        host
    } else {
        t
    }
}

fn host_label(host: &str) -> (r: String)
    ensures
        r@ == host_label_spec(host@),
{
    let rest = if str_starts_with(host, "LECTEUR ") {
        proof {
            reveal_strlit("LECTEUR ");
        }
        let hv = chars_of(host);
        string_from_range(&hv, 8, hv.len())
    } else {
        owned(host)
    };
    proof {
        if starts_with(host@, "LECTEUR "@) {
            assert(host@.subrange(8, host@.len() as int) =~= host@.skip(8));
        }
    }
    let t = trim_str(rest.as_str());
    if t.as_str().is_empty() {
        owned(host)
    } else {
        t
    }
}

/// The players that the members of the script's object list, in order: for
/// each member whose value is text holding a frame, the host named by the
/// key and the source of the first frame, unless that frame is no player.
pub open spec fn sources_from_entries_spec(
    es: Seq<(Seq<char>, Option<Seq<char>>)>,
    caps_of: spec_fn(Seq<char>) -> Seq<Seq<Option<Seq<char>>>>,
) -> Seq<(Seq<char>, Seq<char>)>
    decreases es.len(),
{
    if es.len() == 0 {
        Seq::empty()
    } else {
        let rest = sources_from_entries_spec(es.drop_last(), caps_of);
        let (host, value) = es.last();
        match value {
            Some(h) => match first_group(caps_of(h), 1) {
                Some(src) => if is_blacklisted_spec(src) {
                    rest
                } else {
                    rest.push((host_label_spec(host), src))
                },
                None => rest,
            },
            None => rest,
        }
    }
}

/// The frames of a text, as the regex crate finds them.
pub open spec fn frame_caps() -> spec_fn(Seq<char>) -> Seq<Seq<Option<Seq<char>>>> {
    |h: Seq<char>| regex_captures(VA_IFRAME_RE@, h)
}

/// The players that the members of the script's object list, as `sources_from_entries_spec` describes them.
pub fn sources_from_entries(entries: &Vec<(String, Option<String>)>) -> (r: Vec<VaSource>)
    ensures
        sources_view(r@) == sources_from_entries_spec(entries_view(entries@), frame_caps()),
{
    let ghost ev = entries_view(entries@);
    let mut out: Vec<VaSource> = Vec::new();
    let mut i: usize = 0;
    assert(ev.take(0) =~= Seq::<(Seq<char>, Option<Seq<char>>)>::empty());
    while i < entries.len()
        invariant
            i <= entries@.len(),
            ev == entries_view(entries@),
            sources_view(out@) == sources_from_entries_spec(ev.take(i as int), frame_caps()),
        decreases entries@.len() - i,
    {
        assert(ev.take(i + 1).drop_last() =~= ev.take(i as int));
        assert(ev.take(i + 1).last() == ev[i as int]);
        let (host, value) = (&entries[i].0, &entries[i].1);
        match value {
            Some(h) => {
                match first_capture(VA_IFRAME_RE, h.as_str(), 1) {
                    Some(src) => {
                        if !is_blacklisted_iframe(src.as_str()) {
                            let label = host_label(host.as_str());
                            let ghost before = sources_view(out@);
                            let s = VaSource { host: label, iframe: src };
                            out.push(s);
                            assert(sources_view(out@) =~= before.push(source_view(s)));
                        }
                    },
                    None => {},
                }
            },
            None => {},
        }
        i = i + 1;
    }
    assert(ev.take(i as int) =~= ev);
    out
}

/// The players an episode page lists in its script.
pub fn parse_chapter_sources(html: &str) -> (r: Vec<VaSource>)
    ensures
        sources_view(r@) == match chapter_json_spec(html@) {
            Some(j) => match json_object_entries(j) {
                Some(es) => sources_from_entries_spec(es, frame_caps()),
                None => Seq::empty(),
            },
            None => Seq::empty(),
        },
{
    let empty: Vec<VaSource> = Vec::new();
    assert(sources_view(empty@) =~= Seq::<(Seq<char>, Seq<char>)>::empty());
    let json = match chapter_json(html) {
        Some(j) => j,
        None => return empty,
    };
    match json_string_entries(json.as_str()) {
        Some(entries) => sources_from_entries(&entries),
        None => empty,
    }
}

/// The players of an episode page: those of its script, else its player
/// frame under the host `default`; an error when it has neither.
pub fn sources_or_frame(sources: Vec<VaSource>, iframe: Option<String>) -> (r: Result<Vec<VaSource>, VaError>)
    ensures
        sources@.len() > 0 ==> (r matches Ok(v) && sources_view(v@) == sources_view(sources@)),
        sources@.len() == 0 ==> match iframe {
            Some(f) => r matches Ok(v) && sources_view(v@) == seq![("default"@, f@)],
            None => r matches Err(VaError::NoIframe),
        },
{
    if sources.len() > 0 {
        return Ok(sources);
    }
    match iframe {
        Some(f) => {
            let mut v: Vec<VaSource> = Vec::new();
            let s = VaSource { host: owned("default"), iframe: f };
            v.push(s);
            assert(sources_view(v@) =~= seq![("default"@, s.iframe@)]);
            Ok(v)
        },
        None => Err(VaError::NoIframe),
    }
}

/// The players of an episode page, from its script or its frame.
pub fn episode_sources_from_page(html: &str) -> (r: Result<Vec<VaSource>, VaError>)
    ensures
        ({
            let listed = match chapter_json_spec(html@) {
                Some(j) => match json_object_entries(j) {
                    Some(es) => sources_from_entries_spec(es, frame_caps()),
                    None => Seq::empty(),
                },
                None => Seq::empty(),
            };
            let frame = pick_iframe_spec(
                match frame_block_spec(html@) {
                    Some(b) => Some(regex_captures(VA_IFRAME_RE@, b)),
                    None => None,
                },
                regex_captures(VA_IFRAME_RE@, html@),
            );
            &&& listed.len() > 0 ==> (r matches Ok(v) && sources_view(v@) == listed)
            &&& listed.len() == 0 ==> match frame {
                Some(f) => r matches Ok(v) && sources_view(v@) == seq![("default"@, f)],
                None => r matches Err(VaError::NoIframe),
            }
        }),
{
    let sources = parse_chapter_sources(html);
    if sources.len() > 0 {
        return Ok(sources);
    }
    let frame = parse_iframe(html);
    sources_or_frame(sources, frame)
}

/// The player frame of an episode page; an error when it has none.
pub fn episode_iframe_from_page(html: &str) -> (r: Result<String, VaError>)
    ensures
        match pick_iframe_spec(
            match frame_block_spec(html@) {
                Some(b) => Some(regex_captures(VA_IFRAME_RE@, b)),
                None => None,
            },
            regex_captures(VA_IFRAME_RE@, html@),
        ) {
            Some(f) => r matches Ok(s) && s@ == f,
            None => r matches Err(VaError::NoIframe),
        },
{
    match parse_iframe(html) {
        Some(f) => Ok(f),
        None => Err(VaError::NoIframe),
    }
}


// ---------------------------------------------------------------------------
// The catalogue list
// ---------------------------------------------------------------------------

/// The start of a series in the list.
pub const ID_RE: &'static str = r#"(?is)<div\s+id="manga-item-(\d+)""#;
/// The link to a series and its slug.
pub const HREF_RE: &'static str = r#"(?is)href="(https://voir-anime\.to/anime/([^"/]+)/)""#;
/// A `title` attribute.
pub const TITLE_ATTR_RE: &'static str = r#"(?is)title="([^"]+)""#;
/// The title of a series under its picture.
pub const POST_TITLE_RE: &'static str = r#"(?is)<div class="post-title[^"]*">.*?<a[^>]+href="https://voir-anime\.to/anime/[^"]+/"[^>]*>([^<]+)</a>"#;
/// The picture of a series.
pub const IMG_RE: &'static str = r#"(?is)<img[^>]+(?:data-src|src)="([^"]+)""#;

/// The text of `o`, or nothing.
pub open spec fn or_empty(o: Option<Seq<char>>) -> Seq<char> {
    match o {
        Some(s) => s,
        None => Seq::empty(),
    }
}

/// The blocks of the list, one per series: from the start of a series to the
/// start of the next one (or the end of the page), given the matches of the
/// series starts and the pieces of the page between them.
pub open spec fn list_blocks_spec(
    starts: Seq<Seq<Option<Seq<char>>>>,
    pieces: Seq<Seq<char>>,
) -> Seq<Seq<char>> {
    Seq::new(
        starts.len(),
        |k: int|
            or_empty(group_of(starts, k, 0)) + (if k + 1 < pieces.len() {
                pieces[k + 1]
            } else {
                Seq::empty()
            }),
    )
}

/// Text read from the page: entities decoded and surrounding white space removed.
pub open spec fn clean_text(s: Seq<char>) -> Seq<char> {
    trim(crate::html::decode(s))
}

fn clean(s: &str) -> (r: String)
    ensures
        r@ == clean_text(s@),
{
    let d = crate::html::decode_entities(s);
    trim_str(d.as_str())
}

fn clean_opt(o: Option<String>) -> (r: Option<String>)
    ensures
        r.deep_view() == match o {
            Some(s) => Some(clean_text(s@)),
            None => None,
        },
{
    match o {
        Some(s) => Some(clean(s.as_str())),
        None => None,
    }
}

/// The series a block of the list describes: its slug, title, link and
/// picture; nothing when the block has no link to a series with a slug.  The
/// title is the one under the picture, else the `title` attribute, else the slug.
pub open spec fn series_of_block_spec(block: Seq<char>) -> Option<(Seq<char>, Seq<char>, Seq<char>, Option<Seq<char>>)> {
    let hc = regex_captures(HREF_RE@, block);
    if hc.len() == 0 {
        None
    } else {
        let url = or_empty(group_of(hc, 0, 1));
        let slug = or_empty(group_of(hc, 0, 2));
        if slug.len() == 0 {
            None
        } else {
            let post = first_group(regex_captures(POST_TITLE_RE@, block), 1);
            let attr = first_group(regex_captures(TITLE_ATTR_RE@, block), 1);
            let title = match post {
                Some(p) => clean_text(p),
                None => match attr {
                    Some(a) => clean_text(a),
                    None => slug,
                },
            };
            Some((slug, title, url, first_group(regex_captures(IMG_RE@, block), 1)))
        }
    }
}

/// What a series holds, as plain values.
pub open spec fn series_view(s: VaSeries) -> (Seq<char>, Seq<char>, Seq<char>, Option<Seq<char>>) {
    (s.slug@, s.title@, s.url@, s.image.deep_view())
}

pub open spec fn series_list_view(s: Seq<VaSeries>) -> Seq<(Seq<char>, Seq<char>, Seq<char>, Option<Seq<char>>)> {
    Seq::new(s.len(), |i: int| series_view(s[i]))
}

/// The series a block describes, as `series_of_block_spec` gives it.
pub fn series_of_block(block: &str) -> (r: Option<VaSeries>)
    ensures
        match r {
            Some(s) => series_of_block_spec(block@) == Some(series_view(s)),
            None => series_of_block_spec(block@) is None,
        },
{
    let hc = captures_all(HREF_RE, block);
    if hc.len() == 0 {
        return None;
    }
    let url = match crate::rx::get_group(&hc, 0, 1) {
        Some(u) => u,
        None => String::new(),
    };
    let slug = match crate::rx::get_group(&hc, 0, 2) {
        Some(u) => u,
        None => String::new(),
    };
    if slug.as_str().is_empty() {
        return None;
    }
    let post = clean_opt(first_capture(POST_TITLE_RE, block, 1));
    let title = match post {
        Some(p) => p,
        None => match clean_opt(first_capture(TITLE_ATTR_RE, block, 1)) {
            Some(a) => a,
            None => owned(slug.as_str()),
        },
    };
    let image = first_capture(IMG_RE, block, 1);
    Some(VaSeries { slug, title, url, image })
}

/// The series of the list, in order, each slug once (its first block kept).
pub open spec fn list_from_blocks_spec(blocks: Seq<Seq<char>>) -> Seq<(Seq<char>, Seq<char>, Seq<char>, Option<Seq<char>>)>
    decreases blocks.len(),
{
    if blocks.len() == 0 {
        Seq::empty()
    } else {
        let out = list_from_blocks_spec(blocks.drop_last());
        match series_of_block_spec(blocks.last()) {
            Some(s) => if exists|k: int| 0 <= k < out.len() && (#[trigger] out[k]).0 == s.0 {
                out
            } else {
                out.push(s)
            },
            None => out,
        }
    }
}

/// The series of the list, as `list_from_blocks_spec` gives them.
pub fn list_from_blocks(blocks: &Vec<String>) -> (r: Vec<VaSeries>)
    ensures
        series_list_view(r@) == list_from_blocks_spec(blocks.deep_view()),
{
    let ghost bv = blocks.deep_view();
    let mut out: Vec<VaSeries> = Vec::new();
    let mut i: usize = 0;
    assert(bv.take(0) =~= Seq::<Seq<char>>::empty());
    while i < blocks.len()
        invariant
            i <= blocks@.len(),
            bv == blocks.deep_view(),
            series_list_view(out@) == list_from_blocks_spec(bv.take(i as int)),
        decreases blocks@.len() - i,
    {
        assert(bv.take(i + 1).drop_last() =~= bv.take(i as int));
        assert(bv.take(i + 1).last() == blocks@[i as int]@);
        match series_of_block(blocks[i].as_str()) {
            Some(s) => {
                let ghost ov = series_list_view(out@);
                let mut seen = false;
                let mut k: usize = 0;
                while k < out.len()
                    invariant
                        k <= out@.len(),
                        ov == series_list_view(out@),
                        seen == exists|j: int| 0 <= j < k && (#[trigger] ov[j]).0 == s.slug@,
                    decreases out@.len() - k,
                {
                    if str_eq(out[k].slug.as_str(), s.slug.as_str()) {
                        seen = true;
                    }
                    assert(ov[k as int].0 == out@[k as int].slug@);
                    k = k + 1;
                }
                if !seen {
                    let ghost sv = series_view(s);
                    out.push(s);
                    assert(series_list_view(out@) =~= ov.push(sv));
                }
            },
            None => {},
        }
        i = i + 1;
    }
    assert(bv.take(i as int) =~= bv);
    out
}

/// The blocks of the list, from the matches of the series starts and the
/// pieces between them, as `list_blocks_spec` cuts them.
pub fn list_blocks(starts: &Vec<Vec<Option<String>>>, pieces: &Vec<String>) -> (r: Vec<String>)
    ensures
        r.deep_view() == list_blocks_spec(starts.deep_view(), pieces.deep_view()),
{
    let ghost target = list_blocks_spec(starts.deep_view(), pieces.deep_view());
    let mut out: Vec<String> = Vec::new();
    let mut k: usize = 0;
    while k < starts.len()
        invariant
            k <= starts@.len(),
            starts.deep_view().len() == starts@.len(),
            target == list_blocks_spec(starts.deep_view(), pieces.deep_view()),
            out@.len() == k,
            out.deep_view() == target.take(k as int),
        decreases starts@.len() - k,
    {
        let mut b = match crate::rx::get_group(starts, k, 0) {
            Some(m) => m,
            None => String::new(),
        };
        if k + 1 < pieces.len() {
            assert(pieces.deep_view()[k + 1] == pieces@[k + 1]@);
            push_str(&mut b, pieces[k + 1].as_str());
        }
        let ghost before = out@;
        out.push(b);
        proof {
            crate::text::lemma_deep_view_push(before, out@, b);
        }
        k = k + 1;
        assert(out.deep_view() =~= target.take(k as int));
    }
    assert(target.take(k as int) =~= target);
    out
}

/// The series of a page of the catalogue list.
pub fn parse_list(html: &str) -> (r: Vec<VaSeries>)
    ensures
        series_list_view(r@) == list_from_blocks_spec(
            list_blocks_spec(regex_captures(ID_RE@, html@), crate::rx::regex_split(ID_RE@, html@)),
        ),
{
    let starts = captures_all(ID_RE, html);
    let pieces = crate::rx::split_all(ID_RE, html);
    let blocks = list_blocks(&starts, &pieces);
    list_from_blocks(&blocks)
}

/// The address of a page of the catalogue list.
pub fn browse_page_url(page: i64) -> (r: String)
    ensures
        page <= 1 ==> r@ == BASE@ + "/liste-danimes/"@,
        page > 1 ==> r@ == BASE@ + "/liste-danimes/page/"@ + crate::num::decimal(page as nat) + "/"@,
{
    let mut r = owned(BASE);
    if page <= 1 {
        push_str(&mut r, "/liste-danimes/");
    } else {
        push_str(&mut r, "/liste-danimes/page/");
        crate::num::push_decimal(&mut r, page as u64);
        push_str(&mut r, "/");
    }
    r
}

/// The address of the page of a series.
pub fn anime_detail_url(slug: &str) -> (r: String)
    ensures
        r@ == BASE@ + "/anime/"@ + slug@ + "/"@,
{
    let mut r = owned(BASE);
    push_str(&mut r, "/anime/");
    push_str(&mut r, slug);
    push_str(&mut r, "/");
    r
}


// ---------------------------------------------------------------------------
// The page of a series
// ---------------------------------------------------------------------------

/// An episode: its number, its page, its title, its language (`vf` or
/// `vostfr`) and its players when known.
pub struct VaEpisode {
    pub number: u64,
    pub url: String,
    pub title: String,
    pub lang: String,
    pub sources: Vec<VaSource>,
}

/// What an episode holds, as plain values.
pub open spec fn episode_view(e: VaEpisode) -> (u64, Seq<char>, Seq<char>, Seq<char>) {
    (e.number, e.url@, e.title@, e.lang@)
}

pub open spec fn episodes_view(s: Seq<VaEpisode>) -> Seq<(u64, Seq<char>, Seq<char>, Seq<char>)> {
    Seq::new(s.len(), |i: int| episode_view(s[i]))
}

/// The number in an episode slug.
pub const NUM_RE: &'static str = r"(?i)(?:^|[^0-9])(\d+)(?:-vostfr|-vf|-vostf|$)";

/// The pattern of the links to the episodes of the series `slug`.
pub open spec fn episode_link_pattern(slug: Seq<char>) -> Seq<char> {
    "(?is)<a[^>]+href=\"(https://voir-anime\\.to/anime/"@ + crate::rx::regex_escape(slug) + "/([^\"]+)/)\""@
}

/// The episode a link describes, with its number when its slug holds one:
/// nothing when the link has no episode slug.
pub open spec fn episode_of_link(url: Seq<char>, ep_slug: Seq<char>) -> Option<(Option<u64>, (u64, Seq<char>, Seq<char>, Seq<char>))> {
    if ep_slug.len() == 0 {
        None
    } else {
        let lang = if contains(ep_slug, "-vf"@) {
            "vf"@
        } else {
            "vostfr"@
        };
        let n = match first_group(regex_captures(NUM_RE@, ep_slug), 1) {
            Some(d) => crate::num::parse_u64(d),
            None => None,
        };
        let number = match n {
            Some(x) => x,
            None => 0u64,
        };
        Some((n, (number, url, "Épisode "@ + crate::num::decimal(number as nat), lang)))
    }
}

/// The episodes the links of the page describe, in order.
pub open spec fn link_episodes(caps: Seq<Seq<Option<Seq<char>>>>) -> Seq<(Option<u64>, (u64, Seq<char>, Seq<char>, Seq<char>))>
    decreases caps.len(),
{
    if caps.len() == 0 {
        Seq::empty()
    } else {
        let rest = link_episodes(caps.drop_last());
        let k = caps.len() - 1;
        match episode_of_link(or_empty(group_of(caps, k, 1)), or_empty(group_of(caps, k, 2))) {
            Some(e) => rest.push(e),
            None => rest,
        }
    }
}

/// Where an episode numbered `n` goes in a list sorted by number: after
/// every episode with a smaller number.
pub open spec fn key_pos(m: Seq<(u64, Seq<char>, Seq<char>, Seq<char>)>, n: u64) -> int
    decreases m.len(),
{
    if m.len() == 0 {
        0
    } else if m.last().0 < n {
        m.len() as int
    } else {
        key_pos(m.drop_last(), n)
    }
}

/// The list sorted by number with `e` added, unless an episode with its
/// number is there already (what `BTreeMap::entry(..).or_insert(..)` does).
pub open spec fn or_insert(m: Seq<(u64, Seq<char>, Seq<char>, Seq<char>)>, e: (u64, Seq<char>, Seq<char>, Seq<char>)) -> Seq<(u64, Seq<char>, Seq<char>, Seq<char>)> {
    let p = key_pos(m, e.0);
    if p < m.len() && m[p].0 == e.0 {
        m
    } else {
        m.insert(p, e)
    }
}

/// For each number, the first episode with it, by increasing number.
pub open spec fn numbered_map(cs: Seq<(Option<u64>, (u64, Seq<char>, Seq<char>, Seq<char>))>) -> Seq<(u64, Seq<char>, Seq<char>, Seq<char>)>
    decreases cs.len(),
{
    if cs.len() == 0 {
        Seq::empty()
    } else {
        let m = numbered_map(cs.drop_last());
        match cs.last().0 {
            Some(_n) => or_insert(m, cs.last().1),
            None => m,
        }
    }
}

/// The episodes kept of the candidates: when some have a number, for each
/// number the first episode with it, by increasing number; otherwise each
/// page once, its first episode kept, in order.
pub open spec fn episodes_kept(cs: Seq<(Option<u64>, (u64, Seq<char>, Seq<char>, Seq<char>))>, out: Seq<(u64, Seq<char>, Seq<char>, Seq<char>)>) -> bool {
    if exists|i: int| 0 <= i < cs.len() && (#[trigger] cs[i]).0 is Some {
        out == numbered_map(cs)
    } else {
        out == dedup_by_url(cs)
    }
}

/// The list is sorted by strictly increasing number.
pub open spec fn by_number(m: Seq<(u64, Seq<char>, Seq<char>, Seq<char>)>) -> bool {
    forall|i: int, j: int| 0 <= i < j < m.len() ==> (#[trigger] m[i]).0 < (#[trigger] m[j]).0
}

proof fn lemma_key_pos(m: Seq<(u64, Seq<char>, Seq<char>, Seq<char>)>, n: u64)
    requires
        by_number(m),
    ensures
        0 <= key_pos(m, n) <= m.len(),
        forall|i: int| 0 <= i < key_pos(m, n) ==> (#[trigger] m[i]).0 < n,
        forall|i: int| key_pos(m, n) <= i < m.len() ==> (#[trigger] m[i]).0 >= n,
    decreases m.len(),
{
    if m.len() > 0 && m.last().0 >= n {
        let d = m.drop_last();
        assert(by_number(d)) by {
            assert forall|i: int, j: int| 0 <= i < j < d.len() implies (#[trigger] d[i]).0 < (#[trigger] d[j]).0 by {
                assert(d[i] == m[i] && d[j] == m[j]);
            }
        }
        lemma_key_pos(d, n);
        assert forall|i: int| key_pos(m, n) <= i < m.len() implies (#[trigger] m[i]).0 >= n by {
            if i < m.len() - 1 {
                assert(m[i] == d[i]);
            }
        }
        assert forall|i: int| 0 <= i < key_pos(m, n) implies (#[trigger] m[i]).0 < n by {
            assert(m[i] == d[i]);
        }
    }
}

/// The episodes kept by number come sorted by strictly increasing number.
pub proof fn lemma_numbered_map_sorted(cs: Seq<(Option<u64>, (u64, Seq<char>, Seq<char>, Seq<char>))>)
    ensures
        by_number(numbered_map(cs)),
    decreases cs.len(),
{
    if cs.len() > 0 {
        lemma_numbered_map_sorted(cs.drop_last());
        let m = numbered_map(cs.drop_last());
        if cs.last().0 is Some {
            let e = cs.last().1;
            lemma_key_pos(m, e.0);
            let p = key_pos(m, e.0);
            if !(p < m.len() && m[p].0 == e.0) {
                let nv = m.insert(p, e);
                assert forall|k1: int, k2: int| 0 <= k1 < k2 < nv.len() implies (#[trigger] nv[k1]).0 < (#[trigger] nv[k2]).0 by {
                    if k2 < p {
                        assert(nv[k1] == m[k1] && nv[k2] == m[k2]);
                    } else if k2 == p {
                        assert(nv[k1] == m[k1]);
                    } else if k1 < p {
                        assert(nv[k1] == m[k1] && nv[k2] == m[k2 - 1]);
                    } else if k1 == p {
                        assert(nv[k2] == m[k2 - 1]);
                        assert(m[p].0 > e.0);
                        if k2 - 1 > p {
                            assert(m[p].0 < m[k2 - 1].0);
                        }
                    } else {
                        assert(nv[k1] == m[k1 - 1] && nv[k2] == m[k2 - 1]);
                    }
                }
            }
        }
    }
}

/// Each page once, its first episode kept, in order.
pub open spec fn dedup_by_url(cs: Seq<(Option<u64>, (u64, Seq<char>, Seq<char>, Seq<char>))>) -> Seq<(u64, Seq<char>, Seq<char>, Seq<char>)>
    decreases cs.len(),
{
    if cs.len() == 0 {
        Seq::empty()
    } else {
        let out = dedup_by_url(cs.drop_last());
        if exists|k: int| 0 <= k < out.len() && (#[trigger] out[k]).1 == cs.last().1.1 {
            out
        } else {
            out.push(cs.last().1)
        }
    }
}

fn episode_from_link(url: String, ep_slug: &str) -> (r: Option<(Option<u64>, VaEpisode)>)
    ensures
        match r {
            Some((n, e)) => episode_of_link(url@, ep_slug@) == Some((n, episode_view(e))) && e.sources@.len() == 0,
            None => episode_of_link(url@, ep_slug@) is None,
        },
{
    if ep_slug.is_empty() {
        return None;
    }
    let lang = if str_contains(ep_slug, "-vf") {
        owned("vf")
    } else {
        owned("vostfr")
    };
    let n = match first_capture(NUM_RE, ep_slug, 1) {
        Some(d) => crate::num::parse_u64_str(d.as_str()),
        None => None,
    };
    let number: u64 = match n {
        Some(x) => x,
        None => 0,
    };
    let mut title = owned("Épisode ");
    crate::num::push_decimal(&mut title, number);
    Some((n, VaEpisode { number, url, title, lang, sources: Vec::new() }))
}

/// The episodes the links describe, as `link_episodes` lists them.
pub fn episodes_from_links(caps: &Vec<Vec<Option<String>>>) -> (r: Vec<(Option<u64>, VaEpisode)>)
    ensures
        Seq::new(r@.len(), |i: int| (r@[i].0, episode_view(r@[i].1))) == link_episodes(caps.deep_view()),
        forall|i: int| 0 <= i < r@.len() ==> (#[trigger] r@[i]).1.sources@.len() == 0,
{
    let ghost cv = caps.deep_view();
    let mut out: Vec<(Option<u64>, VaEpisode)> = Vec::new();
    let mut k: usize = 0;
    assert(cv.take(0) =~= Seq::<Seq<Option<Seq<char>>>>::empty());
    while k < caps.len()
        invariant
            k <= caps@.len(),
            cv == caps.deep_view(),
            cv.len() == caps@.len(),
            Seq::new(out@.len(), |i: int| (out@[i].0, episode_view(out@[i].1))) == link_episodes(cv.take(k as int)),
            forall|i: int| 0 <= i < out@.len() ==> (#[trigger] out@[i]).1.sources@.len() == 0,
        decreases caps@.len() - k,
    {
        let ghost t = cv.take(k + 1);
        assert(t.drop_last() =~= cv.take(k as int));
        assert(group_of(t, k as int, 1) == group_of(cv, k as int, 1));
        assert(group_of(t, k as int, 2) == group_of(cv, k as int, 2));
        let url = match crate::rx::get_group(caps, k, 1) {
            Some(u) => u,
            None => String::new(),
        };
        let ep_slug = match crate::rx::get_group(caps, k, 2) {
            Some(u) => u,
            None => String::new(),
        };
        let ghost before = Seq::new(out@.len(), |i: int| (out@[i].0, episode_view(out@[i].1)));
        match episode_from_link(url, ep_slug.as_str()) {
            Some(pair) => {
                let ghost pv = (pair.0, episode_view(pair.1));
                out.push(pair);
                assert(Seq::new(out@.len(), |i: int| (out@[i].0, episode_view(out@[i].1))) =~= before.push(pv));
            },
            None => {},
        }
        k = k + 1;
    }
    assert(cv.take(k as int) =~= cv);
    out
}


pub open spec fn cands_view(r: Seq<(Option<u64>, VaEpisode)>) -> Seq<(Option<u64>, (u64, Seq<char>, Seq<char>, Seq<char>))> {
    Seq::new(r.len(), |i: int| (r[i].0, episode_view(r[i].1)))
}

fn place_numbered(out: &mut Vec<VaEpisode>, ep: VaEpisode)
    requires
        ep.sources@.len() == 0,
        forall|k: int| 0 <= k < old(out)@.len() ==> (#[trigger] old(out)@[k]).sources@.len() == 0,
    ensures
        episodes_view(final(out)@) == or_insert(episodes_view(old(out)@), episode_view(ep)),
        forall|k: int| 0 <= k < final(out)@.len() ==> (#[trigger] final(out)@[k]).sources@.len() == 0,
{
    let ghost ov = episodes_view(out@);
    let n = ep.number;
    let mut p: usize = out.len();
    assert(ov.take(p as int) =~= ov);
    while p > 0 && out[p - 1].number >= n
        invariant
            p <= out@.len(),
            ov == episodes_view(out@),
            key_pos(ov, n) == key_pos(ov.take(p as int), n),
        decreases p,
    {
        assert(ov.take(p as int).drop_last() =~= ov.take(p - 1));
        assert(ov.take(p as int).last() == ov[p - 1]);
        p = p - 1;
    }
    proof {
        if p > 0 {
            assert(ov.take(p as int).last() == ov[p - 1]);
        }
        assert(key_pos(ov.take(p as int), n) == p);
    }
    if p < out.len() && out[p].number == n {
        return;
    }
    let ghost ev = episode_view(ep);
    let ghost before = out@;
    out.insert(p, ep);
    assert(episodes_view(out@) =~= ov.insert(p as int, ev));
    assert forall|k: int| 0 <= k < out@.len() implies (#[trigger] out@[k]).sources@.len() == 0 by {
        if k < p {
            assert(out@[k] == before[k]);
        } else if k > p {
            assert(out@[k] == before[k - 1]);
        }
    }
}

fn keep_numbered(cands: Vec<(Option<u64>, VaEpisode)>) -> (out: Vec<VaEpisode>)
    requires
        forall|i: int| 0 <= i < cands@.len() ==> (#[trigger] cands@[i]).1.sources@.len() == 0,
    ensures
        forall|k: int| 0 <= k < out@.len() ==> (#[trigger] out@[k]).sources@.len() == 0,
        episodes_view(out@) == numbered_map(cands_view(cands@)),
{
    let ghost cs = cands_view(cands@);
    let mut out: Vec<VaEpisode> = Vec::new();
    let mut rest = cands;
    let n0: usize = rest.len();
    let mut i: usize = 0;
    assert(cands_view(rest@) =~= cs.skip(0));
    assert(cs.take(0) =~= Seq::<(Option<u64>, (u64, Seq<char>, Seq<char>, Seq<char>))>::empty());
    while rest.len() > 0
        invariant
            i + rest@.len() == n0,
            n0 == cs.len(),
            cands_view(rest@) == cs.skip(i as int),
            forall|j: int| 0 <= j < rest@.len() ==> (#[trigger] rest@[j]).1.sources@.len() == 0,
            forall|k: int| 0 <= k < out@.len() ==> (#[trigger] out@[k]).sources@.len() == 0,
            episodes_view(out@) == numbered_map(cs.take(i as int)),
        decreases rest@.len(),
    {
        let ghost rv = cands_view(rest@);
        let ghost rs = rest@;
        let (num, ep) = rest.remove(0);
        assert((num, episode_view(ep)) == cs[i as int]) by {
            assert(rv[0] == cs.skip(i as int)[0]);
        }
        assert forall|j: int| 0 <= j < rest@.len() implies #[trigger] cands_view(rest@)[j] == cs.skip(i + 1)[j] by {
            assert(rv[j + 1] == cs.skip(i as int)[j + 1]);
        }
        assert(cands_view(rest@) =~= cs.skip(i + 1));
        assert forall|j: int| 0 <= j < rest@.len() implies (#[trigger] rest@[j]).1.sources@.len() == 0 by {
            assert(rest@[j] == rs[j + 1]);
        }
        assert(rs[0].1 == ep);
        assert(cs.take(i + 1).drop_last() =~= cs.take(i as int));
        assert(cs.take(i + 1).last() == cs[i as int]);
        if num.is_some() {
            place_numbered(&mut out, ep);
        }
        i = i + 1;
    }
    assert(cs.take(i as int) =~= cs);
    out
}

fn dedup_urls(cands: Vec<(Option<u64>, VaEpisode)>) -> (out: Vec<VaEpisode>)
    requires
        forall|i: int| 0 <= i < cands@.len() ==> (#[trigger] cands@[i]).1.sources@.len() == 0,
    ensures
        episodes_view(out@) == dedup_by_url(cands_view(cands@)),
        forall|k: int| 0 <= k < out@.len() ==> (#[trigger] out@[k]).sources@.len() == 0,
{
    let ghost cs = cands_view(cands@);
    let mut out: Vec<VaEpisode> = Vec::new();
    let mut rest = cands;
    let n0: usize = rest.len();
    let mut i: usize = 0;
    assert(cands_view(rest@) =~= cs.skip(0));
    assert(cs.take(0) =~= Seq::<(Option<u64>, (u64, Seq<char>, Seq<char>, Seq<char>))>::empty());
    while rest.len() > 0
        invariant
            i + rest@.len() == n0,
            n0 == cs.len(),
            cands_view(rest@) == cs.skip(i as int),
            episodes_view(out@) == dedup_by_url(cs.take(i as int)),
            forall|j: int| 0 <= j < rest@.len() ==> (#[trigger] rest@[j]).1.sources@.len() == 0,
            forall|k: int| 0 <= k < out@.len() ==> (#[trigger] out@[k]).sources@.len() == 0,
        decreases rest@.len(),
    {
        let ghost rv = cands_view(rest@);
        let ghost rs = rest@;
        let (_num, ep) = rest.remove(0);
        assert(rs[0].1 == ep);
        assert forall|j: int| 0 <= j < rest@.len() implies (#[trigger] rest@[j]).1.sources@.len() == 0 by {
            assert(rest@[j] == rs[j + 1]);
        }
        assert(episode_view(ep) == cs[i as int].1) by {
            assert(rv[0] == cs.skip(i as int)[0]);
        }
        assert forall|j: int| 0 <= j < rest@.len() implies #[trigger] cands_view(rest@)[j] == cs.skip(i + 1)[j] by {
            assert(rv[j + 1] == cs.skip(i as int)[j + 1]);
        }
        assert(cands_view(rest@) =~= cs.skip(i + 1));
        assert(cs.take(i + 1).drop_last() =~= cs.take(i as int));
        assert(cs.take(i + 1).last() == cs[i as int]);
        let ghost ov = episodes_view(out@);
        let mut seen = false;
        let mut k: usize = 0;
        while k < out.len()
            invariant
                k <= out@.len(),
                ov == episodes_view(out@),
                seen == exists|j: int| 0 <= j < k && (#[trigger] ov[j]).1 == ep.url@,
            decreases out@.len() - k,
        {
            assert(ov[k as int].1 == out@[k as int].url@);
            if str_eq(out[k].url.as_str(), ep.url.as_str()) {
                seen = true;
            }
            k = k + 1;
        }
        if !seen {
            let ghost ev = episode_view(ep);
            out.push(ep);
            assert(episodes_view(out@) =~= ov.push(ev));
        }
        i = i + 1;
    }
    assert(cs.take(i as int) =~= cs);
    out
}

/// The episodes kept of the candidates, as `episodes_kept` describes them.
fn keep_episodes(cands: Vec<(Option<u64>, VaEpisode)>) -> (out: Vec<VaEpisode>)
    requires
        forall|i: int| 0 <= i < cands@.len() ==> (#[trigger] cands@[i]).1.sources@.len() == 0,
    ensures
        episodes_kept(cands_view(cands@), episodes_view(out@)),
        forall|k: int| 0 <= k < out@.len() ==> (#[trigger] out@[k]).sources@.len() == 0,
{
    let ghost cs = cands_view(cands@);
    let mut any = false;
    let mut i: usize = 0;
    while i < cands.len()
        invariant
            i <= cands@.len(),
            cs == cands_view(cands@),
            any == exists|j: int| 0 <= j < i && (#[trigger] cs[j]).0 is Some,
        decreases cands@.len() - i,
    {
        if cands[i].0.is_some() {
            any = true;
        }
        assert(cs[i as int].0 == cands@[i as int].0);
        i = i + 1;
    }
    if any {
        keep_numbered(cands)
    } else {
        dedup_urls(cands)
    }
}

/// The episodes a series page links to, as `episodes_kept` chooses them among
/// the links that `episode_link_pattern` finds.
pub fn parse_episodes(slug: &str, html: &str) -> (r: Vec<VaEpisode>)
    ensures
        episodes_kept(
            link_episodes(regex_captures(episode_link_pattern(slug@), html@)),
            episodes_view(r@),
        ),
        forall|i: int| 0 <= i < r@.len() ==> (#[trigger] r@[i]).sources@.len() == 0,
{
    let esc = crate::rx::escape(slug);
    let mut pat = owned("(?is)<a[^>]+href=\"(https://voir-anime\\.to/anime/");
    push_str(&mut pat, esc.as_str());
    push_str(&mut pat, "/([^\"]+)/)\"");
    let caps = captures_all(pat.as_str(), html);
    let cands = episodes_from_links(&caps);
    assert(cands_view(cands@) == link_episodes(caps.deep_view()));
    keep_episodes(cands)
}


/// The title of a series page.
pub const DETAIL_TITLE_RE: &'static str = r#"(?is)<div class="post-title[^"]*">\s*<h1[^>]*>(.*?)</h1>"#;
/// The summary of a series page.
pub const SUMMARY_RE: &'static str = r#"(?is)<div class="summary__content[^"]*">(.*?)</div>"#;
/// The poster of a series page.
pub const POSTER_RE: &'static str = r#"(?is)<div class="summary_image">.*?<img[^>]+(?:data-src|src)="([^"]+)""#;
/// The genres block of a series page.
pub const GENRES_RE: &'static str = r#"(?is)<div class="genres-content">(.*?)</div>"#;
/// One genre link.
pub const GENRE_LINK_RE: &'static str = r#"(?is)<a[^>]*>([^<]+)</a>"#;
/// The average rating of a series page.
pub const SCORE_RE: &'static str = r#"(?is)<span id="averagerate"[^>]*>\s*([0-9]+(?:\.[0-9]+)?)\s*</span>"#;
/// The release year of a series page.
pub const RELEASE_RE: &'static str = r#"(?is)<div class="post-content_item">\s*<div class="summary-heading">\s*<h5>\s*(?:Release|Sortie)[^<]*</h5>.*?<div class="summary-content[^"]*">\s*<a[^>]*>([^<]+)</a>"#;
/// The status of a series page.
pub const STATUS_RE: &'static str = r#"(?is)<div class="post-content_item">\s*<div class="summary-heading">\s*<h5>\s*Status[^<]*</h5>\s*</div>\s*<div class="summary-content[^"]*">([^<]+)</div>"#;

/// The page of a series: its slug, title, summary, poster, genres, release
/// year, status, the text of its rating, and its episodes.
pub struct VaDetail {
    pub slug: String,
    pub title: String,
    pub description: String,
    pub image: Option<String>,
    pub genres: Vec<String>,
    pub year: Option<String>,
    pub status: Option<String>,
    pub score_text: Option<String>,
    pub episodes: Vec<VaEpisode>,
}

/// Text read from an HTML fragment: tags removed, entities decoded, surrounding white space removed.
pub open spec fn fragment_text(s: Seq<char>) -> Seq<char> {
    trim(crate::html::decode(crate::html::strip_tags_spec(s)))
}

fn fragment(s: &str) -> (r: String)
    ensures
        r@ == fragment_text(s@),
{
    let t = crate::html::strip_tags(s);
    let d = crate::html::decode_entities(t.as_str());
    trim_str(d.as_str())
}

/// The genres that the links of the genres block name, cleaned, the empty ones left out.
pub open spec fn genres_spec(caps: Seq<Seq<Option<Seq<char>>>>) -> Seq<Seq<char>>
    decreases caps.len(),
{
    if caps.len() == 0 {
        Seq::empty()
    } else {
        let rest = genres_spec(caps.drop_last());
        match group_of(caps, caps.len() - 1, 1) {
            Some(g) => if clean_text(g).len() > 0 {
                rest.push(clean_text(g))
            } else {
                rest
            },
            None => rest,
        }
    }
}

fn genres_of(caps: &Vec<Vec<Option<String>>>) -> (r: Vec<String>)
    ensures
        r.deep_view() == genres_spec(caps.deep_view()),
{
    let ghost cv = caps.deep_view();
    let mut out: Vec<String> = Vec::new();
    let mut k: usize = 0;
    assert(cv.take(0) =~= Seq::<Seq<Option<Seq<char>>>>::empty());
    while k < caps.len()
        invariant
            k <= caps@.len(),
            cv == caps.deep_view(),
            cv.len() == caps@.len(),
            out.deep_view() == genres_spec(cv.take(k as int)),
        decreases caps@.len() - k,
    {
        let ghost t = cv.take(k + 1);
        assert(t.drop_last() =~= cv.take(k as int));
        assert(group_of(t, k as int, 1) == group_of(cv, k as int, 1));
        match crate::rx::get_group(caps, k, 1) {
            Some(g) => {
                let c = clean(g.as_str());
                if !c.as_str().is_empty() {
                    let ghost before = out@;
                    out.push(c);
                    proof {
                        crate::text::lemma_deep_view_push(before, out@, c);
                    }
                }
            },
            None => {},
        }
        k = k + 1;
    }
    assert(cv.take(k as int) =~= cv);
    out
}

/// The genres of a series page: those its genres block links to.
pub open spec fn page_genres(html: Seq<char>) -> Seq<Seq<char>> {
    match first_group(regex_captures(GENRES_RE@, html), 1) {
        Some(block) => genres_spec(regex_captures(GENRE_LINK_RE@, block)),
        None => Seq::empty(),
    }
}

/// The page of a series: each field read with its pattern (the title and
/// summary as text of their fragments, the slug standing for a missing title),
/// and the episodes as `parse_episodes` gives them.
pub fn parse_detail(slug: &str, html: &str) -> (r: Result<VaDetail, VaError>)
    ensures
        r matches Ok(d) && {
            &&& d.slug@ == slug@
            &&& d.title@ == match first_group(regex_captures(DETAIL_TITLE_RE@, html@), 1) {
                Some(t) => fragment_text(t),
                None => slug@,
            }
            &&& d.description@ == match first_group(regex_captures(SUMMARY_RE@, html@), 1) {
                Some(t) => fragment_text(t),
                None => Seq::empty(),
            }
            &&& d.image.deep_view() == first_group(regex_captures(POSTER_RE@, html@), 1)
            &&& d.genres.deep_view() == page_genres(html@)
            &&& d.score_text.deep_view() == first_group(regex_captures(SCORE_RE@, html@), 1)
            &&& d.year.deep_view() == match first_group(regex_captures(RELEASE_RE@, html@), 1) {
                Some(t) => Some(clean_text(t)),
                None => None,
            }
            &&& d.status.deep_view() == match first_group(regex_captures(STATUS_RE@, html@), 1) {
                Some(t) => Some(clean_text(t)),
                None => None,
            }
            &&& episodes_kept(
                link_episodes(regex_captures(episode_link_pattern(slug@), html@)),
                episodes_view(d.episodes@),
            )
            &&& forall|i: int| 0 <= i < d.episodes@.len() ==> (#[trigger] d.episodes@[i]).sources@.len() == 0
        },
{
    let title = match first_capture(DETAIL_TITLE_RE, html, 1) {
        Some(t) => fragment(t.as_str()),
        None => owned(slug),
    };
    let description = match first_capture(SUMMARY_RE, html, 1) {
        Some(t) => fragment(t.as_str()),
        None => String::new(),
    };
    let image = first_capture(POSTER_RE, html, 1);
    let genres = match first_capture(GENRES_RE, html, 1) {
        Some(block) => {
            let caps = captures_all(GENRE_LINK_RE, block.as_str());
            genres_of(&caps)
        },
        None => {
            let v: Vec<String> = Vec::new();
            assert(v.deep_view() =~= Seq::<Seq<char>>::empty());
            v
        },
    };
    let score_text = first_capture(SCORE_RE, html, 1);
    let year = clean_opt(first_capture(RELEASE_RE, html, 1));
    let status = clean_opt(first_capture(STATUS_RE, html, 1));
    let episodes = parse_episodes(slug, html);
    Ok(VaDetail {
        slug: owned(slug),
        title,
        description,
        image,
        genres,
        year,
        status,
        score_text,
        episodes,
    })
}

} // verus!
