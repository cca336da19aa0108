//! The Anime-Sama catalogue: series found in its sitemap, their seasons, and
//! the players listed in the scripts of each season.
use vstd::prelude::*;
use crate::rx::{captures_all, first_capture, first_group, group_of, regex_captures, regex_escape};
use crate::text::{
    ascii_upper, chars_of, contains, find, index_of_from, lowercase, owned, push_char, push_str,
    split_char, starts_with, str_contains, str_eq, str_starts_with, string_from_range, to_lowercase,
    trim, trim_char, trim_char_str, trim_str,
};

verus! {

/// The site's address.
pub const BASE: &'static str = "https://anime-sama.to";

/// What can go wrong while reading the site.  A transport failure carries
/// its message.
pub enum AsError {
    Http(String),
    Status(u16),
    NoData,
}

impl AsError {
    /// The message shown for this error.
    pub fn message(&self) -> (r: String)
        ensures
            match self {
                AsError::Http(m) => r@ == "HTTP: "@ + m@,
                AsError::Status(c) => r@ == "HTTP status "@ + crate::num::decimal(*c as nat),
                AsError::NoData => r@ == "Aucune donnée"@,
            },
    {
        match self {
            AsError::Http(m) => {
                let mut r = owned("HTTP: ");
                push_str(&mut r, m.as_str());
                r
            },
            AsError::Status(c) => {
                let mut r = owned("HTTP status ");
                crate::num::push_decimal(&mut r, *c as u64);
                r
            },
            AsError::NoData => owned("Aucune donnée"),
        }
    }
}

/// A series of the catalogue.
pub struct AsSeries {
    pub slug: String,
    pub title: String,
    pub url: String,
    pub image: Option<String>,
}

/// A player: the name of its host and the address of its frame.
pub struct AsSource {
    pub host: String,
    pub iframe: String,
}

/// The view of a player.
pub open spec fn as_source_view(s: AsSource) -> (Seq<char>, Seq<char>) {
    (s.host@, s.iframe@)
}

pub open spec fn as_sources_view(s: Seq<AsSource>) -> Seq<(Seq<char>, Seq<char>)> {
    Seq::new(s.len(), |i: int| as_source_view(s[i]))
}

/// An episode: its number, its title and its players in each language.
pub struct AsEpisode {
    pub number: u64,
    pub title: String,
    pub vo: Vec<AsSource>,
    pub vf: Vec<AsSource>,
}

/// A season and its episodes.
pub struct AsSeason {
    pub title: String,
    pub episodes: Vec<AsEpisode>,
}

/// What is kept of a series: its seasons, summary, genres, picture and title.
pub struct AsCachedEpisodes {
    pub seasons: Vec<AsSeason>,
    pub description: String,
    pub genres: Vec<String>,
    pub image: Option<String>,
    pub title: String,
}

// ---------------------------------------------------------------------------
// Addresses
// ---------------------------------------------------------------------------

/// The sitemap of the site.
pub fn sitemap_url() -> (r: String)
    ensures
        r@ == BASE@ + "/sitemap.xml"@,
{
    let mut r = owned(BASE);
    push_str(&mut r, "/sitemap.xml");
    r
}

/// The page of a series.
pub fn catalogue_url(slug: &str) -> (r: String)
    ensures
        r@ == BASE@ + "/catalogue/"@ + slug@ + "/"@,
{
    let mut r = owned(BASE);
    push_str(&mut r, "/catalogue/");
    push_str(&mut r, slug);
    push_str(&mut r, "/");
    r
}

/// The script that lists the players of a season in a language.
pub fn episodes_js_url(slug: &str, base: &str, lang: &str) -> (r: String)
    ensures
        r@ == BASE@ + "/catalogue/"@ + slug@ + "/"@ + base@ + "/"@ + lang@ + "/episodes.js"@,
{
    let mut r = owned(BASE);
    push_str(&mut r, "/catalogue/");
    push_str(&mut r, slug);
    push_str(&mut r, "/");
    push_str(&mut r, base);
    push_str(&mut r, "/");
    push_str(&mut r, lang);
    push_str(&mut r, "/episodes.js");
    r
}

/// `s` without the trailing copies of `c`.
pub open spec fn trim_end_char(s: Seq<char>, c: char) -> Seq<char>
    decreases s.len(),
{
    if s.len() > 0 && s.last() == c {
        trim_end_char(s.drop_last(), c)
    } else {
        s
    }
}

/// The slug of a series from the address of its page: what follows
/// `/catalogue/`, without trailing slashes, when that is one non-empty segment.
pub open spec fn slug_from_catalogue_spec(url: Seq<char>) -> Option<Seq<char>> {
    match find(url, "/catalogue/"@) {
        Some(idx) => {
            let rest = trim_end_char(url.skip(idx + 11), '/');
            if rest.len() == 0 || index_of_from(rest, '/', 0) is Some {
                None
            } else {
                Some(rest)
            }
        },
        None => None,
    }
}

/// The slug of a series from the address of its page, as `slug_from_catalogue_spec` reads it.
pub fn slug_from_catalogue_url(url: &str) -> (r: Option<String>)
    ensures
        r.deep_view() == slug_from_catalogue_spec(url@),
{
    let v = chars_of(url);
    let marker = chars_of("/catalogue/");
    proof {
        reveal_strlit("/catalogue/");
        crate::text::lemma_find_from(v@, marker@, 0);
    }
    let idx = match crate::text::find_chars(&v, &marker) {
        Some(i) => i,
        None => return None,
    };
    assert(marker@.len() == 11);
    assert(crate::text::matches_at(v@, marker@, idx as int));
    let vn = v.len();
    assert(idx + 11 <= vn);
    let start = idx + 11;
    let mut end = v.len();
    assert(v@.subrange(start as int, end as int) =~= v@.skip(start as int));
    while end > start && v[end - 1] == '/'
        invariant
            start <= end <= v@.len(),
            trim_end_char(v@.skip(start as int), '/') == trim_end_char(v@.subrange(start as int, end as int), '/'),
        decreases end,
    {
        assert(v@.subrange(start as int, end as int).drop_last() =~= v@.subrange(start as int, end - 1));
        end = end - 1;
    }
    let rest = string_from_range(&v, start, end);
    let rv = chars_of(rest.as_str());
    proof {
        crate::text::lemma_index_of_from(rv@, '/', 0);
    }
    if rv.len() == 0 || crate::text::find_char_from(&rv, '/', 0).is_some() {
        None
    } else {
        Some(rest)
    }
}

/// A page title without what follows its first `|`, trimmed.
pub open spec fn clean_title_spec(raw: Seq<char>) -> Seq<char> {
    trim(split_char(raw, '|')[0])
}

/// A page title without what follows its first `|`, trimmed.
pub fn clean_title(raw: &str) -> (r: String)
    ensures
        r@ == clean_title_spec(raw@),
{
    let parts = crate::text::split_at_char(raw, '|');
    proof {
        crate::text::lemma_split_char_len(raw@, '|');
    }
    assert(parts.deep_view()[0] == parts@[0]@);
    trim_str(parts[0].as_str())
}

/// The `<title>` of a page.
pub const TITLE_TAG_RE: &'static str = r"(?is)<title>(.*?)</title>";

/// The `<title>` of a page.
pub fn extract_title_tag(html: &str) -> (r: Option<String>)
    ensures
        r.deep_view() == first_group(regex_captures(TITLE_TAG_RE@, html@), 1),
{
    first_capture(TITLE_TAG_RE, html, 1)
}

/// The pattern of a `<meta>` tag named `prop` and its content.
pub open spec fn meta_pattern(prop: Seq<char>) -> Seq<char> {
    "(?is)<meta[^>]+(?:property|name)=[\"']"@ + regex_escape(prop) + "[\"'][^>]+content=[\"']([^\"']*)[\"']"@
}

/// The content of the `<meta>` tag named `prop`, trimmed; nothing when it is empty.
pub open spec fn meta_content_spec(html: Seq<char>, prop: Seq<char>) -> Option<Seq<char>> {
    match first_group(regex_captures(meta_pattern(prop), html), 1) {
        Some(v) => if trim(v).len() == 0 {
            None
        } else {
            Some(trim(v))
        },
        None => None,
    }
}

/// The content of a `<meta>` tag, as `meta_content_spec` reads it.
pub fn meta_content(html: &str, prop: &str) -> (r: Option<String>)
    ensures
        r.deep_view() == meta_content_spec(html@, prop@),
{
    let esc = crate::rx::escape(prop);
    let mut pat = owned("(?is)<meta[^>]+(?:property|name)=[\"']");
    push_str(&mut pat, esc.as_str());
    push_str(&mut pat, "[\"'][^>]+content=[\"']([^\"']*)[\"']");
    match first_capture(pat.as_str(), html, 1) {
        Some(v) => {
            let t = trim_str(v.as_str());
            if t.as_str().is_empty() {
                None
            } else {
                Some(t)
            }
        },
        None => None,
    }
}

/// The keywords of a page.
pub const KEYWORDS_RE: &'static str = r#"(?is)<meta[^>]+name=["']keywords["'][^>]+content=["']([^"']*)["']"#;

/// Keywords that name no genre.
pub open spec fn junk_keywords() -> Seq<Seq<char>> {
    seq![
        "anime-sama"@, "anime sama"@, "anime"@, "animes"@, "scan"@, "scans"@, "vostfr"@, "vf"@, "va"@,
        "vo"@, "streaming"@, "manga"@, "mangas"@, "catalogue"@,
    ]
}

/// The genres among comma-separated keywords: each trimmed, the empty ones
/// and those naming no genre (in lower case) left out.
pub open spec fn genres_from_keywords(parts: Seq<Seq<char>>) -> Seq<Seq<char>>
    decreases parts.len(),
{
    if parts.len() == 0 {
        Seq::empty()
    } else {
        let rest = genres_from_keywords(parts.drop_last());
        let t = trim(parts.last());
        if t.len() > 0 && !junk_keywords().contains(lowercase(t)) {
            rest.push(t)
        } else {
            rest
        }
    }
}

/// The genres of a page: the first eight of its keywords that name one.
pub open spec fn parse_genres_spec(html: Seq<char>) -> Seq<Seq<char>> {
    match first_group(regex_captures(KEYWORDS_RE@, html), 1) {
        Some(k) => {
            let g = genres_from_keywords(split_char(k, ','));
            if g.len() > 8 {
                g.take(8)
            } else {
                g
            }
        },
        None => Seq::empty(),
    }
}

fn is_junk_keyword(lower: &str) -> (b: bool)
    ensures
        b == junk_keywords().contains(lower@),
{
    let junk: [&str; 14] = [
        "anime-sama", "anime sama", "anime", "animes", "scan", "scans", "vostfr", "vf", "va", "vo",
        "streaming", "manga", "mangas", "catalogue",
    ];
    assert forall|k: int| 0 <= k < 14 implies (#[trigger] junk@[k])@ == junk_keywords()[k] by {}
    let mut k: usize = 0;
    while k < 14
        invariant
            k <= 14,
            junk@.len() == 14,
            forall|j: int| 0 <= j < 14 ==> (#[trigger] junk@[j])@ == junk_keywords()[j],
            forall|j: int| 0 <= j < k ==> junk_keywords()[j] != lower@,
        decreases 14 - k,
    {
        if str_eq(junk[k], lower) {
            assert(junk_keywords()[k as int] == lower@);
            return true;
        }
        k = k + 1;
    }
    false
}

/// The genres of a page, as `parse_genres_spec` reads them.
pub fn parse_genres(html: &str) -> (r: Vec<String>)
    ensures
        r.deep_view() == parse_genres_spec(html@),
{
    let mut out: Vec<String> = Vec::new();
    let k = match first_capture(KEYWORDS_RE, html, 1) {
        Some(k) => k,
        None => {
            assert(out.deep_view() =~= Seq::<Seq<char>>::empty());
            return out;
        },
    };
    let parts = crate::text::split_at_char(k.as_str(), ',');
    let ghost pv = parts.deep_view();
    let mut i: usize = 0;
    assert(pv.take(0) =~= Seq::<Seq<char>>::empty());
    while i < parts.len()
        invariant
            i <= parts@.len(),
            pv == parts.deep_view(),
            out.deep_view() == genres_from_keywords(pv.take(i as int)),
        decreases parts@.len() - i,
    {
        assert(pv.take(i + 1).drop_last() =~= pv.take(i as int));
        assert(pv.take(i + 1).last() == parts@[i as int]@);
        let t = trim_str(parts[i].as_str());
        let tl = to_lowercase(t.as_str());
        if !t.as_str().is_empty() && !is_junk_keyword(tl.as_str()) {
            let ghost before = out@;
            out.push(t);
            proof {
                crate::text::lemma_deep_view_push(before, out@, t);
            }
        }
        i = i + 1;
    }
    assert(pv.take(i as int) =~= pv);
    if out.len() > 8 {
        let ghost full = out.deep_view();
        out.truncate(8);
        assert(out.deep_view() =~= full.take(8));
    }
    out
}

// ---------------------------------------------------------------------------
// Seasons
// ---------------------------------------------------------------------------

/// All the characters are ASCII digits.
pub open spec fn all_ascii_digits(s: Seq<char>) -> bool {
    forall|i: int| 0 <= i < s.len() ==> crate::text::is_ascii_digit(#[trigger] s[i])
}

/// `s` with `-` and `_` replaced by spaces.
pub open spec fn dashes_to_spaces(s: Seq<char>) -> Seq<char> {
    Seq::new(s.len(), |i: int| if s[i] == '-' || s[i] == '_' {
        ' '
    } else {
        s[i]
    })
}

/// The name shown for a season from its path: `Saison n` for `saisonn`,
/// `Films` for `film` and `films`, `OAV` for `oav`, otherwise the path with
/// dashes and underscores as spaces and its first letter, when ASCII, in upper case.
pub open spec fn pretty_section_spec(base: Seq<char>) -> Seq<char> {
    let b = trim_char(base, '/');
    if starts_with(b, "saison"@) && b.len() > 6 && all_ascii_digits(b.skip(6)) {
        "Saison "@ + b.skip(6)
    } else if b == "film"@ || b == "films"@ {
        "Films"@
    } else if b == "oav"@ {
        "OAV"@
    } else {
        let s = dashes_to_spaces(b);
        if s.len() > 0 && (s[0] as u32) < 128 {
            s.update(0, ascii_upper(s[0]))
        } else {
            s
        }
    }
}

/// The name shown for a season, as `pretty_section_spec` gives it.
pub fn pretty_section_name(base: &str) -> (r: String)
    ensures
        r@ == pretty_section_spec(base@),
{
    let bs = trim_char_str(base, '/');
    let b = chars_of(bs.as_str());
    proof {
        reveal_strlit("saison");
    }
    if str_starts_with(bs.as_str(), "saison") && b.len() > 6 {
        let mut all = true;
        let mut i: usize = 6;
        while i < b.len()
            invariant
                6 <= i <= b@.len(),
                all == forall|j: int| 6 <= j < i ==> crate::text::is_ascii_digit(#[trigger] b@[j]),
            decreases b@.len() - i,
        {
            if !crate::text::char_is_ascii_digit(b[i]) {
                all = false;
            }
            i = i + 1;
        }
        proof {
            assert(all == all_ascii_digits(b@.skip(6))) by {
                if all {
                    assert forall|j: int| 0 <= j < b@.skip(6).len() implies crate::text::is_ascii_digit(#[trigger] b@.skip(6)[j]) by {
                        assert(b@.skip(6)[j] == b@[j + 6]);
                    }
                } else {
                    let j = choose|j: int| 6 <= j < i && !crate::text::is_ascii_digit(#[trigger] b@[j]);
                    assert(b@.skip(6)[j - 6] == b@[j]);
                }
            }
        }
        if all {
            let mut r = owned("Saison ");
            let n = string_from_range(&b, 6, b.len());
            push_str(&mut r, n.as_str());
            assert(b@.subrange(6, b@.len() as int) =~= b@.skip(6));
            return r;
        }
    }
    if str_eq(bs.as_str(), "film") || str_eq(bs.as_str(), "films") {
        return owned("Films");
    }
    if str_eq(bs.as_str(), "oav") {
        return owned("OAV");
    }
    let mut s: Vec<char> = Vec::new();
    let mut i: usize = 0;
    while i < b.len()
        invariant
            i <= b@.len(),
            s@ == dashes_to_spaces(b@).take(i as int),
        decreases b@.len() - i,
    {
        let c = b[i];
        s.push(if c == '-' || c == '_' {
            ' '
        } else {
            c
        });
        i = i + 1;
        assert(s@ =~= dashes_to_spaces(b@).take(i as int));
    }
    assert(dashes_to_spaces(b@).take(i as int) =~= dashes_to_spaces(b@));
    if s.len() > 0 && (s[0] as u32) < 128 {
        let c0 = crate::text::char_ascii_upper(s[0]);
        s.set(0, c0);
    }
    crate::text::string_from_chars(&s)
}

/// The host of a player's address: without its scheme, path and `www.`,
/// the first label of the domain.
pub open spec fn host_of_spec(url: Seq<char>) -> Seq<char> {
    let t = crate::naming::strip_prefix_all(crate::naming::strip_prefix_all(url, "https://"@), "http://"@);
    let h = crate::naming::strip_prefix_all(split_char(t, '/')[0], "www."@);
    split_char(h, '.')[0]
}

/// The host of a player's address, as `host_of_spec` gives it.
pub fn host_of(url: &str) -> (r: String)
    ensures
        r@ == host_of_spec(url@),
{
    let t1 = crate::naming::strip_prefix_all_str(url, "https://");
    let t2 = crate::naming::strip_prefix_all_str(t1.as_str(), "http://");
    let parts = crate::text::split_at_char(t2.as_str(), '/');
    proof {
        crate::text::lemma_split_char_len(t2@, '/');
    }
    assert(parts.deep_view()[0] == parts@[0]@);
    let h = crate::naming::strip_prefix_all_str(parts[0].as_str(), "www.");
    let labels = crate::text::split_at_char(h.as_str(), '.');
    proof {
        crate::text::lemma_split_char_len(h@, '.');
    }
    assert(labels.deep_view()[0] == labels@[0]@);
    owned(labels[0].as_str())
}

/// The players by episode from the players by list: entry `i` holds the
/// `i`-th player of every list that has one with a frame, in the order of the lists.
pub open spec fn transpose_spec(players: Seq<Seq<(Seq<char>, Seq<char>)>>, i: int) -> Seq<(Seq<char>, Seq<char>)>
    decreases players.len(),
{
    if players.len() == 0 {
        Seq::empty()
    } else {
        let rest = transpose_spec(players.drop_last(), i);
        let p = players.last();
        if 0 <= i < p.len() && p[i].1.len() > 0 {
            rest.push(p[i])
        } else {
            rest
        }
    }
}

/// The longest list.
pub open spec fn max_len(players: Seq<Seq<(Seq<char>, Seq<char>)>>) -> nat
    decreases players.len(),
{
    if players.len() == 0 {
        0
    } else {
        let m = max_len(players.drop_last());
        if players.last().len() > m {
            players.last().len()
        } else {
            m
        }
    }
}

pub open spec fn lists_view(players: Seq<Vec<AsSource>>) -> Seq<Seq<(Seq<char>, Seq<char>)>> {
    Seq::new(players.len(), |k: int| as_sources_view(players[k]@))
}

fn copy_source(s: &AsSource) -> (r: AsSource)
    ensures
        as_source_view(r) == as_source_view(*s),
{
    AsSource { host: owned(s.host.as_str()), iframe: owned(s.iframe.as_str()) }
}

/// The players of episode `i`, as `transpose_spec` gathers them.
fn players_of_episode(players: &Vec<Vec<AsSource>>, i: usize) -> (r: Vec<AsSource>)
    ensures
        as_sources_view(r@) == transpose_spec(lists_view(players@), i as int),
{
    let ghost lv = lists_view(players@);
    let mut out: Vec<AsSource> = Vec::new();
    let mut k: usize = 0;
    assert(lv.take(0) =~= Seq::<Seq<(Seq<char>, Seq<char>)>>::empty());
    while k < players.len()
        invariant
            k <= players@.len(),
            lv == lists_view(players@),
            as_sources_view(out@) == transpose_spec(lv.take(k as int), i as int),
        decreases players@.len() - k,
    {
        assert(lv.take(k + 1).drop_last() =~= lv.take(k as int));
        assert(lv.take(k + 1).last() == as_sources_view(players@[k as int]@));
        let p = &players[k];
        if i < p.len() && !p[i].iframe.as_str().is_empty() {
            let s = copy_source(&p[i]);
            let ghost before = as_sources_view(out@);
            out.push(s);
            assert(as_sources_view(out@) =~= before.push(as_source_view(s)));
        }
        k = k + 1;
    }
    assert(lv.take(k as int) =~= lv);
    out
}

/// The players by episode, one entry per position up to the longest list.
pub fn transpose_players(players: &Vec<Vec<AsSource>>) -> (r: Vec<Vec<AsSource>>)
    ensures
        r@.len() == max_len(lists_view(players@)),
        forall|i: int| 0 <= i < r@.len() ==> as_sources_view((#[trigger] r@[i])@) == transpose_spec(lists_view(players@), i),
{
    let ghost lv = lists_view(players@);
    let mut count: usize = 0;
    let mut k: usize = 0;
    assert(lv.take(0) =~= Seq::<Seq<(Seq<char>, Seq<char>)>>::empty());
    while k < players.len()
        invariant
            k <= players@.len(),
            lv == lists_view(players@),
            count == max_len(lv.take(k as int)),
        decreases players@.len() - k,
    {
        assert(lv.take(k + 1).drop_last() =~= lv.take(k as int));
        assert(lv.take(k + 1).last() == as_sources_view(players@[k as int]@));
        if players[k].len() > count {
            count = players[k].len();
        }
        k = k + 1;
    }
    assert(lv.take(k as int) =~= lv);
    let mut out: Vec<Vec<AsSource>> = Vec::new();
    let mut i: usize = 0;
    while i < count
        invariant
            i <= count,
            lv == lists_view(players@),
            count == max_len(lv),
            out@.len() == i,
            forall|j: int| 0 <= j < i ==> as_sources_view((#[trigger] out@[j])@) == transpose_spec(lv, j),
        decreases count - i,
    {
        out.push(players_of_episode(players, i));
        i = i + 1;
    }
    out
}

/// Where the list opened at `i` closes (the position of its `]`), reading
/// with `depth` brackets open, inside a quoted string (and by which quote)
/// or not, and after a backslash or not.
pub open spec fn bracket_close(s: Seq<char>, i: int, depth: int, quote: Option<char>, esc: bool) -> Option<int>
    decreases s.len() - i,
{
    if i < 0 || i >= s.len() {
        None
    } else if esc {
        bracket_close(s, i + 1, depth, quote, false)
    } else if s[i] == '\\' {
        bracket_close(s, i + 1, depth, quote, true)
    } else if quote is Some {
        if Some(s[i]) == quote {
            bracket_close(s, i + 1, depth, None, false)
        } else {
            bracket_close(s, i + 1, depth, quote, false)
        }
    } else if s[i] == '\'' || s[i] == '"' {
        bracket_close(s, i + 1, depth, Some(s[i]), false)
    } else if s[i] == '[' {
        bracket_close(s, i + 1, depth + 1, None, false)
    } else if s[i] == ']' {
        if depth - 1 == 0 {
            Some(i)
        } else {
            bracket_close(s, i + 1, depth - 1, None, false)
        }
    } else {
        bracket_close(s, i + 1, depth, None, false)
    }
}

proof fn lemma_bracket_close_bounds(s: Seq<char>, i: int, depth: int, quote: Option<char>, esc: bool)
    ensures
        bracket_close(s, i, depth, quote, esc) matches Some(e) ==> i <= e < s.len(),
    decreases s.len() - i,
{
    if 0 <= i < s.len() {
        lemma_bracket_close_bounds(s, i + 1, depth, quote, false);
        lemma_bracket_close_bounds(s, i + 1, depth, quote, true);
        lemma_bracket_close_bounds(s, i + 1, depth, None, false);
        lemma_bracket_close_bounds(s, i + 1, depth, Some(s[i]), false);
        lemma_bracket_close_bounds(s, i + 1, depth + 1, None, false);
        lemma_bracket_close_bounds(s, i + 1, depth - 1, None, false);
    }
}

proof fn lemma_bracket_close_after(s: Seq<char>, i: int)
    requires
        0 <= i,
    ensures
        bracket_close(s, i, 0, None, false) matches Some(e) ==> i < e,
{
    if i < s.len() {
        lemma_bracket_close_bounds(s, i + 1, 0, None, false);
        lemma_bracket_close_bounds(s, i + 1, 0, None, true);
        lemma_bracket_close_bounds(s, i + 1, 0, Some(s[i]), false);
        lemma_bracket_close_bounds(s, i + 1, 1, None, false);
        lemma_bracket_close_bounds(s, i + 1, -1, None, false);
    }
}

/// Where the list opened at `open` closes, as `bracket_close` finds it.
pub fn match_bracket(s: &Vec<char>, open: usize) -> (r: Option<usize>)
    ensures
        r matches Some(e) ==> bracket_close(s@, open as int, 0, None, false) == Some(e as int) && open < e < s@.len(),
        r is None ==> bracket_close(s@, open as int, 0, None, false) is None,
{
    let n = s.len();
    if open >= n {
        return None;
    }
    let mut i = open;
    let mut depth: i128 = 0;
    let mut quote: Option<char> = None;
    let mut esc = false;
    while i < s.len()
        invariant
            open <= i <= s@.len(),
            -((i - open) as int) <= depth <= (i - open) as int,
            s@.len() <= usize::MAX,
            bracket_close(s@, open as int, 0, None, false) == bracket_close(s@, i as int, depth as int, quote, esc),
        decreases s@.len() - i,
    {
        let c = s[i];
        if esc {
            esc = false;
        } else if c == '\\' {
            esc = true;
        } else if quote.is_some() {
            if quote == Some(c) {
                quote = None;
            }
        } else if c == '\'' || c == '"' {
            quote = Some(c);
        } else if c == '[' {
            depth = depth + 1;
        } else if c == ']' {
            depth = depth - 1;
            if depth == 0 {
                proof {
                    lemma_bracket_close_bounds(s@, open as int, 0, None, false);
                    lemma_bracket_close_after(s@, open as int);
                }
                return Some(i);
            }
        }
        i = i + 1;
    }
    proof {
        lemma_bracket_close_bounds(s@, open as int, 0, None, false);
    }
    None
}


// ---------------------------------------------------------------------------
// Sections of a series page
// ---------------------------------------------------------------------------

/// A season path offered on a series page and its language (`vostfr` or `vf`).
pub struct Section {
    pub base: String,
    pub lang: String,
}

/// The sections a series page offers.
pub const SECTIONS_RE: &'static str = r#"(?is)panneauAnime\(\s*"[^"]*"\s*,\s*"([^"]+)"\s*\)"#;

/// The section a path names: the path without surrounding slashes split at
/// `/`, the last part being its language (`vostfr`, or `vf` or `va` read as
/// `vf`) and the others, joined again, its season; nothing for a path that
/// is empty, holds `nom`, has one part, or another language.
pub open spec fn section_of_path(path: Seq<char>) -> Option<(Seq<char>, Seq<char>)> {
    if contains(path, "nom"@) || path.len() == 0 {
        None
    } else {
        let parts = split_char(trim_char(path, '/'), '/');
        if parts.len() < 2 {
            None
        } else {
            let lang = lowercase(parts.last());
            if lang != "vostfr"@ && lang != "vf"@ && lang != "va"@ {
                None
            } else {
                Some((
                    crate::text::join(parts.drop_last(), "/"@),
                    if lang == "vf"@ || lang == "va"@ {
                        "vf"@
                    } else {
                        "vostfr"@
                    },
                ))
            }
        }
    }
}

/// The sections the matches of a page name, in order.
pub open spec fn sections_spec(caps: Seq<Seq<Option<Seq<char>>>>) -> Seq<(Seq<char>, Seq<char>)>
    decreases caps.len(),
{
    if caps.len() == 0 {
        Seq::empty()
    } else {
        let rest = sections_spec(caps.drop_last());
        match group_of(caps, caps.len() - 1, 1) {
            Some(p) => match section_of_path(trim(p)) {
                Some(sec) => rest.push(sec),
                None => rest,
            },
            None => rest,
        }
    }
}

pub open spec fn section_view(s: Section) -> (Seq<char>, Seq<char>) {
    (s.base@, s.lang@)
}

pub open spec fn sections_view(s: Seq<Section>) -> Seq<(Seq<char>, Seq<char>)> {
    Seq::new(s.len(), |i: int| section_view(s[i]))
}

fn section_from_path(path: &str) -> (r: Option<Section>)
    ensures
        match r {
            Some(s) => section_of_path(path@) == Some(section_view(s)),
            None => section_of_path(path@) is None,
        },
{
    if str_contains(path, "nom") || path.is_empty() {
        return None;
    }
    let inner = trim_char_str(path, '/');
    let parts = crate::text::split_at_char(inner.as_str(), '/');
    if parts.len() < 2 {
        return None;
    }
    let n = parts.len();
    assert(parts.deep_view()[n - 1] == parts@[n - 1]@);
    let lang = to_lowercase(parts[n - 1].as_str());
    let l = lang.as_str();
    if !str_eq(l, "vostfr") && !str_eq(l, "vf") && !str_eq(l, "va") {
        return None;
    }
    let mut front: Vec<String> = Vec::new();
    let mut k: usize = 0;
    while k + 1 < n
        invariant
            n == parts@.len(),
            k + 1 <= n,
            front@.len() == k,
            front.deep_view() == parts.deep_view().take(k as int),
        decreases n - k,
    {
        let ghost before = front@;
        let piece = owned(parts[k].as_str());
        front.push(piece);
        proof {
            crate::text::lemma_deep_view_push(before, front@, piece);
        }
        assert(parts.deep_view()[k as int] == parts@[k as int]@);
        k = k + 1;
        assert(front.deep_view() =~= parts.deep_view().take(k as int));
    }
    assert(parts.deep_view().take(k as int) =~= parts.deep_view().drop_last());
    let base = crate::text::join_strings(&front, "/");
    let norm = if str_eq(l, "vf") || str_eq(l, "va") {
        owned("vf")
    } else {
        owned("vostfr")
    };
    Some(Section { base, lang: norm })
}

/// The sections a series page offers, as `sections_spec` reads them.
pub fn parse_sections(html: &str) -> (r: Vec<Section>)
    ensures
        sections_view(r@) == sections_spec(regex_captures(SECTIONS_RE@, html@)),
{
    let caps = captures_all(SECTIONS_RE, html);
    let ghost cv = caps.deep_view();
    let mut out: Vec<Section> = Vec::new();
    let mut k: usize = 0;
    assert(cv.take(0) =~= Seq::<Seq<Option<Seq<char>>>>::empty());
    while k < caps.len()
        invariant
            k <= caps@.len(),
            cv == caps.deep_view(),
            cv.len() == caps@.len(),
            sections_view(out@) == sections_spec(cv.take(k as int)),
        decreases caps@.len() - k,
    {
        let ghost t = cv.take(k + 1);
        assert(t.drop_last() =~= cv.take(k as int));
        assert(group_of(t, k as int, 1) == group_of(cv, k as int, 1));
        match crate::rx::get_group(&caps, k, 1) {
            Some(p) => {
                let tp = trim_str(p.as_str());
                match section_from_path(tp.as_str()) {
                    Some(sec) => {
                        let ghost before = sections_view(out@);
                        let ghost sv = section_view(sec);
                        out.push(sec);
                        assert(sections_view(out@) =~= before.push(sv));
                    },
                    None => {},
                }
            },
            None => {},
        }
        k = k + 1;
    }
    assert(cv.take(k as int) =~= cv);
    out
}

/// The seasons a page offers, each once, in the order of their paths.
pub fn section_bases(sections: &Vec<Section>) -> (r: Vec<String>)
    ensures
        crate::text::strictly_sorted(r.deep_view()),
        forall|b: Seq<char>| #[trigger] r.deep_view().contains(b) <==> exists|i: int|
            0 <= i < sections@.len() && (#[trigger] sections@[i]).base@ == b,
{
    let mut out: Vec<String> = Vec::new();
    let mut i: usize = 0;
    while i < sections.len()
        invariant
            i <= sections@.len(),
            crate::text::strictly_sorted(out.deep_view()),
            forall|b: Seq<char>| #[trigger] out.deep_view().contains(b) <==> exists|j: int|
                0 <= j < i && (#[trigger] sections@[j]).base@ == b,
        decreases sections@.len() - i,
    {
        crate::text::insert_sorted_unique(&mut out, sections[i].base.as_str());
        i = i + 1;
    }
    out
}

/// The season `base` is offered in a language.
pub fn offers_lang(sections: &Vec<Section>, base: &str, lang: &str) -> (b: bool)
    ensures
        b == exists|i: int| 0 <= i < sections@.len() && (#[trigger] sections@[i]).base@ == base@
            && sections@[i].lang@ == lang@,
{
    let mut i: usize = 0;
    while i < sections.len()
        invariant
            i <= sections@.len(),
            forall|j: int| 0 <= j < i ==> !((#[trigger] sections@[j]).base@ == base@ && sections@[j].lang@ == lang@),
        decreases sections@.len() - i,
    {
        if str_eq(sections[i].base.as_str(), base) && str_eq(sections[i].lang.as_str(), lang) {
            return true;
        }
        i = i + 1;
    }
    false
}

// ---------------------------------------------------------------------------
// The players script of a season
// ---------------------------------------------------------------------------

/// The start of a list of players in the script.
pub const DECL_RE: &'static str = r"(?i)var\s+eps\w+\s*=\s*\[";
/// A quoted absolute address.
pub const URL_RE: &'static str = r#"["'](https?://[^"']+)["']"#;

/// Where match `k` ends, counting the pieces between the matches and the
/// matches before it.
pub open spec fn match_end(ms: Seq<Seq<Option<Seq<char>>>>, pieces: Seq<Seq<char>>, k: int) -> int
    decreases k + 1,
{
    if k < 0 {
        0
    } else {
        match_end(ms, pieces, k - 1) + (if k < pieces.len() {
            pieces[k].len() as int
        } else {
            0
        }) + or_empty_g(group_of(ms, k, 0)).len()
    }
}

/// The text of `o`, or nothing.
pub open spec fn or_empty_g(o: Option<Seq<char>>) -> Seq<char> {
    match o {
        Some(s) => s,
        None => Seq::empty(),
    }
}

/// The addresses quoted in a list.
pub open spec fn quoted_urls(caps: Seq<Seq<Option<Seq<char>>>>) -> Seq<Seq<char>>
    decreases caps.len(),
{
    if caps.len() == 0 {
        Seq::empty()
    } else {
        let rest = quoted_urls(caps.drop_last());
        match group_of(caps, caps.len() - 1, 1) {
            Some(u) => rest.push(u),
            None => rest,
        }
    }
}

/// The list of players that the declaration `k` of the script opens, when
/// its brackets close and it quotes at least one address: each address with its host.
pub open spec fn js_list(js: Seq<char>, ms: Seq<Seq<Option<Seq<char>>>>, pieces: Seq<Seq<char>>, k: int) -> Option<Seq<(Seq<char>, Seq<char>)>> {
    let end = match_end(ms, pieces, k);
    if end < 1 || end - 1 >= js.len() {
        None
    } else {
        let open = end - 1;
        match bracket_close(js, open, 0, None, false) {
            Some(close) => {
                let urls = quoted_urls(regex_captures(URL_RE@, js.subrange(open + 1, close)));
                if urls.len() == 0 {
                    None
                } else {
                    Some(Seq::new(urls.len(), |i: int| (host_of_spec(urls[i]), urls[i])))
                }
            },
            None => None,
        }
    }
}

/// The lists of players of the script, in order.
pub open spec fn js_lists(js: Seq<char>, ms: Seq<Seq<Option<Seq<char>>>>, pieces: Seq<Seq<char>>, n: int) -> Seq<Seq<(Seq<char>, Seq<char>)>>
    decreases n,
{
    if n <= 0 {
        Seq::empty()
    } else {
        let rest = js_lists(js, ms, pieces, n - 1);
        match js_list(js, ms, pieces, n - 1) {
            Some(l) => rest.push(l),
            None => rest,
        }
    }
}

fn urls_of(caps: &Vec<Vec<Option<String>>>) -> (r: Vec<String>)
    ensures
        r.deep_view() == quoted_urls(caps.deep_view()),
{
    let ghost cv = caps.deep_view();
    let mut out: Vec<String> = Vec::new();
    let mut k: usize = 0;
    assert(cv.take(0) =~= Seq::<Seq<Option<Seq<char>>>>::empty());
    while k < caps.len()
        invariant
            k <= caps@.len(),
            cv == caps.deep_view(),
            cv.len() == caps@.len(),
            out.deep_view() == quoted_urls(cv.take(k as int)),
        decreases caps@.len() - k,
    {
        let ghost t = cv.take(k + 1);
        assert(t.drop_last() =~= cv.take(k as int));
        assert(group_of(t, k as int, 1) == group_of(cv, k as int, 1));
        match crate::rx::get_group(caps, k, 1) {
            Some(u) => {
                let ghost before = out@;
                out.push(u);
                proof {
                    crate::text::lemma_deep_view_push(before, out@, u);
                }
            },
            None => {},
        }
        k = k + 1;
    }
    assert(cv.take(k as int) =~= cv);
    out
}

/// The lists of players of a season's script, from the matches of the
/// declarations and the pieces between them, as `js_lists` reads them.
pub fn players_from_js(js: &str, ms: &Vec<Vec<Option<String>>>, pieces: &Vec<String>) -> (r: Vec<Vec<AsSource>>)
    ensures
        lists_view(r@) == js_lists(js@, ms.deep_view(), pieces.deep_view(), ms.deep_view().len() as int),
{
    let v = chars_of(js);
    let ghost mv = ms.deep_view();
    let ghost pv = pieces.deep_view();
    let mut out: Vec<Vec<AsSource>> = Vec::new();
    let mut end: u128 = 0;
    let mut k: usize = 0;
    assert(lists_view(out@) =~= Seq::<Seq<(Seq<char>, Seq<char>)>>::empty());
    while k < ms.len()
        invariant
            k <= ms@.len(),
            v@ == js@,
            mv == ms.deep_view(),
            pv == pieces.deep_view(),
            mv.len() == ms@.len(),
            pv.len() == pieces@.len(),
            end == (if match_end(mv, pv, k - 1) < 0x10_0000_0000_0000_0000_0000_0000 {
                match_end(mv, pv, k - 1)
            } else {
                0x10_0000_0000_0000_0000_0000_0000
            }),
            match_end(mv, pv, k - 1) >= 0,
            lists_view(out@) == js_lists(js@, mv, pv, k as int),
        decreases ms@.len() - k,
    {
        let plen: usize = if k < pieces.len() {
            assert(pv[k as int] == pieces@[k as int]@);
            let pc = chars_of(pieces[k].as_str());
            pc.len()
        } else {
            0
        };
        let m = match crate::rx::get_group(ms, k, 0) {
            Some(m) => m,
            None => String::new(),
        };
        let mc = chars_of(m.as_str());
        let mlen: usize = mc.len();
        let next: u128 = end + plen as u128 + mlen as u128;
        end = if next < 0x10_0000_0000_0000_0000_0000_0000 {
            next
        } else {
            0x10_0000_0000_0000_0000_0000_0000
        };
        assert(match_end(mv, pv, k as int) == match_end(mv, pv, k - 1) + plen + mlen);
        if end >= 1 && end - 1 < v.len() as u128 {
            assert(end == match_end(mv, pv, k as int));
            let open = (end - 1) as usize;
            match match_bracket(&v, open) {
                Some(close) => {
                    let body = string_from_range(&v, open + 1, close);
                    let caps = captures_all(URL_RE, body.as_str());
                    let urls = urls_of(&caps);
                    if urls.len() > 0 {
                        let mut list: Vec<AsSource> = Vec::new();
                        let mut j: usize = 0;
                        let ghost uv = urls.deep_view();
                        while j < urls.len()
                            invariant
                                j <= urls@.len(),
                                uv == urls.deep_view(),
                                as_sources_view(list@) == Seq::new(j as nat, |i: int| (host_of_spec(uv[i]), uv[i])),
                            decreases urls@.len() - j,
                        {
                            assert(uv[j as int] == urls@[j as int]@);
                            let s = AsSource { host: host_of(urls[j].as_str()), iframe: owned(urls[j].as_str()) };
                            let ghost before = as_sources_view(list@);
                            assert(as_source_view(s) == (host_of_spec(uv[j as int]), uv[j as int]));
                            list.push(s);
                            assert(as_sources_view(list@) =~= before.push(as_source_view(s)));
                            j = j + 1;
                            assert(as_sources_view(list@) =~= Seq::new(j as nat, |i: int| (host_of_spec(uv[i]), uv[i])));
                        }
                        let ghost before = lists_view(out@);
                        let ghost lv = as_sources_view(list@);
                        out.push(list);
                        assert(lists_view(out@) =~= before.push(lv));
                    }
                },
                None => {},
            }
        }
        k = k + 1;
    }
    out
}

/// The lists of players of a season's script.
pub fn parse_episodes_js(js: &str) -> (r: Vec<Vec<AsSource>>)
    ensures
        lists_view(r@) == js_lists(
            js@,
            regex_captures(DECL_RE@, js@),
            crate::rx::regex_split(DECL_RE@, js@),
            regex_captures(DECL_RE@, js@).len() as int,
        ),
{
    let ms = captures_all(DECL_RE, js);
    let pieces = crate::rx::split_all(DECL_RE, js);
    players_from_js(js, &ms, &pieces)
}


// ---------------------------------------------------------------------------
// A series page
// ---------------------------------------------------------------------------

/// The title of a series page: its `og:title`, else its `<title>`, without
/// what follows `|`; else the slug.
pub open spec fn detail_title_spec(html: Seq<char>, slug: Seq<char>) -> Seq<char> {
    match meta_content_spec(html, "og:title"@) {
        Some(t) => clean_title_spec(t),
        None => match first_group(regex_captures(TITLE_TAG_RE@, html), 1) {
            Some(t) => clean_title_spec(t),
            None => slug,
        },
    }
}

/// The genres of a series page that are not its title (in lower case).
pub open spec fn detail_genres_spec(genres: Seq<Seq<char>>, title: Seq<char>) -> Seq<Seq<char>>
    decreases genres.len(),
{
    if genres.len() == 0 {
        Seq::empty()
    } else {
        let rest = detail_genres_spec(genres.drop_last(), title);
        if lowercase(genres.last()) != lowercase(title) {
            rest.push(genres.last())
        } else {
            rest
        }
    }
}

/// What a series page says of the series besides its seasons: title,
/// summary, picture and genres.
pub struct DetailHeader {
    pub title: String,
    pub description: String,
    pub image: Option<String>,
    pub genres: Vec<String>,
}

/// What a series page says of the series besides its seasons.
pub fn detail_header(html: &str, slug: &str) -> (r: DetailHeader)
    ensures
        r.title@ == detail_title_spec(html@, slug@),
        r.description@ == match meta_content_spec(html@, "og:description"@) {
            Some(d) => d,
            None => Seq::empty(),
        },
        r.image.deep_view() == meta_content_spec(html@, "og:image"@),
        r.genres.deep_view() == detail_genres_spec(parse_genres_spec(html@), detail_title_spec(html@, slug@)),
{
    let title = match meta_content(html, "og:title") {
        Some(t) => clean_title(t.as_str()),
        None => match extract_title_tag(html) {
            Some(t) => clean_title(t.as_str()),
            None => owned(slug),
        },
    };
    let description = match meta_content(html, "og:description") {
        Some(d) => d,
        None => String::new(),
    };
    let image = meta_content(html, "og:image");
    let all = parse_genres(html);
    let tl = to_lowercase(title.as_str());
    let ghost gv = all.deep_view();
    let mut genres: Vec<String> = Vec::new();
    let mut i: usize = 0;
    assert(gv.take(0) =~= Seq::<Seq<char>>::empty());
    while i < all.len()
        invariant
            i <= all@.len(),
            gv == all.deep_view(),
            tl@ == lowercase(title@),
            genres.deep_view() == detail_genres_spec(gv.take(i as int), title@),
        decreases all@.len() - i,
    {
        assert(gv.take(i + 1).drop_last() =~= gv.take(i as int));
        assert(gv.take(i + 1).last() == all@[i as int]@);
        let gl = to_lowercase(all[i].as_str());
        if !str_eq(gl.as_str(), tl.as_str()) {
            let g = owned(all[i].as_str());
            let ghost before = genres@;
            genres.push(g);
            proof {
                crate::text::lemma_deep_view_push(before, genres@, g);
            }
        }
        i = i + 1;
    }
    assert(gv.take(i as int) =~= gv);
    DetailHeader { title, description, image, genres }
}

/// The view of an episode: its number, title and players in each language.
pub open spec fn as_episode_view(e: AsEpisode) -> (u64, Seq<char>, Seq<(Seq<char>, Seq<char>)>, Seq<(Seq<char>, Seq<char>)>) {
    (e.number, e.title@, as_sources_view(e.vo@), as_sources_view(e.vf@))
}

/// The players of an episode in one language: those at its position, or none.
pub open spec fn players_at(eps: Seq<Seq<(Seq<char>, Seq<char>)>>, i: int) -> Seq<(Seq<char>, Seq<char>)> {
    if 0 <= i < eps.len() {
        eps[i]
    } else {
        Seq::empty()
    }
}

fn copy_sources(v: &Vec<AsSource>) -> (r: Vec<AsSource>)
    ensures
        as_sources_view(r@) == as_sources_view(v@),
{
    let mut out: Vec<AsSource> = Vec::new();
    let mut i: usize = 0;
    while i < v.len()
        invariant
            i <= v@.len(),
            out@.len() == i,
            as_sources_view(out@) == as_sources_view(v@).take(i as int),
        decreases v@.len() - i,
    {
        let s = copy_source(&v[i]);
        let ghost before = as_sources_view(out@);
        out.push(s);
        assert(as_sources_view(out@) =~= before.push(as_source_view(s)));
        i = i + 1;
        assert(as_sources_view(out@) =~= as_sources_view(v@).take(i as int));
    }
    assert(as_sources_view(v@).take(i as int) =~= as_sources_view(v@));
    out
}

/// A season from its path and the players lists of its two languages: one
/// episode per position up to the longest language, numbered from one, with
/// the players at that position; nothing when neither language has one.
pub fn season_from_lists(base: &str, vo_lists: &Vec<Vec<AsSource>>, vf_lists: &Vec<Vec<AsSource>>) -> (r: Option<AsSeason>)
    ensures
        ({
            let vo = lists_view(vo_lists@);
            let vf = lists_view(vf_lists@);
            let count = if max_len(vo) > max_len(vf) {
                max_len(vo)
            } else {
                max_len(vf)
            };
            &&& count == 0 <==> r is None
            &&& r matches Some(s) ==> {
                &&& s.title@ == pretty_section_spec(base@)
                &&& s.episodes@.len() == count
                &&& forall|i: int| 0 <= i < count ==> as_episode_view(#[trigger] s.episodes@[i]) == (
                    (i + 1) as u64,
                    "Épisode "@ + crate::num::decimal((i + 1) as nat),
                    players_at(Seq::new(max_len(vo), |j: int| transpose_spec(vo, j)), i),
                    players_at(Seq::new(max_len(vf), |j: int| transpose_spec(vf, j)), i),
                )
            }
        }),
{
    let vo_eps = transpose_players(vo_lists);
    let vf_eps = transpose_players(vf_lists);
    let count = if vo_eps.len() > vf_eps.len() {
        vo_eps.len()
    } else {
        vf_eps.len()
    };
    if count == 0 {
        return None;
    }
    let ghost vo_t = Seq::new(max_len(lists_view(vo_lists@)), |j: int| transpose_spec(lists_view(vo_lists@), j));
    let ghost vf_t = Seq::new(max_len(lists_view(vf_lists@)), |j: int| transpose_spec(lists_view(vf_lists@), j));
    let mut episodes: Vec<AsEpisode> = Vec::new();
    let mut i: usize = 0;
    while i < count
        invariant
            i <= count,
            count == vo_eps@.len() || count == vf_eps@.len(),
            count >= vo_eps@.len(),
            count >= vf_eps@.len(),
            vo_t.len() == vo_eps@.len(),
            vf_t.len() == vf_eps@.len(),
            forall|j: int| 0 <= j < vo_eps@.len() ==> as_sources_view((#[trigger] vo_eps@[j])@) == vo_t[j],
            forall|j: int| 0 <= j < vf_eps@.len() ==> as_sources_view((#[trigger] vf_eps@[j])@) == vf_t[j],
            episodes@.len() == i,
            forall|j: int| 0 <= j < i ==> as_episode_view(#[trigger] episodes@[j]) == (
                (j + 1) as u64,
                "Épisode "@ + crate::num::decimal((j + 1) as nat),
                players_at(vo_t, j),
                players_at(vf_t, j),
            ),
        decreases count - i,
    {
        let mut title = owned("Épisode ");
        crate::num::push_decimal(&mut title, (i + 1) as u64);
        let vo = if i < vo_eps.len() {
            copy_sources(&vo_eps[i])
        } else {
            let e: Vec<AsSource> = Vec::new();
            assert(as_sources_view(e@) =~= Seq::<(Seq<char>, Seq<char>)>::empty());
            e
        };
        let vf = if i < vf_eps.len() {
            copy_sources(&vf_eps[i])
        } else {
            let e: Vec<AsSource> = Vec::new();
            assert(as_sources_view(e@) =~= Seq::<(Seq<char>, Seq<char>)>::empty());
            e
        };
        episodes.push(AsEpisode { number: (i + 1) as u64, title, vo, vf });
        i = i + 1;
    }
    Some(AsSeason { title: pretty_section_name(base), episodes })
}

/// What is kept of a series: with no season offered, its header alone; with
/// seasons offered but none with players, an error; otherwise its seasons.
pub fn finish_detail(bases_empty: bool, seasons: Vec<AsSeason>, header: DetailHeader) -> (r: Result<AsCachedEpisodes, AsError>)
    ensures
        bases_empty ==> (r matches Ok(c) && c.seasons@.len() == 0 && c.title == header.title
            && c.description == header.description && c.image == header.image && c.genres == header.genres),
        !bases_empty && seasons@.len() == 0 ==> (r matches Err(AsError::NoData)),
        !bases_empty && seasons@.len() > 0 ==> (r matches Ok(c) && c.seasons == seasons && c.title == header.title
            && c.description == header.description && c.image == header.image && c.genres == header.genres),
{
    if bases_empty {
        return Ok(AsCachedEpisodes {
            seasons: Vec::new(),
            description: header.description,
            genres: header.genres,
            image: header.image,
            title: header.title,
        });
    }
    if seasons.len() == 0 {
        return Err(AsError::NoData);
    }
    Ok(AsCachedEpisodes {
        seasons,
        description: header.description,
        genres: header.genres,
        image: header.image,
        title: header.title,
    })
}

// ---------------------------------------------------------------------------
// The sitemap
// ---------------------------------------------------------------------------

/// An address of the sitemap and its date.
pub const SITEMAP_RE: &'static str = r"(?is)<loc>\s*(.*?)\s*</loc>\s*<lastmod>\s*(.*?)\s*</lastmod>";

/// The series of the sitemap with the dates of their pages: each address
/// (trimmed) that is the page of a series, with its date (trimmed).
pub open spec fn sitemap_spec(caps: Seq<Seq<Option<Seq<char>>>>) -> Seq<(Seq<char>, Seq<char>)>
    decreases caps.len(),
{
    if caps.len() == 0 {
        Seq::empty()
    } else {
        let rest = sitemap_spec(caps.drop_last());
        let k = caps.len() - 1;
        let loc = trim(or_empty_g(group_of(caps, k, 1)));
        let lastmod = trim(or_empty_g(group_of(caps, k, 2)));
        match slug_from_catalogue_spec(loc) {
            Some(slug) => rest.push((slug, lastmod)),
            None => rest,
        }
    }
}

pub open spec fn pairs_view(v: Seq<(String, String)>) -> Seq<(Seq<char>, Seq<char>)> {
    Seq::new(v.len(), |i: int| (v[i].0@, v[i].1@))
}

/// The series of a sitemap with their dates, as `sitemap_spec` reads them.
pub fn parse_sitemap(xml: &str) -> (r: Vec<(String, String)>)
    ensures
        pairs_view(r@) == sitemap_spec(regex_captures(SITEMAP_RE@, xml@)),
{
    let caps = captures_all(SITEMAP_RE, xml);
    let ghost cv = caps.deep_view();
    let mut out: Vec<(String, String)> = Vec::new();
    let mut k: usize = 0;
    assert(cv.take(0) =~= Seq::<Seq<Option<Seq<char>>>>::empty());
    while k < caps.len()
        invariant
            k <= caps@.len(),
            cv == caps.deep_view(),
            cv.len() == caps@.len(),
            pairs_view(out@) == sitemap_spec(cv.take(k as int)),
        decreases caps@.len() - k,
    {
        let ghost t = cv.take(k + 1);
        assert(t.drop_last() =~= cv.take(k as int));
        assert(group_of(t, k as int, 1) == group_of(cv, k as int, 1));
        assert(group_of(t, k as int, 2) == group_of(cv, k as int, 2));
        let loc = match crate::rx::get_group(&caps, k, 1) {
            Some(l) => trim_str(l.as_str()),
            None => owned(""),
        };
        let lastmod = match crate::rx::get_group(&caps, k, 2) {
            Some(l) => trim_str(l.as_str()),
            None => owned(""),
        };
        proof {
            reveal_strlit("");
            assert(trim(Seq::<char>::empty()) =~= Seq::<char>::empty());
        }
        assert(loc@ == trim(or_empty_g(group_of(cv, k as int, 1))));
        assert(lastmod@ == trim(or_empty_g(group_of(cv, k as int, 2))));
        match slug_from_catalogue_url(loc.as_str()) {
            Some(slug) => {
                let ghost before = pairs_view(out@);
                let ghost pv = (slug@, lastmod@);
                out.push((slug, lastmod));
                assert(pairs_view(out@) =~= before.push(pv));
            },
            None => {},
        }
        k = k + 1;
    }
    assert(cv.take(k as int) =~= cv);
    out
}

} // verus!
