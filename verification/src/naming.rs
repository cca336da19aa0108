//! Names derived from titles and URLs: file and directory names, host labels,
//! and short human-readable renderings of durations and clock times.
use vstd::prelude::*;
use crate::num::{decimal, decimal_padded, push_decimal, push_decimal_padded};
use crate::text::{
    chars_of, char_is_control, is_control, is_whitespace, owned, push_char, push_range, push_str,
    string_from_range, trim, trim_bounds, lowercase, to_lowercase, index_of_from, find_char_from,
    rfind_char, last_index_before,
};

verus! {

// ---------------------------------------------------------------------------
// Path segments and file names
// ---------------------------------------------------------------------------

/// Characters that may not appear in a path segment and become `_`.
pub open spec fn is_forbidden_in_path(c: char) -> bool {
    c == '/' || c == '\\' || c == ':' || c == '*' || c == '?' || c == '"' || c == '<' || c
        == '>' || c == '|' || c == '\0' || is_control(c)
}

/// Every forbidden character replaced by `_`.
pub open spec fn replace_forbidden(s: Seq<char>) -> Seq<char> {
    Seq::new(s.len(), |i: int| if is_forbidden_in_path(s[i]) { '_' } else { s[i] })
}

/// `s` without leading and trailing dots.
pub open spec fn trim_dots(s: Seq<char>) -> Seq<char>
    decreases s.len(),
{
    if s.len() > 0 && s[0] == '.' {
        trim_dots(s.drop_first())
    } else if s.len() > 0 && s.last() == '.' {
        trim_dots(s.drop_last())
    } else {
        s
    }
}

/// A title made safe as one path segment: forbidden characters replaced by
/// `_`, surrounding white space and dots removed, and `_` when nothing is left.
pub open spec fn sanitize_spec(s: Seq<char>) -> Seq<char> {
    let t = trim_dots(trim(replace_forbidden(s)));
    if t.len() == 0 {
        seq!['_']
    } else {
        t
    }
}

/// The bounds of `s[lo..hi]` without leading and trailing dots.
fn trim_dots_bounds(s: &Vec<char>, lo: usize, hi: usize) -> (r: (usize, usize))
    requires
        lo <= hi <= s@.len(),
    ensures
        lo <= r.0 <= r.1 <= hi,
        s@.subrange(r.0 as int, r.1 as int) == trim_dots(s@.subrange(lo as int, hi as int)),
{
    let mut a = lo;
    let mut b = hi;
    while a < b && (s[a] == '.' || s[b - 1] == '.')
        invariant
            lo <= a <= b <= hi <= s@.len(),
            trim_dots(s@.subrange(lo as int, hi as int)) == trim_dots(s@.subrange(a as int, b as int)),
        decreases b - a,
    {
        let ghost t = s@.subrange(a as int, b as int);
        if s[a] == '.' {
            assert(t.drop_first() =~= s@.subrange(a + 1, b as int));
            a = a + 1;
        } else {
            assert(t.drop_last() =~= s@.subrange(a as int, b - 1));
            b = b - 1;
        }
    }
    (a, b)
}

/// A title made safe as one path segment, as `sanitize_spec` describes it.
pub fn sanitize_path_segment(s: &str) -> (r: String)
    ensures
        r@ == sanitize_spec(s@),
{
    let v = chars_of(s);
    let mut cleaned: Vec<char> = Vec::new();
    let mut i: usize = 0;
    while i < v.len()
        invariant
            i <= v@.len(),
            cleaned@ == replace_forbidden(v@).take(i as int),
        decreases v.len() - i,
    {
        let c = v[i];
        let bad = c == '/' || c == '\\' || c == ':' || c == '*' || c == '?' || c == '"' || c
            == '<' || c == '>' || c == '|' || c == '\0' || char_is_control(c);
        cleaned.push(if bad {
            '_'
        } else {
            c
        });
        assert(cleaned@ =~= replace_forbidden(v@).take(i + 1));
        i = i + 1;
    }
    assert(replace_forbidden(v@).take(i as int) =~= replace_forbidden(v@));
    let (lo, hi) = trim_bounds(&cleaned, 0, cleaned.len());
    assert(cleaned@.subrange(0, cleaned@.len() as int) =~= cleaned@);
    let (a, b) = trim_dots_bounds(&cleaned, lo, hi);
    assert(cleaned@ == replace_forbidden(s@));
    if a == b {
        proof {
            reveal_strlit("_");
        }
        owned("_")
    } else {
        string_from_range(&cleaned, a, b)
    }
}

/// The full Unicode upper-case mapping of a string: the result of std `str::to_uppercase`.
pub uninterp spec fn uppercase(s: Seq<char>) -> Seq<char>;

/// Calls std `str::to_uppercase`; its result is named `uppercase`.
#[verifier::external_body]
pub(crate) fn to_uppercase(s: &str) -> (r: String)
    ensures
        r@ == uppercase(s@),
{
    s.to_uppercase()
}

/// The file name of an episode. The `plex` format gives
/// `{anime} - S{season:02}E{episode:02} - {episode name} [{LANG}].mp4` with
/// one-based numbers; any other format gives `{episode name}.mp4`; names are
/// sanitized.
pub open spec fn build_filename_spec(
    format: Seq<char>,
    anime_name: Seq<char>,
    season_idx: nat,
    ep_idx: nat,
    episode_name: Seq<char>,
    lang: Seq<char>,
) -> Seq<char> {
    if format == "plex"@ {
        sanitize_spec(anime_name) + " - S"@ + decimal_padded(season_idx + 1, 2) + "E"@
            + decimal_padded(ep_idx + 1, 2) + " - "@ + sanitize_spec(episode_name) + " ["@
            + uppercase(lang) + "].mp4"@
    } else {
        sanitize_spec(episode_name) + ".mp4"@
    }
}

/// The file name of an episode, as `build_filename_spec` describes it.
pub fn build_filename(
    format: &str,
    anime_name: &str,
    season_idx: usize,
    ep_idx: usize,
    episode_name: &str,
    lang: &str,
) -> (r: String)
    requires
        season_idx < usize::MAX,
        ep_idx < usize::MAX,
    ensures
        r@ == build_filename_spec(
            format@,
            anime_name@,
            season_idx as nat,
            ep_idx as nat,
            episode_name@,
            lang@,
        ),
{
    if crate::text::str_eq(format, "plex") {
        let mut out = sanitize_path_segment(anime_name);
        push_str(&mut out, " - S");
        push_decimal_padded(&mut out, (season_idx + 1) as u64, 2);
        push_str(&mut out, "E");
        push_decimal_padded(&mut out, (ep_idx + 1) as u64, 2);
        push_str(&mut out, " - ");
        let e = sanitize_path_segment(episode_name);
        push_str(&mut out, e.as_str());
        push_str(&mut out, " [");
        let l = to_uppercase(lang);
        push_str(&mut out, l.as_str());
        push_str(&mut out, "].mp4");
        out
    } else {
        let mut out = sanitize_path_segment(episode_name);
        push_str(&mut out, ".mp4");
        out
    }
}

// ---------------------------------------------------------------------------
// Hosts
// ---------------------------------------------------------------------------

/// `s` without every repetition of the prefix `p` at its start.
pub open spec fn strip_prefix_all(s: Seq<char>, p: Seq<char>) -> Seq<char>
    decreases s.len(),
{
    if p.len() > 0 && crate::text::starts_with(s, p) {
        strip_prefix_all(s.subrange(p.len() as int, s.len() as int), p)
    } else {
        s
    }
}

/// The part of `s` before its first `c` (all of it when there is none).
pub open spec fn before_char(s: Seq<char>, c: char) -> Seq<char> {
    match index_of_from(s, c, 0) {
        Some(i) => s.subrange(0, i),
        None => s,
    }
}

/// The domain of a URL: without `http://` and `https://` prefixes and without
/// its path.
pub open spec fn domain_of(url: Seq<char>) -> Seq<char> {
    before_char(strip_prefix_all(strip_prefix_all(url, "http://"@), "https://"@), '/')
}

/// The label of the host of a URL: the second-level label of its domain
/// (`video.sibnet.ru` gives `sibnet`), or the whole domain when it has no dot.
pub open spec fn host_from_url_spec(url: Seq<char>) -> Seq<char> {
    let d = domain_of(url);
    match last_index_before(d, '.', d.len() as int) {
        None => d,
        Some(j) => match last_index_before(d, '.', j) {
            Some(k) => d.subrange(k + 1, j),
            None => d.subrange(0, j),
        },
    }
}

/// Index just after the repeated prefix `p` at the start of `v[from..]`.
fn skip_prefix_all(v: &Vec<char>, from: usize, p: &str) -> (r: usize)
    requires
        from <= v@.len(),
    ensures
        from <= r <= v@.len(),
        v@.subrange(r as int, v@.len() as int) == strip_prefix_all(v@.subrange(from as int, v@.len() as int), p@),
{
    let pv = chars_of(p);
    let mut i = from;
    loop
        invariant
            from <= i <= v@.len(),
            pv@ == p@,
            strip_prefix_all(v@.subrange(from as int, v@.len() as int), p@) == strip_prefix_all(
                v@.subrange(i as int, v@.len() as int),
                p@,
            ),
        decreases v@.len() - i,
    {
        let ghost t = v@.subrange(i as int, v@.len() as int);
        if pv.len() == 0 || pv.len() > v.len() - i {
            return i;
        }
        if !crate::text::chars_match_at(v, &pv, i) {
            proof {
                if crate::text::starts_with(t, p@) {
                    assert(t.subrange(0, p@.len() as int) =~= v@.subrange(i as int, i + p@.len()));
                }
            }
            return i;
        }
        proof {
            assert(t.subrange(0, p@.len() as int) =~= v@.subrange(i as int, i + p@.len()));
            assert(t.subrange(p@.len() as int, t.len() as int) =~= v@.subrange(
                i + p@.len(),
                v@.len() as int,
            ));
        }
        i = i + pv.len();
    }
}

/// `s` without the copies of `p` it starts with (what `trim_start_matches(p)` gives).
pub fn strip_prefix_all_str(s: &str, p: &str) -> (r: String)
    ensures
        r@ == strip_prefix_all(s@, p@),
{
    let v = chars_of(s);
    assert(v@.subrange(0, v@.len() as int) =~= v@);
    let a = skip_prefix_all(&v, 0, p);
    crate::text::string_from_range(&v, a, v.len())
}

/// The bounds `[a, b)` of the domain of `url` in its characters `v`.
fn domain_bounds(v: &Vec<char>) -> (r: (usize, usize))
    ensures
        r.0 <= r.1 <= v@.len(),
        v@.subrange(r.0 as int, r.1 as int) == domain_of(v@),
{
    assert(v@.subrange(0, v@.len() as int) =~= v@);
    let a1 = skip_prefix_all(v, 0, "http://");
    let a = skip_prefix_all(v, a1, "https://");
    let ghost rest = v@.subrange(a as int, v@.len() as int);
    proof {
        crate::text::lemma_index_of_from(v@, '/', a as int);
        crate::text::lemma_index_of_from(rest, '/', 0);
    }
    match find_char_from(v, '/', a) {
        Some(j) => {
            proof {
                assert(index_of_from(rest, '/', 0) == Some(j - a)) by {
                    assert(rest[j - a] == v@[j as int]);
                    assert forall|k: int| 0 <= k < j - a implies rest[k] != '/' by {
                        assert(rest[k] == v@[a + k]);
                    }
                    if index_of_from(rest, '/', 0) is None {
                        assert(rest[j - a] != '/');
                    }
                }
                assert(rest.subrange(0, j - a) =~= v@.subrange(a as int, j as int));
            }
            (a, j)
        },
        None => {
            proof {
                assert(index_of_from(rest, '/', 0) is None) by {
                    if let Some(k) = index_of_from(rest, '/', 0) {
                        assert(v@[a + k] == rest[k]);
                    }
                }
            }
            (a, v.len())
        },
    }
}

/// The label of the host of a URL, as `host_from_url_spec` describes it.
pub fn host_from_url(url: &str) -> (r: String)
    ensures
        r@ == host_from_url_spec(url@),
{
    let v = chars_of(url);
    let (a, b) = domain_bounds(&v);
    let d = string_from_range(&v, a, b);
    let dv = chars_of(d.as_str());
    let n = dv.len();
    assert(dv@ == domain_of(url@));
    proof {
        crate::text::lemma_last_index_before(dv@, '.', n as int);
    }
    match rfind_char(&dv, '.', 0, n) {
        None => {
            assert(last_index_before(dv@, '.', n as int) is None);
            d
        },
        Some(j) => {
            proof {
                crate::text::lemma_last_index_before(dv@, '.', j as int);
            }
            match rfind_char(&dv, '.', 0, j) {
                Some(k) => string_from_range(&dv, k + 1, j),
                None => {
                    assert(last_index_before(dv@, '.', j as int) is None);
                    string_from_range(&dv, 0, j)
                },
            }
        },
    }
}

// ---------------------------------------------------------------------------
// Durations and clock times
// ---------------------------------------------------------------------------

/// A remaining time in words: `—` for zero, `{s}s` under a minute,
/// `{m}m{ss}` under an hour, `{h}h{mm}` beyond.
pub open spec fn format_eta_spec(seconds: nat) -> Seq<char> {
    if seconds == 0 {
        "—"@
    } else if seconds < 60 {
        decimal(seconds) + "s"@
    } else if seconds / 60 < 60 {
        decimal(seconds / 60) + "m"@ + decimal_padded(seconds % 60, 2)
    } else {
        decimal(seconds / 3600) + "h"@ + decimal_padded((seconds / 60) % 60, 2)
    }
}

/// A remaining time in words, as `format_eta_spec` describes it.
pub fn format_eta(seconds: u64) -> (r: String)
    ensures
        r@ == format_eta_spec(seconds as nat),
{
    if seconds == 0 {
        return owned("—");
    }
    if seconds < 60 {
        let mut out = String::new();
        push_decimal(&mut out, seconds);
        push_str(&mut out, "s");
        assert(out@ =~= decimal(seconds as nat) + "s"@);
        return out;
    }
    let m = seconds / 60;
    let s = seconds % 60;
    if m < 60 {
        let mut out = String::new();
        push_decimal(&mut out, m);
        push_str(&mut out, "m");
        push_decimal_padded(&mut out, s, 2);
        assert(out@ =~= decimal(m as nat) + "m"@ + decimal_padded(s as nat, 2));
        return out;
    }
    let h = m / 60;
    let mm = m % 60;
    assert(h == seconds / 3600) by (nonlinear_arith)
        requires
            m == seconds / 60,
            h == m / 60,
    ;
    let mut out = String::new();
    push_decimal(&mut out, h);
    push_str(&mut out, "h");
    push_decimal_padded(&mut out, mm, 2);
    assert(out@ =~= decimal(h as nat) + "h"@ + decimal_padded(mm as nat, 2));
    out
}

/// The time of day (UTC) of a moment given in seconds since the epoch, as `HH:MM:SS`.
pub open spec fn format_timestamp_spec(secs: nat) -> Seq<char> {
    decimal_padded((secs / 3600) % 24, 2) + ":"@ + decimal_padded((secs / 60) % 60, 2) + ":"@
        + decimal_padded(secs % 60, 2)
}

/// The time of day of a moment, as `format_timestamp_spec` describes it.
pub fn format_timestamp(secs: u64) -> (r: String)
    ensures
        r@ == format_timestamp_spec(secs as nat),
{
    let mut out = String::new();
    push_decimal_padded(&mut out, (secs / 3600) % 24, 2);
    push_str(&mut out, ":");
    push_decimal_padded(&mut out, (secs / 60) % 60, 2);
    push_str(&mut out, ":");
    push_decimal_padded(&mut out, secs % 60, 2);
    assert(out@ =~= format_timestamp_spec(secs as nat));
    out
}

// ---------------------------------------------------------------------------
// Shortening text
// ---------------------------------------------------------------------------

/// The most leading characters of `s`, at most `k`, whose UTF-8 encoding
/// fits in `max` bytes.
pub open spec fn fit_count(s: Seq<char>, max: nat, k: int) -> int
    decreases k,
{
    if k <= 0 || crate::text::byte_len(s.take(k)) <= max {
        k
    } else {
        fit_count(s, max, k - 1)
    }
}

/// Text cut to `max` bytes of UTF-8: unchanged when it fits, else the most
/// leading characters that fit followed by an ellipsis.
pub open spec fn truncate_spec(s: Seq<char>, max: nat) -> Seq<char> {
    if crate::text::byte_len(s) <= max {
        s
    } else {
        s.take(fit_count(s, max, s.len() as int)) + "…"@
    }
}

proof fn lemma_fit_count_bounds(s: Seq<char>, max: nat, k: int)
    requires
        0 <= k <= s.len(),
    ensures
        0 <= fit_count(s, max, k) <= k,
    decreases k,
{
    if k > 0 && crate::text::byte_len(s.take(k)) > max {
        lemma_fit_count_bounds(s, max, k - 1);
    }
}

/// Text cut to `max` bytes keeps a part that fits: when it is cut, the
/// characters kept before the ellipsis take at most `max` bytes, and they
/// begin the text.
pub proof fn lemma_truncate_fits(s: Seq<char>, max: nat)
    ensures
        crate::text::byte_len(s) > max ==> crate::text::byte_len(s.take(fit_count(s, max, s.len() as int))) <= max
            && fit_count(s, max, s.len() as int) < s.len(),
        crate::text::byte_len(s) <= max ==> truncate_spec(s, max) == s,
{
    lemma_fit_count_fits(s, max, s.len() as int);
    lemma_fit_count_bounds(s, max, s.len() as int);
    if crate::text::byte_len(s) > max {
        assert(s.take(s.len() as int) =~= s);
    }
}

proof fn lemma_fit_count_fits(s: Seq<char>, max: nat, k: int)
    requires
        0 <= k <= s.len(),
    ensures
        crate::text::byte_len(s.take(fit_count(s, max, k))) <= max,
    decreases k,
{
    if k > 0 && crate::text::byte_len(s.take(k)) > max {
        lemma_fit_count_fits(s, max, k - 1);
    } else if k <= 0 {
        assert(s.take(0) =~= Seq::<char>::empty());
        assert(vstd::utf8::encode_utf8(Seq::<char>::empty()) =~= Seq::<u8>::empty());
    }
}

/// The most leading characters of `s` whose UTF-8 encoding fits in `max` bytes.
pub(crate) fn byte_prefix(s: &str, max: usize) -> (r: String)
    ensures
        r@ == s@.take(fit_count(s@, max as nat, s@.len() as int)),
{
    let v = chars_of(s);
    let mut k: usize = v.len();
    proof {
        lemma_fit_count_bounds(s@, max as nat, k as int);
    }
    loop
        invariant
            k <= v@.len(),
            v@ == s@,
            fit_count(s@, max as nat, s@.len() as int) == fit_count(s@, max as nat, k as int),
        ensures
            k <= v@.len(),
            v@ == s@,
            fit_count(s@, max as nat, s@.len() as int) == k,
        decreases k,
    {
        if k == 0 {
            break;
        }
        let prefix = string_from_range(&v, 0, k);
        assert(v@.subrange(0, k as int) =~= s@.take(k as int));
        if prefix.as_str().len() <= max {
            break;
        }
        k = k - 1;
    }
    let r = string_from_range(&v, 0, k);
    assert(v@.subrange(0, k as int) =~= s@.take(k as int));
    r
}

/// Text cut to `max` bytes, as `truncate_spec` says.
pub fn truncate_str(s: &str, max: usize) -> (r: String)
    ensures
        r@ == truncate_spec(s@, max as nat),
{
    let v = chars_of(s);
    if crate::text::utf8_len(&v) <= max {
        return owned(s);
    }
    let mut r = byte_prefix(s, max);
    push_str(&mut r, "…");
    r
}

} // verus!
