//! Browsing the catalogue: the entries made of the other sites' series, the
//! search and the filters of the list, and the orders it can be sorted in.
use vstd::prelude::*;
use crate::catalog::{us_id_from, va_id_from, Root2, Titles};
use crate::matching::{lev, levenshtein};
use crate::num::{decimal, push_decimal, push_signed_decimal, signed_decimal};
use crate::settings::{SortMode, UserStatus};
use crate::text::{
    contains, ends_with, lowercase, owned, push_str, seq_lt, str_contains, str_ends_with, str_eq, str_lt, to_lowercase,
};
use crate::voiranime::VaSeries;

verus! {

// ---------------------------------------------------------------------------
// Entries made of the other sites' series
// ---------------------------------------------------------------------------

/// A voiranime series as a catalogue entry, with its languages: the
/// original version unless its slug ends in `-vf`, French when it does.
pub fn va_entry(series: &VaSeries) -> (r: (Root2, bool, bool))
    ensures
        r.0.id == -1 - crate::catalog::hash52(series.slug@),
        r.0.title@ == series.title@,
        r.0.title_o@.len() == 0,
        r.0.affiche@ == (match series.image {
            Some(i) => i@,
            None => Seq::empty(),
        }),
        r.0.affiche_small.deep_view() == series.image.deep_view(),
        r.0.source_url@ == series.url@,
        r.0.description@.len() == 0,
        r.0.note@.len() == 0,
        r.0.start_date@.len() == 0,
        r.0.status@.len() == 0,
        !r.0.nsfw,
        r.0.themes@.len() == 0,
        r.0.saisons@.len() == 0,
        r.1 == !ends_with(series.slug@, "-vf"@),
        r.2 == ends_with(series.slug@, "-vf"@),
{
    let mut a = Root2::blank(va_id_from(series.slug.as_str()), owned(series.title.as_str()));
    match &series.image {
        Some(i) => {
            a.affiche = owned(i.as_str());
            a.affiche_small = Some(owned(i.as_str()));
        },
        None => {},
    }
    a.source_url = owned(series.url.as_str());
    let vf = str_ends_with(series.slug.as_str(), "-vf");
    (a, !vf, vf)
}

/// What the uniquestream catalogue says of a series, as plain values; the
/// score is given as it is to be shown.
pub struct UsSeriesFacts {
    pub content_id: String,
    pub title: String,
    pub subbed: bool,
    pub dubbed: bool,
    pub info: Option<String>,
    pub image: Option<String>,
    pub year: Option<i64>,
    pub status: Option<String>,
    pub note: Option<String>,
}

/// A uniquestream series as a catalogue entry, with its languages: the
/// original version when it is subtitled, French when it is dubbed.
pub fn us_entry(series: &UsSeriesFacts) -> (r: (Root2, bool, bool))
    ensures
        r.0.id == -1 - crate::catalog::hash52(series.content_id@),
        r.0.title@ == series.title@,
        r.0.title_o@.len() == 0,
        r.0.affiche@ == (match series.image {
            Some(i) => i@,
            None => Seq::empty(),
        }),
        r.0.affiche_small.deep_view() == series.image.deep_view(),
        r.0.description@ == (match series.info {
            Some(i) => i@,
            None => Seq::empty(),
        }),
        r.0.note@ == (match series.note {
            Some(n) => n@,
            None => Seq::empty(),
        }),
        r.0.start_date@ == (match series.year {
            Some(y) => signed_decimal(y as int),
            None => Seq::empty(),
        }),
        r.0.status@ == (match series.status {
            Some(s) => s@,
            None => Seq::empty(),
        }),
        r.0.source_url@ == "https://anime.uniquestream.net/series/"@ + series.content_id@,
        !r.0.nsfw,
        r.0.themes@.len() == 0,
        r.0.saisons@.len() == 0,
        r.1 == series.subbed,
        r.2 == series.dubbed,
{
    let mut a = Root2::blank(us_id_from(series.content_id.as_str()), owned(series.title.as_str()));
    match &series.image {
        Some(i) => {
            a.affiche = owned(i.as_str());
            a.affiche_small = Some(owned(i.as_str()));
        },
        None => {},
    }
    match &series.info {
        Some(i) => {
            a.description = owned(i.as_str());
        },
        None => {},
    }
    match &series.note {
        Some(n) => {
            a.note = owned(n.as_str());
        },
        None => {},
    }
    match series.year {
        Some(y) => {
            let mut d = String::new();
            push_signed_decimal(&mut d, y);
            a.start_date = d;
        },
        None => {},
    }
    match &series.status {
        Some(s) => {
            a.status = owned(s.as_str());
        },
        None => {},
    }
    let mut url = owned("https://anime.uniquestream.net/series/");
    push_str(&mut url, series.content_id.as_str());
    a.source_url = url;
    (a, series.subbed, series.dubbed)
}

// ---------------------------------------------------------------------------
// Search
// ---------------------------------------------------------------------------

/// How far a title may be from the query for a fuzzy match: two fifths of
/// the query's length, rounded down.
pub open spec fn search_threshold(q: Seq<char>) -> nat {
    (2 * q.len() / 5) as nat
}

/// Some theme, in lower case, holds the query.
pub open spec fn theme_holds(themes: Seq<String>, q: Seq<char>) -> bool {
    exists|i: int| 0 <= i < themes.len() && contains(lowercase(#[trigger] themes[i]@), q)
}

/// An entry matches a query (already in lower case): the query is empty, or
/// it occurs in the title, original title, Japanese title, description, a
/// theme or the user's comment (each in lower case), or it is close enough
/// to the title in lower case.
pub open spec fn search_match(anime: Root2, comment: Seq<char>, q: Seq<char>) -> bool {
    ||| q.len() == 0
    ||| contains(lowercase(anime.title@), q)
    ||| contains(lowercase(anime.title_o@), q)
    ||| (anime.titles.ja_jp matches Some(j) && contains(lowercase(j@), q))
    ||| contains(lowercase(anime.description@), q)
    ||| theme_holds(anime.themes@, q)
    ||| (comment.len() > 0 && contains(lowercase(comment), q))
    ||| (search_threshold(q) > 0 && lev(q, lowercase(anime.title@)) <= search_threshold(q))
}

/// An entry matches a query (in lower case) when the query is empty, or when
/// it occurs in the lower-case form of its title, its original title, its
/// Japanese title, its description, one of its themes or the user's comment.
pub proof fn lemma_search_finds_occurrences(anime: Root2, comment: Seq<char>, q: Seq<char>)
    ensures
        q.len() == 0 ==> search_match(anime, comment, q),
        contains(lowercase(anime.title@), q) ==> search_match(anime, comment, q),
        contains(lowercase(anime.title_o@), q) ==> search_match(anime, comment, q),
        (anime.titles.ja_jp matches Some(j) && contains(lowercase(j@), q)) ==> search_match(anime, comment, q),
        contains(lowercase(anime.description@), q) ==> search_match(anime, comment, q),
        forall|i: int|
            0 <= i < anime.themes@.len() && contains(lowercase(#[trigger] anime.themes@[i]@), q) ==> search_match(
                anime,
                comment,
                q,
            ),
        (comment.len() > 0 && contains(lowercase(comment), q)) ==> search_match(anime, comment, q),
{
}

fn lower_contains(s: &str, q: &str) -> (b: bool)
    ensures
        b == contains(lowercase(s@), q@),
{
    let l = to_lowercase(s);
    str_contains(l.as_str(), q)
}

/// Whether an entry matches a query in lower case, as `search_match` says;
/// `comment` is the user's comment on it.
pub fn matches_search(anime: &Root2, comment: &str, query_lower: &str) -> (b: bool)
    requires
        query_lower@.len() < usize::MAX / 2,
    ensures
        b == search_match(*anime, comment@, query_lower@),
{
    if query_lower.is_empty() {
        return true;
    }
    if lower_contains(anime.title.as_str(), query_lower) || lower_contains(anime.title_o.as_str(), query_lower) {
        return true;
    }
    match &anime.titles.ja_jp {
        Some(j) => {
            if lower_contains(j.as_str(), query_lower) {
                return true;
            }
        },
        None => {},
    }
    if lower_contains(anime.description.as_str(), query_lower) {
        return true;
    }
    let mut i: usize = 0;
    while i < anime.themes.len()
        invariant
            i <= anime.themes@.len(),
            forall|k: int| 0 <= k < i ==> !contains(lowercase(#[trigger] anime.themes@[k]@), query_lower@),
        decreases anime.themes@.len() - i,
    {
        if lower_contains(anime.themes[i].as_str(), query_lower) {
            return true;
        }
        i = i + 1;
    }
    if !comment.is_empty() && lower_contains(comment, query_lower) {
        return true;
    }
    let qv = crate::text::chars_of(query_lower);
    let threshold = 2 * qv.len() / 5;
    if threshold == 0 {
        return false;
    }
    let title_lower = to_lowercase(anime.title.as_str());
    levenshtein(query_lower, title_lower.as_str()) <= threshold
}

// ---------------------------------------------------------------------------
// Filters
// ---------------------------------------------------------------------------

/// Which languages the listed entries must offer.
#[derive(Clone, Copy, PartialEq, Eq, Structural, Debug)]
pub enum LangFilter {
    All,
    VO,
    VF,
    Both,
}

/// An entry offering the original version (`vo`) and French (`vf`) passes
/// the language filter: any; the original only; French only; or both.
pub open spec fn lang_match(f: LangFilter, vo: bool, vf: bool) -> bool {
    match f {
        LangFilter::All => true,
        LangFilter::VO => vo && !vf,
        LangFilter::VF => vf && !vo,
        LangFilter::Both => vo && vf,
    }
}

/// How the selected themes combine: any of them, or all of them.
#[derive(Clone, Copy, PartialEq, Eq, Structural, Debug)]
pub enum ThemeFilterMode {
    Any,
    All,
}

/// A theme is among the entry's themes.
pub open spec fn has_theme(themes: Seq<String>, t: Seq<char>) -> bool {
    exists|i: int| 0 <= i < themes.len() && #[trigger] themes[i]@ == t
}

/// An entry passes the theme filter: nothing is selected, or it has any
/// (or all) of the selected themes.
pub open spec fn themes_match(themes: Seq<String>, selected: Seq<String>, mode: ThemeFilterMode) -> bool {
    selected.len() == 0 || match mode {
        ThemeFilterMode::Any => exists|j: int| 0 <= j < selected.len() && has_theme(themes, #[trigger] selected[j]@),
        ThemeFilterMode::All => forall|j: int| 0 <= j < selected.len() ==> has_theme(themes, #[trigger] selected[j]@),
    }
}

fn holds_string(v: &Vec<String>, t: &str) -> (b: bool)
    ensures
        b == has_theme(v@, t@),
{
    let mut i: usize = 0;
    while i < v.len()
        invariant
            i <= v@.len(),
            forall|k: int| 0 <= k < i ==> #[trigger] v@[k]@ != t@,
        decreases v@.len() - i,
    {
        if str_eq(v[i].as_str(), t) {
            return true;
        }
        i = i + 1;
    }
    false
}

/// Whether an entry with these themes passes the theme filter, as
/// `themes_match` says.
pub fn matches_themes(themes: &Vec<String>, selected: &Vec<String>, mode: ThemeFilterMode) -> (b: bool)
    ensures
        b == themes_match(themes@, selected@, mode),
{
    if selected.len() == 0 {
        return true;
    }
    let mut j: usize = 0;
    match mode {
        ThemeFilterMode::Any => {
            while j < selected.len()
                invariant
                    j <= selected@.len(),
                    selected@.len() > 0,
                    mode == ThemeFilterMode::Any,
                    forall|k: int| 0 <= k < j ==> !has_theme(themes@, #[trigger] selected@[k]@),
                decreases selected@.len() - j,
            {
                if holds_string(themes, selected[j].as_str()) {
                    assert(has_theme(themes@, selected@[j as int]@));
                    return true;
                }
                j = j + 1;
            }
            false
        },
        ThemeFilterMode::All => {
            while j < selected.len()
                invariant
                    j <= selected@.len(),
                    selected@.len() > 0,
                    mode == ThemeFilterMode::All,
                    forall|k: int| 0 <= k < j ==> has_theme(themes@, #[trigger] selected@[k]@),
                decreases selected@.len() - j,
            {
                if !holds_string(themes, selected[j].as_str()) {
                    assert(!has_theme(themes@, selected@[j as int]@));
                    return false;
                }
                j = j + 1;
            }
            true
        },
    }
}

/// The filters of the list: languages, downloaded entries only, adult
/// entries hidden, the statuses and user tags asked for, the themes
/// selected and how they combine, and the search query in lower case.
pub struct BrowseFilter {
    pub lang: LangFilter,
    pub only_downloaded: bool,
    pub hide_nsfw: bool,
    pub statuses: Vec<UserStatus>,
    pub required_tags: Vec<String>,
    pub themes: Vec<String>,
    pub theme_mode: ThemeFilterMode,
    pub query_lower: String,
}

/// What the user has recorded of an entry, and the languages it offers.
pub struct EntryMarks {
    pub has_vo: bool,
    pub has_vf: bool,
    pub is_downloaded: bool,
    pub user_status: Option<UserStatus>,
    pub user_tags: Vec<String>,
    pub user_comment: String,
}

/// An entry passes every filter: languages; the rating (`rating_ok`, decided
/// by the caller on the user's rating); downloaded when only those are
/// asked for; not adult when those are hidden; its themes; its status among
/// those asked for (when any is); every tag asked for among its tags; and
/// the search.
pub open spec fn passes_filters(anime: Root2, m: EntryMarks, rating_ok: bool, f: BrowseFilter) -> bool {
    &&& lang_match(f.lang, m.has_vo, m.has_vf)
    &&& rating_ok
    &&& (!f.only_downloaded || m.is_downloaded)
    &&& (!f.hide_nsfw || !anime.nsfw)
    &&& themes_match(anime.themes@, f.themes@, f.theme_mode)
    &&& (f.statuses@.len() == 0 || (m.user_status matches Some(s) && f.statuses@.contains(s)))
    &&& forall|j: int| 0 <= j < f.required_tags@.len() ==> has_theme(m.user_tags@, #[trigger] f.required_tags@[j]@)
    &&& search_match(anime, m.user_comment@, f.query_lower@)
}

fn status_listed(statuses: &Vec<UserStatus>, s: UserStatus) -> (b: bool)
    ensures
        b == statuses@.contains(s),
{
    let mut i: usize = 0;
    while i < statuses.len()
        invariant
            i <= statuses@.len(),
            forall|k: int| 0 <= k < i ==> statuses@[k] != s,
        decreases statuses@.len() - i,
    {
        if statuses[i] == s {
            assert(statuses@[i as int] == s);
            return true;
        }
        i = i + 1;
    }
    false
}

/// Whether an entry passes every filter, as `passes_filters` says.
pub fn entry_passes(anime: &Root2, marks: &EntryMarks, rating_ok: bool, f: &BrowseFilter) -> (b: bool)
    requires
        f.query_lower@.len() < usize::MAX / 2,
    ensures
        b == passes_filters(*anime, *marks, rating_ok, *f),
{
    let lang_ok = match f.lang {
        LangFilter::All => true,
        LangFilter::VO => marks.has_vo && !marks.has_vf,
        LangFilter::VF => marks.has_vf && !marks.has_vo,
        LangFilter::Both => marks.has_vo && marks.has_vf,
    };
    if !lang_ok || !rating_ok {
        return false;
    }
    if f.only_downloaded && !marks.is_downloaded {
        return false;
    }
    if f.hide_nsfw && anime.nsfw {
        return false;
    }
    if !matches_themes(&anime.themes, &f.themes, f.theme_mode) {
        return false;
    }
    if f.statuses.len() > 0 {
        match marks.user_status {
            Some(s) => {
                if !status_listed(&f.statuses, s) {
                    return false;
                }
            },
            None => {
                return false;
            },
        }
    }
    let mut j: usize = 0;
    while j < f.required_tags.len()
        invariant
            j <= f.required_tags@.len(),
            forall|k: int| 0 <= k < j ==> has_theme(marks.user_tags@, #[trigger] f.required_tags@[k]@),
        decreases f.required_tags@.len() - j,
    {
        if !holds_string(&marks.user_tags, f.required_tags[j].as_str()) {
            return false;
        }
        j = j + 1;
    }
    matches_search(anime, marks.user_comment.as_str(), f.query_lower.as_str())
}

// ---------------------------------------------------------------------------
// Sorting the list
// ---------------------------------------------------------------------------

/// The key an entry is sorted by under the orders that compare whole numbers
/// or text: a number first, then a text.  `a` is at most `b`.
pub open spec fn key_le(a: (u64, Seq<char>), b: (u64, Seq<char>)) -> bool {
    a.0 < b.0 || (a.0 == b.0 && !seq_lt(b.1, a.1))
}

/// `a` may stay before `b`: it is at most `b` in increasing order, at least
/// `b` in decreasing order.
pub open spec fn goes_before(a: (u64, Seq<char>), b: (u64, Seq<char>), desc: bool) -> bool {
    if desc {
        key_le(b, a)
    } else {
        key_le(a, b)
    }
}

/// Where entry `x` goes in the order `o` built so far: after the last entry
/// that may stay before it.
pub open spec fn insert_at(o: Seq<usize>, keys: Seq<(u64, Seq<char>)>, x: usize, desc: bool) -> int
    decreases o.len(),
{
    if o.len() == 0 {
        0
    } else if goes_before(keys[o.last() as int], keys[x as int], desc) {
        o.len() as int
    } else {
        insert_at(o.drop_last(), keys, x, desc)
    }
}

/// The first `n` entries in the stable order of their keys: sorted by key
/// (increasing, or decreasing when `desc`), entries of equal key in the
/// order they came.
pub open spec fn stable_order(keys: Seq<(u64, Seq<char>)>, n: int, desc: bool) -> Seq<usize>
    decreases n,
{
    if n <= 0 {
        Seq::empty()
    } else {
        let o = stable_order(keys, n - 1, desc);
        o.insert(insert_at(o, keys, (n - 1) as usize, desc), (n - 1) as usize)
    }
}

/// The key of an entry under a sort order, for the orders that compare whole
/// numbers or text: the title in lower case; the start date; the number of
/// episodes; the number of seasons.  The orders by rating compare decimal
/// numbers and have no such key.
pub open spec fn sort_key_spec(anime: Root2, mode: SortMode) -> Option<(u64, Seq<char>)> {
    match mode {
        SortMode::TitleAlpha => Some((0u64, lowercase(anime.title@))),
        SortMode::StartDate => Some((0u64, anime.start_date@)),
        SortMode::EpisodesCount => Some((
            crate::catalog::episodes_before(anime.saisons@, anime.saisons@.len() as int) as u64,
            Seq::empty(),
        )),
        SortMode::SeasonsCount => Some((anime.saisons@.len() as u64, Seq::empty())),
        _ => None,
    }
}

/// The key of an entry under a sort order, as `sort_key_spec` gives it.
pub fn sort_key(anime: &Root2, mode: SortMode) -> (r: Option<(u64, String)>)
    requires
        crate::catalog::episodes_before(anime.saisons@, anime.saisons@.len() as int) <= usize::MAX,
    ensures
        r.deep_view() == sort_key_spec(*anime, mode),
{
    match mode {
        SortMode::TitleAlpha => Some((0, to_lowercase(anime.title.as_str()))),
        SortMode::StartDate => Some((0, owned(anime.start_date.as_str()))),
        SortMode::EpisodesCount => Some((crate::catalog::total_episodes(anime) as u64, String::new())),
        SortMode::SeasonsCount => Some((anime.saisons.len() as u64, String::new())),
        _ => None,
    }
}

fn goes_before_exec(a: &(u64, String), b: &(u64, String), desc: bool) -> (r: bool)
    ensures
        r == goes_before((a.0, a.1@), (b.0, b.1@), desc),
{
    if desc {
        b.0 < a.0 || (b.0 == a.0 && !str_lt(a.1.as_str(), b.1.as_str()))
    } else {
        a.0 < b.0 || (a.0 == b.0 && !str_lt(b.1.as_str(), a.1.as_str()))
    }
}

proof fn lemma_insert_at_prefix(o: Seq<usize>, keys: Seq<(u64, Seq<char>)>, x: usize, desc: bool, p: int)
    requires
        0 < p <= o.len(),
        !goes_before(keys[o[p - 1] as int], keys[x as int], desc),
    ensures
        insert_at(o.take(p), keys, x, desc) == insert_at(o.take(p - 1), keys, x, desc),
{
    assert(o.take(p).drop_last() =~= o.take(p - 1));
    assert(o.take(p).last() == o[p - 1]);
}

/// The positions of the entries in the stable order of their keys, as
/// `stable_order` gives them.
pub fn stable_sort_order(keys: &Vec<(u64, String)>, desc: bool) -> (r: Vec<usize>)
    ensures
        r@ == stable_order(keys.deep_view(), keys@.len() as int, desc),
{
    let ghost kv = keys.deep_view();
    let mut o: Vec<usize> = Vec::new();
    let mut n: usize = 0;
    while n < keys.len()
        invariant
            n <= keys@.len(),
            kv == keys.deep_view(),
            o@ == stable_order(kv, n as int, desc),
            o@.len() == n,
            forall|k: int| 0 <= k < o@.len() ==> #[trigger] o@[k] < n,
        decreases keys@.len() - n,
    {
        proof {
            lemma_stable_order_len(kv, n as int, desc);
        }
        let mut p: usize = o.len();
        assert(o@.take(p as int) =~= o@);
        while p > 0 && !goes_before_exec(&keys[o[p - 1]], &keys[n], desc)
            invariant
                p <= o@.len(),
                n < keys@.len(),
                kv == keys.deep_view(),
                forall|k: int| 0 <= k < o@.len() ==> #[trigger] o@[k] < n,
                insert_at(o@, kv, n, desc) == insert_at(o@.take(p as int), kv, n, desc),
            decreases p,
        {
            proof {
                assert(kv[o@[p - 1] as int] == (keys@[o@[p - 1] as int].0, keys@[o@[p - 1] as int].1@));
                assert(kv[n as int] == (keys@[n as int].0, keys@[n as int].1@));
                lemma_insert_at_prefix(o@, kv, n, desc, p as int);
            }
            p = p - 1;
        }
        proof {
            if p > 0 {
                assert(kv[o@[p - 1] as int] == (keys@[o@[p - 1] as int].0, keys@[o@[p - 1] as int].1@));
                assert(kv[n as int] == (keys@[n as int].0, keys@[n as int].1@));
                assert(o@.take(p as int).last() == o@[p - 1]);
            } else {
                assert(o@.take(0) =~= Seq::<usize>::empty());
            }
        }
        o.insert(p, n);
        n = n + 1;
    }
    o
}

proof fn lemma_stable_order_len(keys: Seq<(u64, Seq<char>)>, n: int, desc: bool)
    requires
        0 <= n,
    ensures
        stable_order(keys, n, desc).len() == n,
        0 <= insert_at(stable_order(keys, n, desc), keys, n as usize, desc) <= n,
    decreases n,
{
    if n > 0 {
        lemma_stable_order_len(keys, n - 1, desc);
    }
    lemma_insert_at_bounds(stable_order(keys, n, desc), keys, n as usize, desc);
}

proof fn lemma_insert_at_bounds(o: Seq<usize>, keys: Seq<(u64, Seq<char>)>, x: usize, desc: bool)
    ensures
        0 <= insert_at(o, keys, x, desc) <= o.len(),
    decreases o.len(),
{
    if o.len() > 0 {
        lemma_insert_at_bounds(o.drop_last(), keys, x, desc);
    }
}

proof fn lemma_key_le_total(a: (u64, Seq<char>), b: (u64, Seq<char>))
    ensures
        key_le(a, b) || key_le(b, a),
{
    if a.0 == b.0 && seq_lt(b.1, a.1) && seq_lt(a.1, b.1) {
        crate::text::lemma_seq_lt_trans(a.1, b.1, a.1);
        crate::text::lemma_seq_lt_irrefl(a.1);
    }
}

proof fn lemma_key_le_trans(a: (u64, Seq<char>), b: (u64, Seq<char>), c: (u64, Seq<char>))
    requires
        key_le(a, b),
        key_le(b, c),
    ensures
        key_le(a, c),
{
    if a.0 == b.0 && b.0 == c.0 && seq_lt(c.1, a.1) {
        if a.1 != b.1 {
            crate::text::lemma_seq_lt_total(a.1, b.1);
            crate::text::lemma_seq_lt_trans(c.1, a.1, b.1);
        }
    }
}

/// The entries of `o` are sorted by their keys: each may stay before every
/// later one.
pub open spec fn sorted_by_keys(o: Seq<usize>, keys: Seq<(u64, Seq<char>)>, desc: bool) -> bool {
    forall|i: int, j: int| 0 <= i < j < o.len() ==> goes_before(keys[#[trigger] o[i] as int], keys[#[trigger] o[j] as int], desc)
}

proof fn lemma_insert_at(o: Seq<usize>, keys: Seq<(u64, Seq<char>)>, x: usize, desc: bool)
    requires
        sorted_by_keys(o, keys, desc),
    ensures
        0 <= insert_at(o, keys, x, desc) <= o.len(),
        forall|i: int| 0 <= i < insert_at(o, keys, x, desc) ==> goes_before(keys[#[trigger] o[i] as int], keys[x as int], desc),
        forall|i: int| insert_at(o, keys, x, desc) <= i < o.len() ==> goes_before(keys[x as int], keys[#[trigger] o[i] as int], desc)
            && !goes_before(keys[o[i] as int], keys[x as int], desc),
    decreases o.len(),
{
    if o.len() > 0 {
        let d = o.drop_last();
        if goes_before(keys[o.last() as int], keys[x as int], desc) {
            assert forall|i: int| 0 <= i < o.len() implies goes_before(keys[#[trigger] o[i] as int], keys[x as int], desc) by {
                if i < o.len() - 1 {
                    assert(goes_before(keys[o[i] as int], keys[o[o.len() - 1] as int], desc));
                    if desc {
                        lemma_key_le_trans(keys[x as int], keys[o[o.len() - 1] as int], keys[o[i] as int]);
                    } else {
                        lemma_key_le_trans(keys[o[i] as int], keys[o[o.len() - 1] as int], keys[x as int]);
                    }
                }
            }
        } else {
            assert(sorted_by_keys(d, keys, desc)) by {
                assert forall|i: int, j: int| 0 <= i < j < d.len() implies goes_before(
                    keys[#[trigger] d[i] as int],
                    keys[#[trigger] d[j] as int],
                    desc,
                ) by {
                    assert(d[i] == o[i] && d[j] == o[j]);
                    assert(goes_before(keys[o[i] as int], keys[o[j] as int], desc));
                }
            }
            lemma_insert_at(d, keys, x, desc);
            let p = insert_at(o, keys, x, desc);
            assert forall|i: int| 0 <= i < p implies goes_before(keys[#[trigger] o[i] as int], keys[x as int], desc) by {
                assert(o[i] == d[i]);
                assert(goes_before(keys[d[i] as int], keys[x as int], desc));
            }
            assert forall|i: int| p <= i < o.len() implies goes_before(keys[x as int], keys[#[trigger] o[i] as int], desc)
                && !goes_before(keys[o[i] as int], keys[x as int], desc) by {
                if i < o.len() - 1 {
                    assert(o[i] == d[i]);
                    assert(!goes_before(keys[d[i] as int], keys[x as int], desc));
                }
                lemma_key_le_total(keys[x as int], keys[o[i] as int]);
            }
        }
    }
}

/// Position `x` occurs in `o`.
pub open spec fn occurs_in(o: Seq<usize>, x: int) -> bool {
    exists|k: int| 0 <= k < o.len() && o[k] == x
}

/// The stable order of `n` entries holds each of them once, and sorts them
/// by their keys, increasing (or decreasing when `desc`).
pub proof fn lemma_stable_order(keys: Seq<(u64, Seq<char>)>, n: int, desc: bool)
    requires
        0 <= n <= usize::MAX,
    ensures
        stable_order(keys, n, desc).len() == n,
        forall|k: int| 0 <= k < n ==> #[trigger] stable_order(keys, n, desc)[k] < n,
        forall|x: int| 0 <= x < n ==> #[trigger] occurs_in(stable_order(keys, n, desc), x),
        forall|i: int, j: int| 0 <= i < j < n ==> #[trigger] stable_order(keys, n, desc)[i] != #[trigger] stable_order(
            keys,
            n,
            desc,
        )[j],
        sorted_by_keys(stable_order(keys, n, desc), keys, desc),
    decreases n,
{
    if n > 0 {
        lemma_stable_order(keys, n - 1, desc);
        let o = stable_order(keys, n - 1, desc);
        let x = (n - 1) as usize;
        lemma_insert_at(o, keys, x, desc);
        let p = insert_at(o, keys, x, desc);
        let r = o.insert(p, x);
        assert(r == stable_order(keys, n, desc));
        assert forall|k: int| 0 <= k < n implies #[trigger] r[k] < n by {
            if k < p {
                assert(r[k] == o[k]);
            } else if k > p {
                assert(r[k] == o[k - 1]);
            }
        }
        assert forall|y: int| 0 <= y < n implies #[trigger] occurs_in(r, y) by {
            if y == n - 1 {
                assert(r[p] == y);
            } else {
                assert(occurs_in(o, y));
                let k = choose|k: int| 0 <= k < o.len() && o[k] == y;
                if k < p {
                    assert(r[k] == y);
                } else {
                    assert(r[k + 1] == y);
                }
            }
        }
        assert forall|i: int, j: int| 0 <= i < j < n implies #[trigger] r[i] != #[trigger] r[j] by {
            if j < p {
                assert(r[i] == o[i] && r[j] == o[j]);
            } else if j == p {
                assert(r[i] == o[i]);
            } else if i < p {
                assert(r[i] == o[i] && r[j] == o[j - 1]);
            } else if i == p {
                assert(r[j] == o[j - 1]);
            } else {
                assert(r[i] == o[i - 1] && r[j] == o[j - 1]);
            }
        }
        assert forall|i: int, j: int| 0 <= i < j < r.len() implies goes_before(
            keys[#[trigger] r[i] as int],
            keys[#[trigger] r[j] as int],
            desc,
        ) by {
            if j < p {
                assert(r[i] == o[i] && r[j] == o[j]);
            } else if j == p {
                assert(r[i] == o[i]);
            } else if i < p {
                assert(r[i] == o[i] && r[j] == o[j - 1]);
                assert(goes_before(keys[o[i] as int], keys[x as int], desc));
                assert(goes_before(keys[x as int], keys[o[j - 1] as int], desc));
                if desc {
                    lemma_key_le_trans(keys[o[j - 1] as int], keys[x as int], keys[o[i] as int]);
                } else {
                    lemma_key_le_trans(keys[o[i] as int], keys[x as int], keys[o[j - 1] as int]);
                }
            } else if i == p {
                assert(r[j] == o[j - 1]);
            } else {
                assert(r[i] == o[i - 1] && r[j] == o[j - 1]);
            }
        }
    }
}

/// The stable order keeps entries with equal keys in the order of their
/// positions.
pub proof fn lemma_stable_order_ties(keys: Seq<(u64, Seq<char>)>, n: int, desc: bool)
    requires
        0 <= n <= usize::MAX,
    ensures
        forall|i: int, j: int|
            0 <= i < j < n && keys[#[trigger] stable_order(keys, n, desc)[i] as int] == keys[#[trigger] stable_order(
                keys,
                n,
                desc,
            )[j] as int] ==> stable_order(keys, n, desc)[i] < stable_order(keys, n, desc)[j],
    decreases n,
{
    if n > 0 {
        lemma_stable_order(keys, n - 1, desc);
        lemma_stable_order_ties(keys, n - 1, desc);
        let o = stable_order(keys, n - 1, desc);
        let x = (n - 1) as usize;
        lemma_insert_at(o, keys, x, desc);
        let p = insert_at(o, keys, x, desc);
        let r = o.insert(p, x);
        assert(r == stable_order(keys, n, desc));
        crate::text::lemma_seq_lt_irrefl(keys[x as int].1);
        assert forall|i: int, j: int| 0 <= i < j < n && keys[#[trigger] r[i] as int] == keys[#[trigger] r[j] as int] implies r[i]
            < r[j] by {
            if j < p {
                assert(r[i] == o[i] && r[j] == o[j]);
            } else if j == p {
                assert(r[i] == o[i]);
            } else if i < p {
                assert(r[i] == o[i] && r[j] == o[j - 1]);
            } else if i == p {
                assert(r[j] == o[j - 1]);
                assert(!goes_before(keys[o[j - 1] as int], keys[x as int], desc));
            } else {
                assert(r[i] == o[i - 1] && r[j] == o[j - 1]);
            }
        }
    }
}

/// The positions, among the first `n`, of the entries that pass every filter.
pub open spec fn passing_positions(
    animes: Seq<Root2>,
    marks: Seq<EntryMarks>,
    rating_ok: Seq<bool>,
    f: BrowseFilter,
    n: int,
) -> Seq<usize>
    decreases n,
{
    if n <= 0 {
        Seq::empty()
    } else {
        let r = passing_positions(animes, marks, rating_ok, f, n - 1);
        if passes_filters(animes[n - 1], marks[n - 1], rating_ok[n - 1], f) {
            r.push((n - 1) as usize)
        } else {
            r
        }
    }
}

/// The list shown: the positions `pass`, in the stable order of their keys.
pub open spec fn view_list(pass: Seq<usize>, keys: Seq<(u64, Seq<char>)>, desc: bool) -> Seq<usize> {
    let sub = Seq::new(pass.len(), |i: int| keys[pass[i] as int]);
    let o = stable_order(sub, pass.len() as int, desc);
    Seq::new(o.len(), |i: int| pass[o[i] as int])
}

/// The entries that pass every filter, as positions in the list, sorted
/// stably by their keys (`keys[i]` is the key of entry `i` under the sort
/// order; `rating_ok[i]` is the rating filter's verdict on entry `i`).
pub fn filtered_view(
    animes: &Vec<Root2>,
    marks: &Vec<EntryMarks>,
    rating_ok: &Vec<bool>,
    f: &BrowseFilter,
    keys: &Vec<(u64, String)>,
    desc: bool,
) -> (r: Vec<usize>)
    requires
        marks@.len() == animes@.len(),
        rating_ok@.len() == animes@.len(),
        keys@.len() == animes@.len(),
        f.query_lower@.len() < usize::MAX / 2,
    ensures
        r@ == view_list(
            passing_positions(animes@, marks@, rating_ok@, *f, animes@.len() as int),
            keys.deep_view(),
            desc,
        ),
{
    let ghost kv = keys.deep_view();
    let mut pass: Vec<usize> = Vec::new();
    let mut i: usize = 0;
    while i < animes.len()
        invariant
            i <= animes@.len(),
            marks@.len() == animes@.len(),
            rating_ok@.len() == animes@.len(),
            f.query_lower@.len() < usize::MAX / 2,
            pass@ == passing_positions(animes@, marks@, rating_ok@, *f, i as int),
            forall|k: int| 0 <= k < pass@.len() ==> #[trigger] pass@[k] < i,
        decreases animes@.len() - i,
    {
        if entry_passes(&animes[i], &marks[i], rating_ok[i], f) {
            pass.push(i);
        }
        i = i + 1;
    }
    let mut sub: Vec<(u64, String)> = Vec::new();
    let mut j: usize = 0;
    while j < pass.len()
        invariant
            j <= pass@.len(),
            kv == keys.deep_view(),
            kv.len() == animes@.len(),
            forall|k: int| 0 <= k < pass@.len() ==> #[trigger] pass@[k] < animes@.len(),
            sub.deep_view() == Seq::new(j as nat, |k: int| kv[pass@[k] as int]),
        decreases pass@.len() - j,
    {
        let e = &keys[pass[j]];
        let item = (e.0, owned(e.1.as_str()));
        let ghost before = sub@;
        sub.push(item);
        proof {
            crate::text::lemma_deep_view_push(before, sub@, item);
        }
        assert(kv[pass@[j as int] as int] == (keys@[pass@[j as int] as int].0, keys@[pass@[j as int] as int].1@));
        assert(sub.deep_view() =~= Seq::new((j + 1) as nat, |k: int| kv[pass@[k] as int]));
        j = j + 1;
    }
    let ghost sv = Seq::new(pass@.len(), |k: int| kv[pass@[k] as int]);
    assert(sub.deep_view() =~= sv);
    let o = stable_sort_order(&sub, desc);
    proof {
        lemma_stable_order(sv, pass@.len() as int, desc);
    }
    let mut r: Vec<usize> = Vec::new();
    let mut k: usize = 0;
    while k < o.len()
        invariant
            k <= o@.len(),
            o@ == stable_order(sv, pass@.len() as int, desc),
            o@.len() == pass@.len(),
            forall|m: int| 0 <= m < o@.len() ==> #[trigger] o@[m] < pass@.len(),
            r@ == Seq::new(k as nat, |m: int| pass@[o@[m] as int]),
        decreases o@.len() - k,
    {
        r.push(pass[o[k]]);
        k = k + 1;
        assert(r@ =~= Seq::new(k as nat, |m: int| pass@[o@[m] as int]));
    }
    r
}

proof fn lemma_passing_positions(
    animes: Seq<Root2>,
    marks: Seq<EntryMarks>,
    rating_ok: Seq<bool>,
    f: BrowseFilter,
    n: int,
)
    requires
        0 <= n <= animes.len(),
        n <= usize::MAX,
    ensures
        forall|a: int, b: int|
            0 <= a < b < passing_positions(animes, marks, rating_ok, f, n).len() ==> #[trigger] passing_positions(
                animes,
                marks,
                rating_ok,
                f,
                n,
            )[a] < #[trigger] passing_positions(animes, marks, rating_ok, f, n)[b],
        forall|a: int| 0 <= a < passing_positions(animes, marks, rating_ok, f, n).len() ==> #[trigger] passing_positions(
            animes,
            marks,
            rating_ok,
            f,
            n,
        )[a] < n,
        forall|x: int|
            0 <= x < n ==> (passing_positions(animes, marks, rating_ok, f, n).contains(x as usize) <==> #[trigger] passes_filters(
                animes[x],
                marks[x],
                rating_ok[x],
                f,
            )),
    decreases n,
{
    if n > 0 {
        lemma_passing_positions(animes, marks, rating_ok, f, n - 1);
        let r = passing_positions(animes, marks, rating_ok, f, n - 1);
        assert forall|x: int| 0 <= x < n implies (passing_positions(animes, marks, rating_ok, f, n).contains(
            x as usize,
        ) <==> #[trigger] passes_filters(animes[x], marks[x], rating_ok[x], f)) by {
            let q = passing_positions(animes, marks, rating_ok, f, n);
            if q.contains(x as usize) {
                let k = choose|k: int| 0 <= k < q.len() && q[k] == x as usize;
                if k < r.len() {
                    assert(r[k] == q[k]);
                    assert(r.contains(x as usize));
                }
            }
            if x < n - 1 && r.contains(x as usize) {
                let k = choose|k: int| 0 <= k < r.len() && r[k] == x as usize;
                if passes_filters(animes[n - 1], marks[n - 1], rating_ok[n - 1], f) {
                    assert(q[k] == x as usize);
                }
            }
            if x == n - 1 && passes_filters(animes[n - 1], marks[n - 1], rating_ok[n - 1], f) {
                assert(q[r.len() as int] == x as usize);
            }
            if x == n - 1 && r.contains(x as usize) {
                let k = choose|k: int| 0 <= k < r.len() && r[k] == x as usize;
                assert(r[k] < n - 1);
            }
        }
    }
}

/// The catalogue list holds each entry that passes every filter exactly
/// once, and no other; it is sorted by the keys, increasing (decreasing when
/// `desc`), and entries with equal keys keep the order of their positions.
pub proof fn lemma_filtered_view(
    animes: Seq<Root2>,
    marks: Seq<EntryMarks>,
    rating_ok: Seq<bool>,
    f: BrowseFilter,
    keys: Seq<(u64, Seq<char>)>,
    desc: bool,
)
    requires
        marks.len() == animes.len(),
        rating_ok.len() == animes.len(),
        keys.len() == animes.len(),
        animes.len() <= usize::MAX,
    ensures
        ({
            let r = view_list(passing_positions(animes, marks, rating_ok, f, animes.len() as int), keys, desc);
            &&& forall|x: int|
                0 <= x < animes.len() ==> (r.contains(x as usize) <==> #[trigger] passes_filters(
                    animes[x],
                    marks[x],
                    rating_ok[x],
                    f,
                ))
            &&& forall|k: int| 0 <= k < r.len() ==> #[trigger] r[k] < animes.len()
            &&& forall|i: int, j: int| 0 <= i < j < r.len() ==> #[trigger] r[i] != #[trigger] r[j]
            &&& sorted_by_keys(r, keys, desc)
            &&& forall|i: int, j: int|
                0 <= i < j < r.len() && keys[#[trigger] r[i] as int] == keys[#[trigger] r[j] as int] ==> r[i] < r[j]
        }),
{
    let n = animes.len() as int;
    let pass = passing_positions(animes, marks, rating_ok, f, n);
    lemma_passing_positions(animes, marks, rating_ok, f, n);
    let sub = Seq::new(pass.len(), |i: int| keys[pass[i] as int]);
    let m = pass.len() as int;
    assert(m <= n) by {
        lemma_positions_len(animes, marks, rating_ok, f, n);
    }
    lemma_stable_order(sub, m, desc);
    lemma_stable_order_ties(sub, m, desc);
    let o = stable_order(sub, m, desc);
    let r = view_list(pass, keys, desc);
    assert(r.len() == m);
    assert forall|k: int| 0 <= k < r.len() implies #[trigger] r[k] < animes.len() by {
        assert(o[k] < m);
    }
    assert forall|x: int| 0 <= x < n implies (r.contains(x as usize) <==> #[trigger] passes_filters(
        animes[x],
        marks[x],
        rating_ok[x],
        f,
    )) by {
        if pass.contains(x as usize) {
            let a = choose|a: int| 0 <= a < pass.len() && pass[a] == x as usize;
            assert(occurs_in(o, a));
            let k = choose|k: int| 0 <= k < o.len() && o[k] == a;
            assert(r[k] == x as usize);
        }
        if r.contains(x as usize) {
            let k = choose|k: int| 0 <= k < r.len() && r[k] == x as usize;
            assert(o[k] < m);
            assert(pass[o[k] as int] == x as usize);
        }
    }
    assert forall|i: int, j: int| 0 <= i < j < r.len() implies #[trigger] r[i] != #[trigger] r[j] by {
        assert(o[i] != o[j]);
        assert(o[i] < m && o[j] < m);
        if o[i] < o[j] {
            assert(pass[o[i] as int] < pass[o[j] as int]);
        } else {
            assert(pass[o[j] as int] < pass[o[i] as int]);
        }
    }
    assert forall|i: int, j: int| 0 <= i < j < r.len() implies goes_before(
        keys[#[trigger] r[i] as int],
        keys[#[trigger] r[j] as int],
        desc,
    ) by {
        assert(goes_before(sub[o[i] as int], sub[o[j] as int], desc));
    }
    assert forall|i: int, j: int|
        0 <= i < j < r.len() && keys[#[trigger] r[i] as int] == keys[#[trigger] r[j] as int] implies r[i] < r[j] by {
        assert(sub[o[i] as int] == sub[o[j] as int]);
        assert(o[i] < o[j]);
        assert(pass[o[i] as int] < pass[o[j] as int]);
    }
}

proof fn lemma_positions_len(animes: Seq<Root2>, marks: Seq<EntryMarks>, rating_ok: Seq<bool>, f: BrowseFilter, n: int)
    requires
        0 <= n,
    ensures
        passing_positions(animes, marks, rating_ok, f, n).len() <= n,
    decreases n,
{
    if n > 0 {
        lemma_positions_len(animes, marks, rating_ok, f, n - 1);
    }
}

} // verus!
