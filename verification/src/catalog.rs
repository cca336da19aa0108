//! The catalogue: anime, seasons, episodes and the players that serve them;
//! the user's statuses and settings; the choice of players for a download.
use vstd::prelude::*;
use crate::naming::sanitize_path_segment;
use crate::num::{decimal, decimal_string, digits_value, all_digits, digit_value, parse_u64, parse_u64_str};
use crate::text::{
    ascii_upper, contains, lowercase, owned, push_str, str_contains, str_eq, to_lowercase,
};

verus! {

// ---------------------------------------------------------------------------
// Catalogue entries
// ---------------------------------------------------------------------------

/// The titles of an anime in other languages and its abbreviations.
pub struct Titles {
    pub en_jp: Option<String>,
    pub en_us: Option<String>,
    pub ja_jp: Option<String>,
    pub en: Option<String>,
    pub abrv_0: Option<String>,
    pub abrv_1: Option<String>,
    pub abrv_2: Option<String>,
    pub abrv_3: Option<String>,
    pub abrv_4: Option<String>,
    pub abrv_5: Option<String>,
    pub abrv_6: Option<String>,
    pub abrv_7: Option<String>,
    pub abrv_8: Option<String>,
    pub abrv_9: Option<String>,
    pub abrv_10: Option<String>,
    pub abrv_11: Option<String>,
    pub abrv_12: Option<String>,
    pub en_cn: Option<String>,
    pub zh_cn: Option<String>,
    pub es_es: Option<String>,
    pub fr_fr: Option<String>,
    pub en_kr: Option<String>,
    pub ko_kr: Option<String>,
    pub th_th: Option<String>,
    pub ar: Option<String>,
    pub ca_es: Option<String>,
    pub da_dk: Option<String>,
    pub de_de: Option<String>,
    pub en_ar: Option<String>,
    pub fi_fi: Option<String>,
    pub id_id: Option<String>,
    pub pl_pl: Option<String>,
    pub pt_pt: Option<String>,
    pub ro_ro: Option<String>,
    pub ru_ru: Option<String>,
    pub sv_se: Option<String>,
    pub vi_vn: Option<String>,
    pub zh_tw: Option<String>,
    pub fr: Option<String>,
    pub it_it: Option<String>,
    pub en_fr: Option<String>,
}

impl Titles {
    /// No title in any other language.
    pub fn empty() -> (r: Self)
        ensures
            r.en_jp is None,
            r.en_us is None,
            r.ja_jp is None,
            r.en is None,
            r.abrv_0 is None,
            r.abrv_1 is None,
            r.abrv_2 is None,
            r.abrv_3 is None,
            r.abrv_4 is None,
            r.abrv_5 is None,
            r.abrv_6 is None,
            r.abrv_7 is None,
            r.abrv_8 is None,
            r.abrv_9 is None,
            r.abrv_10 is None,
            r.abrv_11 is None,
            r.abrv_12 is None,
            r.en_cn is None,
            r.zh_cn is None,
            r.es_es is None,
            r.fr_fr is None,
            r.en_kr is None,
            r.ko_kr is None,
            r.th_th is None,
            r.ar is None,
            r.ca_es is None,
            r.da_dk is None,
            r.de_de is None,
            r.en_ar is None,
            r.fi_fi is None,
            r.id_id is None,
            r.pl_pl is None,
            r.pt_pt is None,
            r.ro_ro is None,
            r.ru_ru is None,
            r.sv_se is None,
            r.vi_vn is None,
            r.zh_tw is None,
            r.fr is None,
            r.it_it is None,
            r.en_fr is None,
    {
        Titles {
            en_jp: None,
            en_us: None,
            ja_jp: None,
            en: None,
            abrv_0: None,
            abrv_1: None,
            abrv_2: None,
            abrv_3: None,
            abrv_4: None,
            abrv_5: None,
            abrv_6: None,
            abrv_7: None,
            abrv_8: None,
            abrv_9: None,
            abrv_10: None,
            abrv_11: None,
            abrv_12: None,
            en_cn: None,
            zh_cn: None,
            es_es: None,
            fr_fr: None,
            en_kr: None,
            ko_kr: None,
            th_th: None,
            ar: None,
            ca_es: None,
            da_dk: None,
            de_de: None,
            en_ar: None,
            fi_fi: None,
            id_id: None,
            pl_pl: None,
            pt_pt: None,
            ro_ro: None,
            ru_ru: None,
            sv_se: None,
            vi_vn: None,
            zh_tw: None,
            fr: None,
            it_it: None,
            en_fr: None,
        }
    }
}

/// The players of an episode in French.
pub struct Vf {
    pub lecteurs: Vec<String>,
}

/// The players of an episode in the original language.
pub struct Vo {
    pub lecteurs: Vec<String>,
}

/// The players of an episode by language.
pub struct Lang {
    pub vf: Vf,
    pub vo: Vo,
}

/// An episode.
pub struct Episode {
    pub title: String,
    pub lang: Lang,
}

/// A season.
pub struct Saison {
    pub title: String,
    pub episodes: Vec<Episode>,
}

/// An anime of the catalogue.  `id` is the catalogue's number for it, a whole
/// number (negative for the entries that come from the other sites).
pub struct Root2 {
    pub id: i64,
    pub source_url: String,
    pub banner: Option<String>,
    pub affiche: String,
    pub title_o: String,
    pub title: String,
    pub titles: Titles,
    pub description: String,
    pub note: String,
    pub themes: Vec<String>,
    pub format: String,
    pub start_date: String,
    pub end_date: Option<String>,
    pub status: String,
    pub nsfw: bool,
    pub saisons: Vec<Saison>,
    pub affiche_small: Option<String>,
    pub updated_date: Option<i64>,
    pub updated_date_vf: Option<i64>,
    pub banner_small: Option<String>,
}

impl Root2 {
    /// An entry with the given id and title and nothing else.
    pub fn blank(id: i64, title: String) -> (r: Self)
        ensures
            r.id == id,
            r.title@ == title@,
            r.title_o@.len() == 0,
            r.saisons@.len() == 0,
            r.themes@.len() == 0,
            !r.nsfw,
            r.source_url@.len() == 0,
            r.affiche@.len() == 0,
            r.affiche_small is None,
            r.description@.len() == 0,
            r.note@.len() == 0,
            r.start_date@.len() == 0,
            r.status@.len() == 0,
            r.format@.len() == 0,
            r.banner is None,
            r.end_date is None,
            r.updated_date is None,
            r.updated_date_vf is None,
            r.banner_small is None,
    {
        Root2 {
            id,
            source_url: String::new(),
            banner: None,
            affiche: String::new(),
            title_o: String::new(),
            title,
            titles: Titles::empty(),
            description: String::new(),
            note: String::new(),
            themes: Vec::new(),
            format: String::new(),
            start_date: String::new(),
            end_date: None,
            status: String::new(),
            nsfw: false,
            saisons: Vec::new(),
            affiche_small: None,
            updated_date: None,
            updated_date_vf: None,
            banner_small: None,
        }
    }
}

/// The site an entry of the catalogue comes from.
#[derive(Clone, Copy, PartialEq, Eq, Structural, Debug)]
pub enum AnimeSource {
    Franime,
    Uniquestream,
    Voiranime,
}

// ---------------------------------------------------------------------------
// Ids of the entries from the other sites
// ---------------------------------------------------------------------------

/// The 64-bit FNV-1a hash of a byte string.
pub open spec fn fnv1a(bytes: Seq<u8>) -> u64
    decreases bytes.len(),
{
    if bytes.len() == 0 {
        0xcbf29ce484222325u64
    } else {
        (fnv1a(bytes.drop_last()) ^ (bytes.last() as u64)).wrapping_mul(0x100000001b3u64)
    }
}

/// The low 52 bits of the FNV-1a hash of the UTF-8 bytes of `s`.
pub open spec fn hash52(s: Seq<char>) -> u64 {
    fnv1a(vstd::utf8::encode_utf8(s)) & 0xF_FFFF_FFFF_FFFFu64
}

/// The low 52 bits of the FNV-1a hash of the bytes of a string.
pub fn hash52_of(s: &str) -> (h: u64)
    ensures
        h == hash52(s@),
        h < 0x10_0000_0000_0000,
{
    let bytes = s.as_bytes();
    let mut hash: u64 = 0xcbf29ce484222325;
    let mut i: usize = 0;
    assert(bytes@.take(0) =~= Seq::<u8>::empty());
    while i < bytes.len()
        invariant
            i <= bytes@.len(),
            bytes@ == vstd::utf8::encode_utf8(s@),
            hash == fnv1a(bytes@.take(i as int)),
        decreases bytes@.len() - i,
    {
        assert(bytes@.take(i + 1).drop_last() =~= bytes@.take(i as int));
        hash = (hash ^ (bytes[i] as u64)).wrapping_mul(0x100000001b3);
        i = i + 1;
    }
    assert(bytes@.take(i as int) =~= bytes@);
    let h = hash & 0xF_FFFF_FFFF_FFFF;
    assert(h <= 0xF_FFFF_FFFF_FFFF) by (bit_vector)
        requires
            h == hash & 0xF_FFFF_FFFF_FFFFu64,
    ;
    h
}

/// The catalogue id of a Voiranime series: minus one minus the hash of its slug.
pub fn va_id_from(slug: &str) -> (id: i64)
    ensures
        id == -1 - hash52(slug@),
{
    let h = hash52_of(slug);
    -1 - (h as i64)
}

/// The entries made of the other sites' series get negative ids, which no
/// catalogue entry has: those of Voiranime and UniqueStream lie between
/// -2^52 and -1, those of Anime-Sama between -2^52 - 1 and -2, so that a
/// double holds each of them exactly.
pub proof fn lemma_site_ids_negative(key: Seq<char>)
    ensures
        -0x10_0000_0000_0000 <= -1 - hash52(key) <= -1,
        -0x10_0000_0000_0001 <= -2 - hash52(key) <= -2,
{
    let f = fnv1a(vstd::utf8::encode_utf8(key));
    assert(f & 0xF_FFFF_FFFF_FFFFu64 < 0x10_0000_0000_0000u64) by (bit_vector);
}

/// The catalogue id of a UniqueStream series: minus one minus the hash of its content id.
pub fn us_id_from(content_id: &str) -> (id: i64)
    ensures
        id == -1 - hash52(content_id@),
{
    let h = hash52_of(content_id);
    -1 - (h as i64)
}

/// The catalogue id of an Anime-Sama series: minus two minus the hash of its slug.
pub fn as_id_from(slug: &str) -> (id: i64)
    ensures
        id == -2 - hash52(slug@),
{
    let h = hash52_of(slug);
    -2 - (h as i64)
}

// ---------------------------------------------------------------------------
// Languages and episodes
// ---------------------------------------------------------------------------

/// The anime has an episode with a player in the original language.
pub open spec fn has_vo_spec(a: Root2) -> bool {
    exists|s: int, e: int|
        0 <= s < a.saisons@.len() && 0 <= e < a.saisons@[s].episodes@.len()
            && (#[trigger] a.saisons@[s].episodes@[e]).lang.vo.lecteurs@.len() > 0
}

/// The anime has an episode with a player in French.
pub open spec fn has_vf_spec(a: Root2) -> bool {
    exists|s: int, e: int|
        0 <= s < a.saisons@.len() && 0 <= e < a.saisons@[s].episodes@.len()
            && (#[trigger] a.saisons@[s].episodes@[e]).lang.vf.lecteurs@.len() > 0
}

/// Which languages the anime can be watched in: (original, French).
pub fn check_languages(anime: &Root2) -> (r: (bool, bool))
    ensures
        r.0 == has_vo_spec(*anime),
        r.1 == has_vf_spec(*anime),
{
    let mut has_vo = false;
    let mut has_vf = false;
    let mut s: usize = 0;
    while s < anime.saisons.len()
        invariant
            s <= anime.saisons@.len(),
            has_vo == exists|si: int, e: int|
                0 <= si < s && 0 <= e < anime.saisons@[si].episodes@.len()
                    && (#[trigger] anime.saisons@[si].episodes@[e]).lang.vo.lecteurs@.len() > 0,
            has_vf == exists|si: int, e: int|
                0 <= si < s && 0 <= e < anime.saisons@[si].episodes@.len()
                    && (#[trigger] anime.saisons@[si].episodes@[e]).lang.vf.lecteurs@.len() > 0,
        decreases anime.saisons@.len() - s,
    {
        let saison = &anime.saisons[s];
        let mut e: usize = 0;
        let ghost vo0 = has_vo;
        let ghost vf0 = has_vf;
        while e < saison.episodes.len()
            invariant
                s < anime.saisons@.len(),
                saison == anime.saisons@[s as int],
                e <= saison.episodes@.len(),
                has_vo == (vo0 || exists|k: int|
                    0 <= k < e && (#[trigger] saison.episodes@[k]).lang.vo.lecteurs@.len() > 0),
                has_vf == (vf0 || exists|k: int|
                    0 <= k < e && (#[trigger] saison.episodes@[k]).lang.vf.lecteurs@.len() > 0),
            decreases saison.episodes@.len() - e,
        {
            if saison.episodes[e].lang.vo.lecteurs.len() > 0 {
                has_vo = true;
            }
            if saison.episodes[e].lang.vf.lecteurs.len() > 0 {
                has_vf = true;
            }
            e = e + 1;
        }
        proof {
            if has_vo && !vo0 {
                let k = choose|k: int| 0 <= k < e && (#[trigger] saison.episodes@[k]).lang.vo.lecteurs@.len() > 0;
                assert(anime.saisons@[s as int].episodes@[k] == saison.episodes@[k]);
            }
            if has_vf && !vf0 {
                let k = choose|k: int| 0 <= k < e && (#[trigger] saison.episodes@[k]).lang.vf.lecteurs@.len() > 0;
                assert(anime.saisons@[s as int].episodes@[k] == saison.episodes@[k]);
            }
            assert forall|si: int, ee: int|
                0 <= si < s + 1 && 0 <= ee < anime.saisons@[si].episodes@.len()
                    && (#[trigger] anime.saisons@[si].episodes@[ee]).lang.vo.lecteurs@.len() > 0 implies has_vo by {
                if si == s {
                    assert(saison.episodes@[ee] == anime.saisons@[si].episodes@[ee]);
                }
            }
            assert forall|si: int, ee: int|
                0 <= si < s + 1 && 0 <= ee < anime.saisons@[si].episodes@.len()
                    && (#[trigger] anime.saisons@[si].episodes@[ee]).lang.vf.lecteurs@.len() > 0 implies has_vf by {
                if si == s {
                    assert(saison.episodes@[ee] == anime.saisons@[si].episodes@[ee]);
                }
            }
        }
        s = s + 1;
    }
    (has_vo, has_vf)
}

/// The number of episodes of the first `k` seasons.
pub open spec fn episodes_before(saisons: Seq<Saison>, k: int) -> int
    decreases k,
{
    if k <= 0 || k > saisons.len() {
        0
    } else {
        episodes_before(saisons, k - 1) + saisons[k - 1].episodes@.len()
    }
}

proof fn lemma_episodes_before_mono(saisons: Seq<Saison>, j: int, k: int)
    requires
        0 <= j <= k <= saisons.len(),
    ensures
        0 <= episodes_before(saisons, j) <= episodes_before(saisons, k),
    decreases k - j,
{
    if j < k {
        lemma_episodes_before_mono(saisons, j, k - 1);
    } else {
        lemma_episodes_before_nonneg(saisons, j);
    }
}

proof fn lemma_episodes_before_nonneg(saisons: Seq<Saison>, k: int)
    ensures
        episodes_before(saisons, k) >= 0,
    decreases k,
{
    if k > 0 && k <= saisons.len() {
        lemma_episodes_before_nonneg(saisons, k - 1);
    }
}

/// The number of episodes of an anime, all seasons together.
pub fn total_episodes(anime: &Root2) -> (n: usize)
    requires
        episodes_before(anime.saisons@, anime.saisons@.len() as int) <= usize::MAX,
    ensures
        n == episodes_before(anime.saisons@, anime.saisons@.len() as int),
{
    let mut n: usize = 0;
    let mut s: usize = 0;
    while s < anime.saisons.len()
        invariant
            s <= anime.saisons@.len(),
            n == episodes_before(anime.saisons@, s as int),
            episodes_before(anime.saisons@, anime.saisons@.len() as int) <= usize::MAX,
        decreases anime.saisons@.len() - s,
    {
        proof {
            lemma_episodes_before_mono(anime.saisons@, s + 1, anime.saisons@.len() as int);
        }
        n = n + anime.saisons[s].episodes.len();
        s = s + 1;
    }
    n
}

/// The number of an episode counted over all the seasons, from one.
pub fn absolute_episode_number(anime: &Root2, season_idx: usize, ep_idx: usize) -> (n: usize)
    requires
        season_idx <= anime.saisons@.len(),
        episodes_before(anime.saisons@, season_idx as int) + ep_idx + 1 <= usize::MAX,
    ensures
        n == episodes_before(anime.saisons@, season_idx as int) + ep_idx + 1,
{
    let mut n: usize = 0;
    let mut s: usize = 0;
    proof {
        lemma_episodes_before_nonneg(anime.saisons@, season_idx as int);
    }
    while s < season_idx
        invariant
            s <= season_idx <= anime.saisons@.len(),
            n == episodes_before(anime.saisons@, s as int),
            episodes_before(anime.saisons@, season_idx as int) + ep_idx + 1 <= usize::MAX,
        decreases season_idx - s,
    {
        proof {
            lemma_episodes_before_mono(anime.saisons@, s + 1, season_idx as int);
        }
        n = n + anime.saisons[s].episodes.len();
        s = s + 1;
    }
    n + ep_idx + 1
}

// ---------------------------------------------------------------------------
// Players
// ---------------------------------------------------------------------------

/// Names of players that never lead to a video.
pub open spec fn is_ignored_player(n: Seq<char>) -> bool {
    n == "hd"@ || n == "TELECHARGEMENT UNIQUE"@
}

/// The indices below `n` kept by `valid`, split into those also marked by
/// `pref` and the others, each part in increasing order.
pub open spec fn pref_split(valid: Seq<bool>, pref: Seq<bool>, n: int) -> (Seq<u64>, Seq<u64>)
    decreases n,
{
    if n <= 0 {
        (Seq::empty(), Seq::empty())
    } else {
        let (p, r) = pref_split(valid, pref, n - 1);
        let i = n - 1;
        if valid[i] && pref[i] {
            (p.push(i as u64), r)
        } else if valid[i] {
            (p, r.push(i as u64))
        } else {
            (p, r)
        }
    }
}

/// The kept indices, the preferred ones first, each group in increasing order.
pub open spec fn preferred_first(valid: Seq<bool>, pref: Seq<bool>) -> Seq<u64> {
    let (p, r) = pref_split(valid, pref, valid.len() as int);
    p + r
}

/// The kept indices, the preferred ones first, as `preferred_first` orders them.
pub fn order_preferred_first(valid: &Vec<bool>, pref: &Vec<bool>) -> (r: Vec<u64>)
    requires
        valid@.len() == pref@.len(),
        valid@.len() <= u64::MAX,
    ensures
        r@ == preferred_first(valid@, pref@),
{
    let mut p: Vec<u64> = Vec::new();
    let mut rest: Vec<u64> = Vec::new();
    let mut i: usize = 0;
    while i < valid.len()
        invariant
            i <= valid@.len(),
            valid@.len() == pref@.len(),
            valid@.len() <= u64::MAX,
            (p@, rest@) == pref_split(valid@, pref@, i as int),
        decreases valid@.len() - i,
    {
        if valid[i] && pref[i] {
            p.push(i as u64);
        } else if valid[i] {
            rest.push(i as u64);
        }
        i = i + 1;
    }
    let mut k: usize = 0;
    let ghost p0 = p@;
    while k < rest.len()
        invariant
            k <= rest@.len(),
            p@ == p0 + rest@.take(k as int),
        decreases rest@.len() - k,
    {
        p.push(rest[k]);
        k = k + 1;
        assert(p@ =~= p0 + rest@.take(k as int));
    }
    assert(rest@.take(k as int) =~= rest@);
    p
}

/// The player names of an episode in a language (`vf`, or anything else for
/// the original language).
pub open spec fn players_of(ep: Episode, lang: Seq<char>) -> Seq<String> {
    if lang == "vf"@ {
        ep.lang.vf.lecteurs@
    } else {
        ep.lang.vo.lecteurs@
    }
}

/// Which players are worth trying: all but the ignored ones.
pub open spec fn player_valid_flags(names: Seq<String>) -> Seq<bool> {
    Seq::new(names.len(), |i: int| !is_ignored_player(names[i]@))
}

/// Which names hold the preferred host, both in lower case.
pub open spec fn host_pref_flags(names: Seq<String>, preferred: Option<Seq<char>>) -> Seq<bool> {
    Seq::new(
        names.len(),
        |i: int|
            match preferred {
                Some(h) => contains(lowercase(names[i]@), lowercase(h)),
                None => false,
            },
    )
}

fn host_flags(names: &Vec<String>, preferred: Option<&str>) -> (r: Vec<bool>)
    ensures
        r@ == host_pref_flags(names@, match preferred {
            Some(h) => Some(h@),
            None => None,
        }),
{
    let mut r: Vec<bool> = Vec::new();
    let ghost pv: Option<Seq<char>> = match preferred {
        Some(h) => Some(h@),
        None => None,
    };
    let host_lower: Option<String> = match preferred {
        Some(h) => Some(to_lowercase(h)),
        None => None,
    };
    let mut i: usize = 0;
    while i < names.len()
        invariant
            i <= names@.len(),
            r@ == host_pref_flags(names@, pv).take(i as int),
            match host_lower {
                Some(hl) => pv matches Some(h) && hl@ == lowercase(h),
                None => pv is None,
            },
        decreases names@.len() - i,
    {
        let b = match &host_lower {
            Some(hl) => {
                let nl = to_lowercase(names[i].as_str());
                str_contains(nl.as_str(), hl.as_str())
            },
            None => false,
        };
        r.push(b);
        i = i + 1;
        assert(r@ =~= host_pref_flags(names@, pv).take(i as int));
    }
    assert(host_pref_flags(names@, pv).take(i as int) =~= host_pref_flags(names@, pv));
    r
}

proof fn lemma_pref_split_members(valid: Seq<bool>, pref: Seq<bool>, n: int)
    requires
        0 <= n <= valid.len(),
        valid.len() == pref.len(),
        n <= u64::MAX + 1,
    ensures
        ({
            let (p, r) = pref_split(valid, pref, n);
            &&& forall|x: u64| #[trigger] p.contains(x) <==> (x < n && valid[x as int] && pref[x as int])
            &&& forall|x: u64| #[trigger] r.contains(x) <==> (x < n && valid[x as int] && !pref[x as int])
            &&& forall|k: int| 0 <= k < p.len() ==> #[trigger] p[k] < n
        }),
    decreases n,
{
    if n > 0 {
        lemma_pref_split_members(valid, pref, n - 1);
        let (p0, r0) = pref_split(valid, pref, n - 1);
        let (p, r) = pref_split(valid, pref, n);
        let i = n - 1;
        if valid[i] && pref[i] {
            assert(p == p0.push(i as u64) && r == r0);
        } else if valid[i] {
            assert(p == p0 && r == r0.push(i as u64));
        } else {
            assert(p == p0 && r == r0);
        }
        assert forall|x: u64| #[trigger] p.contains(x) <==> (x < n && valid[x as int] && pref[x as int]) by {
            if p.contains(x) {
                let k = choose|k: int| 0 <= k < p.len() && p[k] == x;
                if k < p0.len() {
                    assert(p0[k] == p[k]);
                    assert(p0.contains(x));
                }
            }
            if x < n - 1 && valid[x as int] && pref[x as int] {
                assert(p0.contains(x));
                let k = choose|k: int| 0 <= k < p0.len() && p0[k] == x;
                assert(p.len() >= p0.len() && p[k] == p0[k]);
                assert(p[k] == x);
            }
            if x == n - 1 && valid[x as int] && pref[x as int] {
                assert(p[p0.len() as int] == x);
            }
            if x == n - 1 && p0.contains(x) {
                let k = choose|k: int| 0 <= k < p0.len() && p0[k] == x;
                assert(p0[k] < n - 1);
            }
        }
        assert forall|x: u64| #[trigger] r.contains(x) <==> (x < n && valid[x as int] && !pref[x as int]) by {
            if r.contains(x) {
                let k = choose|k: int| 0 <= k < r.len() && r[k] == x;
                if k < r0.len() {
                    assert(r0[k] == r[k]);
                    assert(r0.contains(x));
                }
            }
            if x < n - 1 && valid[x as int] && !pref[x as int] {
                assert(r0.contains(x));
                let k = choose|k: int| 0 <= k < r0.len() && r0[k] == x;
                assert(r.len() >= r0.len() && r[k] == r0[k]);
                assert(r[k] == x);
            }
            if x == n - 1 && valid[x as int] && !pref[x as int] {
                assert(r[r0.len() as int] == x);
            }
            if x == n - 1 && r0.contains(x) {
                let k = choose|k: int| 0 <= k < r0.len() && r0[k] == x;
                assert(r0.contains(x));
                assert(x < n - 1);
            }
        }
    }
}

proof fn lemma_concat_has(a: Seq<u64>, b: Seq<u64>, x: u64)
    ensures
        (a + b).contains(x) <==> (a.contains(x) || b.contains(x)),
{
    if a.contains(x) {
        let i = choose|i: int| 0 <= i < a.len() && a[i] == x;
        assert((a + b)[i] == x);
    }
    if b.contains(x) {
        let j = choose|j: int| 0 <= j < b.len() && b[j] == x;
        assert((a + b)[a.len() + j] == x);
    }
    if (a + b).contains(x) {
        let k = choose|k: int| 0 <= k < (a + b).len() && (a + b)[k] == x;
        if k < a.len() {
            assert(a[k] == x);
        } else {
            assert(b[k - a.len()] == x);
        }
    }
}

/// The players tried for an episode are exactly its players in the language
/// that are not named `hd` or `TELECHARGEMENT UNIQUE` (a download link, not a
/// player); those whose name holds the preferred host come first.
pub proof fn lemma_players_to_try(
    anime: Root2,
    season_idx: int,
    ep_idx: int,
    lang: Seq<char>,
    preferred: Option<Seq<char>>,
)
    requires
        0 <= season_idx < anime.saisons@.len(),
        0 <= ep_idx < anime.saisons@[season_idx].episodes@.len(),
        players_of(anime.saisons@[season_idx].episodes@[ep_idx], lang).len() <= u64::MAX,
    ensures
        ({
            let names = players_of(anime.saisons@[season_idx].episodes@[ep_idx], lang);
            let r = valid_lecteurs_spec(anime, season_idx, ep_idx, lang, preferred);
            &&& forall|x: u64|
                #[trigger] r.contains(x) <==> (x < names.len() && names[x as int]@ != "hd"@ && names[x as int]@
                    != "TELECHARGEMENT UNIQUE"@)
            &&& forall|a: int, b: int|
                #![trigger r[a], r[b]]
                0 <= a < b < r.len() && host_pref_flags(names, preferred)[r[b] as int] ==> host_pref_flags(
                    names,
                    preferred,
                )[r[a] as int]
        }),
{
    let names = players_of(anime.saisons@[season_idx].episodes@[ep_idx], lang);
    let valid = player_valid_flags(names);
    let pref = host_pref_flags(names, preferred);
    lemma_pref_split_members(valid, pref, valid.len() as int);
    let (p, rest) = pref_split(valid, pref, valid.len() as int);
    let r = p + rest;
    assert(r == valid_lecteurs_spec(anime, season_idx, ep_idx, lang, preferred));
    assert forall|x: u64| #[trigger] r.contains(x) <==> (x < names.len() && names[x as int]@ != "hd"@
        && names[x as int]@ != "TELECHARGEMENT UNIQUE"@) by {
        lemma_concat_has(p, rest, x);
    }
    assert forall|a: int, b: int|
        #![trigger r[a], r[b]]
        0 <= a < b < r.len() && pref[r[b] as int] implies pref[r[a] as int] by {
        if b >= p.len() {
            assert(r[b] == rest[b - p.len()]);
            assert(rest.contains(r[b]));
        } else {
            assert(r[a] == p[a]);
            assert(p.contains(r[a]));
        }
    }
}

/// The players of an episode to try for a download, in the order
/// `preferred_first` gives: none when the season or episode does not exist.
pub open spec fn valid_lecteurs_spec(
    anime: Root2,
    season_idx: int,
    ep_idx: int,
    lang: Seq<char>,
    preferred: Option<Seq<char>>,
) -> Seq<u64> {
    if 0 <= season_idx < anime.saisons@.len() && 0 <= ep_idx < anime.saisons@[season_idx].episodes@.len() {
        let names = players_of(anime.saisons@[season_idx].episodes@[ep_idx], lang);
        preferred_first(player_valid_flags(names), host_pref_flags(names, preferred))
    } else {
        Seq::empty()
    }
}

/// The players of an episode to try, as `valid_lecteurs_spec` orders them.
pub fn valid_lecteurs_for_host(
    anime: &Root2,
    season_idx: usize,
    ep_idx: usize,
    lang: &str,
    preferred_host: Option<&str>,
) -> (r: Vec<u64>)
    ensures
        r@ == valid_lecteurs_spec(*anime, season_idx as int, ep_idx as int, lang@, match preferred_host {
            Some(h) => Some(h@),
            None => None,
        }),
{
    if season_idx >= anime.saisons.len() {
        return Vec::new();
    }
    let saison = &anime.saisons[season_idx];
    if ep_idx >= saison.episodes.len() {
        return Vec::new();
    }
    let episode = &saison.episodes[ep_idx];
    let names = if str_eq(lang, "vf") {
        &episode.lang.vf.lecteurs
    } else {
        &episode.lang.vo.lecteurs
    };
    let mut valid: Vec<bool> = Vec::new();
    let mut i: usize = 0;
    while i < names.len()
        invariant
            i <= names@.len(),
            valid@ == player_valid_flags(names@).take(i as int),
        decreases names@.len() - i,
    {
        let n = names[i].as_str();
        valid.push(!(str_eq(n, "hd") || str_eq(n, "TELECHARGEMENT UNIQUE")));
        i = i + 1;
        assert(valid@ =~= player_valid_flags(names@).take(i as int));
    }
    assert(player_valid_flags(names@).take(i as int) =~= player_valid_flags(names@));
    let pref = host_flags(names, preferred_host);
    proof {
        vstd::std_specs::vec::axiom_spec_len(names);
    }
    order_preferred_first(&valid, &pref)
}

/// The order in which the Voiranime sources of an episode are tried: those
/// whose host, in lower case, holds the preferred host first, then the
/// others; the first source alone when none is known.
pub open spec fn va_source_order_spec(hosts: Seq<String>, preferred: Option<Seq<char>>) -> Seq<u64> {
    if hosts.len() == 0 {
        seq![0u64]
    } else {
        preferred_first(Seq::new(hosts.len(), |i: int| true), host_pref_flags(hosts, preferred))
    }
}

/// The order in which the Voiranime sources of an episode are tried, as
/// `va_source_order_spec` gives it; `hosts` are the hosts of the sources.
pub fn va_source_order(hosts: &Vec<String>, preferred_host: Option<&str>) -> (r: Vec<u64>)
    ensures
        r@ == va_source_order_spec(hosts@, match preferred_host {
            Some(h) => Some(h@),
            None => None,
        }),
{
    if hosts.len() == 0 {
        let mut v: Vec<u64> = Vec::new();
        v.push(0);
        assert(v@ =~= seq![0u64]);
        return v;
    }
    let mut valid: Vec<bool> = Vec::new();
    let mut i: usize = 0;
    while i < hosts.len()
        invariant
            i <= hosts@.len(),
            valid@ == Seq::new(hosts@.len(), |j: int| true).take(i as int),
        decreases hosts@.len() - i,
    {
        valid.push(true);
        i = i + 1;
        assert(valid@ =~= Seq::new(hosts@.len(), |j: int| true).take(i as int));
    }
    assert(Seq::new(hosts@.len(), |j: int| true).take(i as int) =~= Seq::new(hosts@.len(), |j: int| true));
    let pref = host_flags(hosts, preferred_host);
    proof {
        vstd::std_specs::vec::axiom_spec_len(hosts);
    }
    order_preferred_first(&valid, &pref)
}

/// The players left to try after some were tried, in the order first planned.
pub open spec fn remaining_spec(planned: Seq<u64>, attempted: Seq<u64>) -> Seq<u64>
    decreases planned.len(),
{
    if planned.len() == 0 {
        Seq::empty()
    } else {
        let r = remaining_spec(planned.drop_last(), attempted);
        if attempted.contains(planned.last()) {
            r
        } else {
            r.push(planned.last())
        }
    }
}

/// Moving to the next host never tries a player again: every player left was
/// planned and not tried, and every planned player that was not tried is left.
pub proof fn lemma_remaining_untried(planned: Seq<u64>, attempted: Seq<u64>)
    ensures
        forall|l: u64| #[trigger] remaining_spec(planned, attempted).contains(l) <==> (planned.contains(l)
            && !attempted.contains(l)),
    decreases planned.len(),
{
    if planned.len() > 0 {
        let d = planned.drop_last();
        lemma_remaining_untried(d, attempted);
        let r = remaining_spec(d, attempted);
        assert forall|l: u64| #[trigger] remaining_spec(planned, attempted).contains(l) <==> (planned.contains(l)
            && !attempted.contains(l)) by {
            assert(planned == d.push(planned.last()));
            if planned.contains(l) && !attempted.contains(l) {
                let k = choose|k: int| 0 <= k < planned.len() && planned[k] == l;
                if k < d.len() {
                    assert(d[k] == l);
                    assert(d.contains(l));
                }
            }
            if d.contains(l) {
                let k = choose|k: int| 0 <= k < d.len() && d[k] == l;
                assert(planned[k] == l);
            }
            if !attempted.contains(planned.last()) {
                assert(r.push(planned.last())[r.len() as int] == planned.last());
                if r.contains(l) {
                    let k = choose|k: int| 0 <= k < r.len() && r[k] == l;
                    assert(r.push(planned.last())[k] == l);
                }
                if r.push(planned.last()).contains(l) {
                    let k = choose|k: int| 0 <= k < r.len() + 1 && r.push(planned.last())[k] == l;
                    if k < r.len() {
                        assert(r[k] == l);
                    }
                }
            }
        }
    }
}

/// The players still to try: those planned that were not tried, in order.
pub fn remaining_lecteurs(planned: &Vec<u64>, attempted: &Vec<u64>) -> (r: Vec<u64>)
    ensures
        r@ == remaining_spec(planned@, attempted@),
{
    let mut r: Vec<u64> = Vec::new();
    let mut i: usize = 0;
    assert(planned@.take(0) =~= Seq::<u64>::empty());
    while i < planned.len()
        invariant
            i <= planned@.len(),
            r@ == remaining_spec(planned@.take(i as int), attempted@),
        decreases planned@.len() - i,
    {
        let l = planned[i];
        let mut j: usize = 0;
        let mut seen = false;
        while j < attempted.len()
            invariant
                j <= attempted@.len(),
                seen == exists|w: int| 0 <= w < j && #[trigger] attempted@[w] == l,
            decreases attempted@.len() - j,
        {
            if attempted[j] == l {
                seen = true;
            }
            j = j + 1;
        }
        assert(seen == attempted@.contains(l));
        assert(planned@.take(i + 1).drop_last() =~= planned@.take(i as int));
        if !seen {
            r.push(l);
        }
        i = i + 1;
    }
    assert(planned@.take(i as int) =~= planned@);
    r
}

/// What is asked of the other sources for an anime: its title, and as
/// alternatives its original title when it differs and is not empty, then
/// its Japanese title when it has one.
pub open spec fn consumet_query_spec(a: Root2) -> (Seq<char>, Seq<Seq<char>>) {
    let first: Seq<Seq<char>> = if a.title_o@.len() > 0 && a.title_o@ != a.title@ {
        seq![a.title_o@]
    } else {
        Seq::empty()
    };
    let second: Seq<Seq<char>> = match a.titles.ja_jp {
        Some(j) => if j@.len() > 0 {
            seq![j@]
        } else {
            Seq::empty()
        },
        None => Seq::empty(),
    };
    (a.title@, first + second)
}

/// What is asked of the other sources for an anime, as `consumet_query_spec` gives it.
pub fn collect_consumet_query(anime: &Root2) -> (r: (String, Vec<String>))
    ensures
        (r.0@, r.1.deep_view()) == consumet_query_spec(*anime),
{
    let mut alts: Vec<String> = Vec::new();
    if !anime.title_o.as_str().is_empty() && !str_eq(anime.title_o.as_str(), anime.title.as_str()) {
        alts.push(owned(anime.title_o.as_str()));
    }
    let ghost mid = alts.deep_view();
    match &anime.titles.ja_jp {
        Some(ja) => {
            if !ja.as_str().is_empty() {
                alts.push(owned(ja.as_str()));
            }
        },
        None => {},
    }
    assert(alts.deep_view() =~= consumet_query_spec(*anime).1);
    (owned(anime.title.as_str()), alts)
}

} // verus!
