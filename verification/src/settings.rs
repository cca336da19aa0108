//! The user's settings and statuses: their defaults, how they are stored as
//! text in the settings table and read back, and their labels.
use vstd::prelude::*;
use crate::num::{decimal, decimal_string, parse_u64, parse_u64_str};
use crate::text::{ascii_upper, chars_of, owned, str_eq};

verus! {

// ---------------------------------------------------------------------------
// Watching status
// ---------------------------------------------------------------------------

/// Where the user stands with an anime.
#[derive(Clone, Copy, PartialEq, Eq, Structural, Debug, Hash)]
pub enum UserStatus {
    AVoir,
    EnCours,
    Pause,
    Termine,
    Abandonne,
}

/// The key a status is stored under.
pub open spec fn status_key(s: UserStatus) -> Seq<char> {
    match s {
        UserStatus::AVoir => "a_voir"@,
        UserStatus::EnCours => "en_cours"@,
        UserStatus::Pause => "pause"@,
        UserStatus::Termine => "termine"@,
        UserStatus::Abandonne => "abandonne"@,
    }
}

/// The status stored under a key, if any.
pub open spec fn status_of_key(k: Seq<char>) -> Option<UserStatus> {
    if k == "a_voir"@ {
        Some(UserStatus::AVoir)
    } else if k == "en_cours"@ {
        Some(UserStatus::EnCours)
    } else if k == "pause"@ {
        Some(UserStatus::Pause)
    } else if k == "termine"@ {
        Some(UserStatus::Termine)
    } else if k == "abandonne"@ {
        Some(UserStatus::Abandonne)
    } else {
        None
    }
}

/// The label shown for a status.
pub open spec fn status_label(s: UserStatus) -> Seq<char> {
    match s {
        UserStatus::AVoir => "À voir"@,
        UserStatus::EnCours => "En cours"@,
        UserStatus::Pause => "Pause"@,
        UserStatus::Termine => "Terminé"@,
        UserStatus::Abandonne => "Abandonné"@,
    }
}

impl UserStatus {
    /// The key the status is stored under.
    pub fn as_db_key(self) -> (r: &'static str)
        ensures
            r@ == status_key(self),
    {
        match self {
            UserStatus::AVoir => "a_voir",
            UserStatus::EnCours => "en_cours",
            UserStatus::Pause => "pause",
            UserStatus::Termine => "termine",
            UserStatus::Abandonne => "abandonne",
        }
    }

    /// The label shown for the status.
    pub fn label(self) -> (r: &'static str)
        ensures
            r@ == status_label(self),
    {
        match self {
            UserStatus::AVoir => "À voir",
            UserStatus::EnCours => "En cours",
            UserStatus::Pause => "Pause",
            UserStatus::Termine => "Terminé",
            UserStatus::Abandonne => "Abandonné",
        }
    }

    /// Every status, in the order they are offered.
    pub fn all() -> (r: [UserStatus; 5])
        ensures
            r@ == seq![
                UserStatus::AVoir,
                UserStatus::EnCours,
                UserStatus::Pause,
                UserStatus::Termine,
                UserStatus::Abandonne,
            ],
    {
        let r = [
            UserStatus::AVoir,
            UserStatus::EnCours,
            UserStatus::Pause,
            UserStatus::Termine,
            UserStatus::Abandonne,
        ];
        assert(r@ =~= seq![
            UserStatus::AVoir,
            UserStatus::EnCours,
            UserStatus::Pause,
            UserStatus::Termine,
            UserStatus::Abandonne,
        ]);
        r
    }

    /// The status stored under a key; `None` for an unknown key.
    pub fn from_db_key(s: &str) -> (r: Option<UserStatus>)
        ensures
            r == status_of_key(s@),
    {
        if str_eq(s, "a_voir") {
            Some(UserStatus::AVoir)
        } else if str_eq(s, "en_cours") {
            Some(UserStatus::EnCours)
        } else if str_eq(s, "pause") {
            Some(UserStatus::Pause)
        } else if str_eq(s, "termine") {
            Some(UserStatus::Termine)
        } else if str_eq(s, "abandonne") {
            Some(UserStatus::Abandonne)
        } else {
            None
        }
    }
}

/// A stored status reads back as itself, and a key that reads as a status is
/// the key that status is stored under.
pub proof fn lemma_status_key_roundtrip(s: UserStatus, k: Seq<char>)
    ensures
        status_of_key(status_key(s)) == Some(s),
        status_of_key(k) matches Some(t) ==> status_key(t) == k,
{
    reveal_strlit("a_voir");
    reveal_strlit("en_cours");
    reveal_strlit("pause");
    reveal_strlit("termine");
    reveal_strlit("abandonne");
    assert("a_voir"@.len() == 6);
    assert("en_cours"@.len() == 8);
    assert("pause"@.len() == 5);
    assert("termine"@.len() == 7);
    assert("abandonne"@.len() == 9);
}

// ---------------------------------------------------------------------------
// Sort orders
// ---------------------------------------------------------------------------

/// The orders the list of anime can be sorted in.
#[derive(Clone, Copy, PartialEq, Eq, Structural, Debug)]
pub enum SortMode {
    TitleAlpha,
    StartDate,
    UserRating,
    SiteRating,
    EpisodesCount,
    SeasonsCount,
}

/// The label of a sort order.
pub open spec fn sort_label(m: SortMode) -> Seq<char> {
    match m {
        SortMode::TitleAlpha => "Titre"@,
        SortMode::StartDate => "Date sortie"@,
        SortMode::UserRating => "Ma note"@,
        SortMode::SiteRating => "Note site"@,
        SortMode::EpisodesCount => "Nb épisodes"@,
        SortMode::SeasonsCount => "Nb saisons"@,
    }
}

impl SortMode {
    /// The label of the sort order.
    pub fn label(self) -> (r: &'static str)
        ensures
            r@ == sort_label(self),
    {
        match self {
            SortMode::TitleAlpha => "Titre",
            SortMode::StartDate => "Date sortie",
            SortMode::UserRating => "Ma note",
            SortMode::SiteRating => "Note site",
            SortMode::EpisodesCount => "Nb épisodes",
            SortMode::SeasonsCount => "Nb saisons",
        }
    }

    /// Every sort order, in the order they are offered.
    pub fn all() -> (r: [SortMode; 6])
        ensures
            r@ == seq![
                SortMode::TitleAlpha,
                SortMode::StartDate,
                SortMode::UserRating,
                SortMode::SiteRating,
                SortMode::EpisodesCount,
                SortMode::SeasonsCount,
            ],
    {
        let r = [
            SortMode::TitleAlpha,
            SortMode::StartDate,
            SortMode::UserRating,
            SortMode::SiteRating,
            SortMode::EpisodesCount,
            SortMode::SeasonsCount,
        ];
        assert(r@ =~= seq![
            SortMode::TitleAlpha,
            SortMode::StartDate,
            SortMode::UserRating,
            SortMode::SiteRating,
            SortMode::EpisodesCount,
            SortMode::SeasonsCount,
        ]);
        r
    }
}

// ---------------------------------------------------------------------------
// Settings
// ---------------------------------------------------------------------------

/// The user's settings.
pub struct AppSettings {
    pub max_concurrent_downloads: usize,
    pub max_concurrent_extractions: usize,
    pub preferred_lecteur_host: String,
    pub download_dir: String,
    pub chrome_headless: bool,
    pub naming_format: String,
    pub skip_existing: bool,
    pub theme_dark: bool,
    pub notifications_enabled: bool,
    pub sidecar_warmup: bool,
    pub consumet_base_url: String,
    pub consumet_provider: String,
    pub consumet_enabled: bool,
    pub consumet_auto_fallback: bool,
    pub anikuro_enabled: bool,
    pub anikuro_provider: String,
    pub anikuro_auto_fallback: bool,
    pub anikuro_prefer_dub: bool,
}

impl Default for AppSettings {
    fn default() -> (r: Self)
        ensures
            r.max_concurrent_downloads == 4,
            r.max_concurrent_extractions == 1,
            r.preferred_lecteur_host@ == ""@,
            r.download_dir@ == ""@,
            r.chrome_headless == false,
            r.naming_format@ == "plex"@,
            r.skip_existing == true,
            r.theme_dark == true,
            r.notifications_enabled == true,
            r.sidecar_warmup == false,
            r.consumet_base_url@ == ""@,
            r.consumet_provider@ == "gogoanime"@,
            r.consumet_enabled == false,
            r.consumet_auto_fallback == false,
            r.anikuro_enabled == true,
            r.anikuro_provider@ == "animepahe"@,
            r.anikuro_auto_fallback == true,
            r.anikuro_prefer_dub == false,
    {
        AppSettings {
            max_concurrent_downloads: 4,
            max_concurrent_extractions: 1,
            preferred_lecteur_host: owned(""),
            download_dir: owned(""),
            chrome_headless: false,
            naming_format: owned("plex"),
            skip_existing: true,
            theme_dark: true,
            notifications_enabled: true,
            sidecar_warmup: false,
            consumet_base_url: owned(""),
            consumet_provider: owned("gogoanime"),
            consumet_enabled: false,
            consumet_auto_fallback: false,
            anikuro_enabled: true,
            anikuro_provider: owned("animepahe"),
            anikuro_auto_fallback: true,
            anikuro_prefer_dub: false,
        }
    }
}

/// Two settings hold the same values.
pub open spec fn same_settings(a: AppSettings, b: AppSettings) -> bool {
    &&& a.max_concurrent_downloads == b.max_concurrent_downloads
    &&& a.max_concurrent_extractions == b.max_concurrent_extractions
    &&& a.preferred_lecteur_host@ == b.preferred_lecteur_host@
    &&& a.download_dir@ == b.download_dir@
    &&& a.chrome_headless == b.chrome_headless
    &&& a.naming_format@ == b.naming_format@
    &&& a.skip_existing == b.skip_existing
    &&& a.theme_dark == b.theme_dark
    &&& a.notifications_enabled == b.notifications_enabled
    &&& a.sidecar_warmup == b.sidecar_warmup
    &&& a.consumet_base_url@ == b.consumet_base_url@
    &&& a.consumet_provider@ == b.consumet_provider@
    &&& a.consumet_enabled == b.consumet_enabled
    &&& a.consumet_auto_fallback == b.consumet_auto_fallback
    &&& a.anikuro_enabled == b.anikuro_enabled
    &&& a.anikuro_provider@ == b.anikuro_provider@
    &&& a.anikuro_auto_fallback == b.anikuro_auto_fallback
    &&& a.anikuro_prefer_dub == b.anikuro_prefer_dub
}

/// The settings being edited differ from those saved: the window shows
/// unsaved changes and offers to save them.
pub fn settings_dirty(pending: &AppSettings, saved: &AppSettings) -> (b: bool)
    ensures
        b == !same_settings(*pending, *saved),
{
    pending.max_concurrent_downloads != saved.max_concurrent_downloads
        || pending.max_concurrent_extractions != saved.max_concurrent_extractions
        || !str_eq(pending.preferred_lecteur_host.as_str(), saved.preferred_lecteur_host.as_str())
        || !str_eq(pending.download_dir.as_str(), saved.download_dir.as_str())
        || pending.chrome_headless != saved.chrome_headless
        || !str_eq(pending.naming_format.as_str(), saved.naming_format.as_str())
        || pending.skip_existing != saved.skip_existing
        || pending.theme_dark != saved.theme_dark
        || pending.notifications_enabled != saved.notifications_enabled
        || pending.sidecar_warmup != saved.sidecar_warmup
        || !str_eq(pending.consumet_base_url.as_str(), saved.consumet_base_url.as_str())
        || !str_eq(pending.consumet_provider.as_str(), saved.consumet_provider.as_str())
        || pending.consumet_enabled != saved.consumet_enabled
        || pending.consumet_auto_fallback != saved.consumet_auto_fallback
        || pending.anikuro_enabled != saved.anikuro_enabled
        || !str_eq(pending.anikuro_provider.as_str(), saved.anikuro_provider.as_str())
        || pending.anikuro_auto_fallback != saved.anikuro_auto_fallback
        || pending.anikuro_prefer_dub != saved.anikuro_prefer_dub
}

/// The rows of the settings table, as plain values.
pub open spec fn rows_view(rows: Seq<(String, String)>) -> Seq<(Seq<char>, Seq<char>)> {
    Seq::new(rows.len(), |i: int| (rows[i].0@, rows[i].1@))
}

/// The value stored under `key`: that of the first row with that key.
pub open spec fn setting_lookup(rows: Seq<(Seq<char>, Seq<char>)>, key: Seq<char>) -> Option<Seq<char>>
    decreases rows.len(),
{
    if rows.len() == 0 {
        None
    } else if rows[0].0 == key {
        Some(rows[0].1)
    } else {
        setting_lookup(rows.drop_first(), key)
    }
}

/// The value stored under a key, as `setting_lookup` finds it.
pub fn find_setting(rows: &Vec<(String, String)>, key: &str) -> (r: Option<String>)
    ensures
        r.deep_view() == setting_lookup(rows_view(rows@), key@),
{
    let ghost rv = rows_view(rows@);
    let mut i: usize = 0;
    assert(rv.skip(0) =~= rv);
    while i < rows.len()
        invariant
            i <= rows@.len(),
            rv == rows_view(rows@),
            setting_lookup(rv, key@) == setting_lookup(rv.skip(i as int), key@),
        decreases rows@.len() - i,
    {
        assert(rv.skip(i as int).drop_first() =~= rv.skip(i + 1));
        assert(rv.skip(i as int)[0] == rv[i as int]);
        if str_eq(rows[i].0.as_str(), key) {
            return Some(owned(rows[i].1.as_str()));
        }
        i = i + 1;
    }
    None
}

/// What `str::parse::<usize>` accepts and returns.
pub open spec fn parse_usize(s: Seq<char>) -> Option<usize> {
    match parse_u64(s) {
        Some(n) => if n <= usize::MAX {
            Some(n as usize)
        } else {
            None
        },
        None => None,
    }
}

/// Parses a string as `str::parse::<usize>` does.
pub fn parse_usize_str(s: &str) -> (r: Option<usize>)
    ensures
        r == parse_usize(s@),
{
    match parse_u64_str(s) {
        Some(n) => if n <= usize::MAX as u64 {
            Some(n as usize)
        } else {
            None
        },
        None => None,
    }
}

/// `a` and `b` are equal but for the case of ASCII letters.
pub open spec fn eq_ignore_ascii_case(a: Seq<char>, b: Seq<char>) -> bool {
    a.len() == b.len() && forall|i: int| 0 <= i < a.len() ==> #[trigger] ascii_upper(a[i]) == ascii_upper(b[i])
}

/// `a` and `b` are equal but for the case of ASCII letters.
pub fn str_eq_ignore_ascii_case(a: &str, b: &str) -> (r: bool)
    ensures
        r == eq_ignore_ascii_case(a@, b@),
{
    let av = chars_of(a);
    let bv = chars_of(b);
    if av.len() != bv.len() {
        return false;
    }
    let mut i: usize = 0;
    while i < av.len()
        invariant
            i <= av@.len(),
            av@.len() == bv@.len(),
            av@ == a@,
            bv@ == b@,
            forall|j: int| 0 <= j < i ==> #[trigger] ascii_upper(av@[j]) == ascii_upper(bv@[j]),
        decreases av@.len() - i,
    {
        if crate::text::char_ascii_upper(av[i]) != crate::text::char_ascii_upper(bv[i]) {
            return false;
        }
        i = i + 1;
    }
    true
}

/// How a flag is stored.
pub open spec fn flag(b: bool) -> Seq<char> {
    if b {
        "1"@
    } else {
        "0"@
    }
}

/// `r` is what the settings read from the rows `stored` hold, each value
/// absent or unreadable taken from the defaults: numbers in decimal, flags as `1`
/// (for the headless flag also `true` in any case), texts as they are.
pub open spec fn loaded_from(stored: Seq<(Seq<char>, Seq<char>)>, r: AppSettings) -> bool {
    &&& r.max_concurrent_downloads == match setting_lookup(stored, "max_concurrent_downloads"@) {
        Some(v) => match parse_usize(v) {
            Some(x) => x,
            None => 4,
        },
        None => 4,
    }
    &&& r.max_concurrent_extractions == match setting_lookup(stored, "max_concurrent_extractions"@) {
        Some(v) => match parse_usize(v) {
            Some(x) => x,
            None => 1,
        },
        None => 1,
    }
    &&& r.preferred_lecteur_host@ == match setting_lookup(stored, "preferred_lecteur_host"@) {
        Some(v) => v,
        None => ""@,
    }
    &&& r.download_dir@ == match setting_lookup(stored, "download_dir"@) {
        Some(v) => v,
        None => ""@,
    }
    &&& r.chrome_headless == match setting_lookup(stored, "chrome_headless"@) {
        Some(v) => v == "1"@ || eq_ignore_ascii_case(v, "true"@),
        None => false,
    }
    &&& r.naming_format@ == match setting_lookup(stored, "naming_format"@) {
        Some(v) => v,
        None => "plex"@,
    }
    &&& r.skip_existing == match setting_lookup(stored, "skip_existing"@) {
        Some(v) => v == "1"@,
        None => true,
    }
    &&& r.theme_dark == match setting_lookup(stored, "theme_dark"@) {
        Some(v) => v == "1"@,
        None => true,
    }
    &&& r.notifications_enabled == match setting_lookup(stored, "notifications_enabled"@) {
        Some(v) => v == "1"@,
        None => true,
    }
    &&& r.sidecar_warmup == match setting_lookup(stored, "sidecar_warmup"@) {
        Some(v) => v == "1"@,
        None => false,
    }
    &&& r.consumet_base_url@ == match setting_lookup(stored, "consumet_base_url"@) {
        Some(v) => v,
        None => ""@,
    }
    &&& r.consumet_provider@ == match setting_lookup(stored, "consumet_provider"@) {
        Some(v) => v,
        None => "gogoanime"@,
    }
    &&& r.consumet_enabled == match setting_lookup(stored, "consumet_enabled"@) {
        Some(v) => v == "1"@,
        None => false,
    }
    &&& r.consumet_auto_fallback == match setting_lookup(stored, "consumet_auto_fallback"@) {
        Some(v) => v == "1"@,
        None => false,
    }
    &&& r.anikuro_enabled == match setting_lookup(stored, "anikuro_enabled"@) {
        Some(v) => v == "1"@,
        None => true,
    }
    &&& r.anikuro_provider@ == match setting_lookup(stored, "anikuro_provider"@) {
        Some(v) => v,
        None => "animepahe"@,
    }
    &&& r.anikuro_auto_fallback == match setting_lookup(stored, "anikuro_auto_fallback"@) {
        Some(v) => v == "1"@,
        None => true,
    }
    &&& r.anikuro_prefer_dub == match setting_lookup(stored, "anikuro_prefer_dub"@) {
        Some(v) => v == "1"@,
        None => false,
    }
}

/// The rows the settings are stored as, one per setting.
pub open spec fn saved_rows(s: AppSettings) -> Seq<(Seq<char>, Seq<char>)> {
    seq![
        ("max_concurrent_downloads"@, decimal(s.max_concurrent_downloads as nat)),
        ("max_concurrent_extractions"@, decimal(s.max_concurrent_extractions as nat)),
        ("preferred_lecteur_host"@, s.preferred_lecteur_host@),
        ("download_dir"@, s.download_dir@),
        ("chrome_headless"@, flag(s.chrome_headless)),
        ("naming_format"@, s.naming_format@),
        ("skip_existing"@, flag(s.skip_existing)),
        ("theme_dark"@, flag(s.theme_dark)),
        ("notifications_enabled"@, flag(s.notifications_enabled)),
        ("sidecar_warmup"@, flag(s.sidecar_warmup)),
        ("consumet_base_url"@, s.consumet_base_url@),
        ("consumet_provider"@, s.consumet_provider@),
        ("consumet_enabled"@, flag(s.consumet_enabled)),
        ("consumet_auto_fallback"@, flag(s.consumet_auto_fallback)),
        ("anikuro_enabled"@, flag(s.anikuro_enabled)),
        ("anikuro_provider"@, s.anikuro_provider@),
        ("anikuro_auto_fallback"@, flag(s.anikuro_auto_fallback)),
        ("anikuro_prefer_dub"@, flag(s.anikuro_prefer_dub))
    ]
}

impl AppSettings {
    /// The settings that the rows of the settings table hold, the defaults
    /// standing in for what is missing or unreadable.
    pub fn load(stored: &Vec<(String, String)>) -> (r: Self)
        ensures
            loaded_from(rows_view(stored@), r),
    {
        let d = AppSettings::default();
        let max_concurrent_downloads = match find_setting(stored, "max_concurrent_downloads") {
            Some(v) => match parse_usize_str(v.as_str()) {
                Some(x) => x,
                None => d.max_concurrent_downloads,
            },
            None => d.max_concurrent_downloads,
        };
        let max_concurrent_extractions = match find_setting(stored, "max_concurrent_extractions") {
            Some(v) => match parse_usize_str(v.as_str()) {
                Some(x) => x,
                None => d.max_concurrent_extractions,
            },
            None => d.max_concurrent_extractions,
        };
        let preferred_lecteur_host = match find_setting(stored, "preferred_lecteur_host") {
            Some(v) => v,
            None => owned(d.preferred_lecteur_host.as_str()),
        };
        let download_dir = match find_setting(stored, "download_dir") {
            Some(v) => v,
            None => owned(d.download_dir.as_str()),
        };
        let chrome_headless = match find_setting(stored, "chrome_headless") {
            Some(v) => str_eq(v.as_str(), "1") || str_eq_ignore_ascii_case(v.as_str(), "true"),
            None => d.chrome_headless,
        };
        let naming_format = match find_setting(stored, "naming_format") {
            Some(v) => v,
            None => owned(d.naming_format.as_str()),
        };
        let skip_existing = match find_setting(stored, "skip_existing") {
            Some(v) => str_eq(v.as_str(), "1"),
            None => d.skip_existing,
        };
        let theme_dark = match find_setting(stored, "theme_dark") {
            Some(v) => str_eq(v.as_str(), "1"),
            None => d.theme_dark,
        };
        let notifications_enabled = match find_setting(stored, "notifications_enabled") {
            Some(v) => str_eq(v.as_str(), "1"),
            None => d.notifications_enabled,
        };
        let sidecar_warmup = match find_setting(stored, "sidecar_warmup") {
            Some(v) => str_eq(v.as_str(), "1"),
            None => d.sidecar_warmup,
        };
        let consumet_base_url = match find_setting(stored, "consumet_base_url") {
            Some(v) => v,
            None => owned(d.consumet_base_url.as_str()),
        };
        let consumet_provider = match find_setting(stored, "consumet_provider") {
            Some(v) => v,
            None => owned(d.consumet_provider.as_str()),
        };
        let consumet_enabled = match find_setting(stored, "consumet_enabled") {
            Some(v) => str_eq(v.as_str(), "1"),
            None => d.consumet_enabled,
        };
        let consumet_auto_fallback = match find_setting(stored, "consumet_auto_fallback") {
            Some(v) => str_eq(v.as_str(), "1"),
            None => d.consumet_auto_fallback,
        };
        let anikuro_enabled = match find_setting(stored, "anikuro_enabled") {
            Some(v) => str_eq(v.as_str(), "1"),
            None => d.anikuro_enabled,
        };
        let anikuro_provider = match find_setting(stored, "anikuro_provider") {
            Some(v) => v,
            None => owned(d.anikuro_provider.as_str()),
        };
        let anikuro_auto_fallback = match find_setting(stored, "anikuro_auto_fallback") {
            Some(v) => str_eq(v.as_str(), "1"),
            None => d.anikuro_auto_fallback,
        };
        let anikuro_prefer_dub = match find_setting(stored, "anikuro_prefer_dub") {
            Some(v) => str_eq(v.as_str(), "1"),
            None => d.anikuro_prefer_dub,
        };
        AppSettings {
            max_concurrent_downloads,
            max_concurrent_extractions,
            preferred_lecteur_host,
            download_dir,
            chrome_headless,
            naming_format,
            skip_existing,
            theme_dark,
            notifications_enabled,
            sidecar_warmup,
            consumet_base_url,
            consumet_provider,
            consumet_enabled,
            consumet_auto_fallback,
            anikuro_enabled,
            anikuro_provider,
            anikuro_auto_fallback,
            anikuro_prefer_dub,
        }
    }

    /// The rows the settings are stored as, in the order `saved_rows` lists them.
    pub fn save(&self) -> (r: Vec<(String, String)>)
        ensures
            rows_view(r@) == saved_rows(*self),
    {
        let mut out: Vec<(String, String)> = Vec::new();
        out.push((owned("max_concurrent_downloads"), decimal_string(self.max_concurrent_downloads as u64)));
        out.push((owned("max_concurrent_extractions"), decimal_string(self.max_concurrent_extractions as u64)));
        out.push((owned("preferred_lecteur_host"), owned(self.preferred_lecteur_host.as_str())));
        out.push((owned("download_dir"), owned(self.download_dir.as_str())));
        out.push((owned("chrome_headless"), owned(if self.chrome_headless { "1" } else { "0" })));
        out.push((owned("naming_format"), owned(self.naming_format.as_str())));
        out.push((owned("skip_existing"), owned(if self.skip_existing { "1" } else { "0" })));
        out.push((owned("theme_dark"), owned(if self.theme_dark { "1" } else { "0" })));
        out.push((owned("notifications_enabled"), owned(if self.notifications_enabled { "1" } else { "0" })));
        out.push((owned("sidecar_warmup"), owned(if self.sidecar_warmup { "1" } else { "0" })));
        out.push((owned("consumet_base_url"), owned(self.consumet_base_url.as_str())));
        out.push((owned("consumet_provider"), owned(self.consumet_provider.as_str())));
        out.push((owned("consumet_enabled"), owned(if self.consumet_enabled { "1" } else { "0" })));
        out.push((owned("consumet_auto_fallback"), owned(if self.consumet_auto_fallback { "1" } else { "0" })));
        out.push((owned("anikuro_enabled"), owned(if self.anikuro_enabled { "1" } else { "0" })));
        out.push((owned("anikuro_provider"), owned(self.anikuro_provider.as_str())));
        out.push((owned("anikuro_auto_fallback"), owned(if self.anikuro_auto_fallback { "1" } else { "0" })));
        out.push((owned("anikuro_prefer_dub"), owned(if self.anikuro_prefer_dub { "1" } else { "0" })));
        assert(rows_view(out@) =~= saved_rows(*self));
        out
    }
}


/// The value stored under the key of row `i` is that row's when no earlier row has that key.
proof fn lemma_lookup_at(rows: Seq<(Seq<char>, Seq<char>)>, key: Seq<char>, i: int)
    requires
        0 <= i < rows.len(),
        rows[i].0 == key,
        forall|j: int| 0 <= j < i ==> #[trigger] rows[j].0 != key,
    ensures
        setting_lookup(rows, key) == Some(rows[i].1),
    decreases i,
{
    if i > 0 {
        assert(rows[0].0 != key);
        let d = rows.drop_first();
        assert forall|j: int| 0 <= j < i - 1 implies #[trigger] d[j].0 != key by {
            assert(d[j] == rows[j + 1]);
        }
        lemma_lookup_at(d, key, i - 1);
    }
}

/// The keys of the stored settings are all different.
proof fn lemma_setting_keys_distinct()
    ensures
        forall|i: int, j: int| 0 <= i < j < 18 ==> #[trigger] setting_keys()[i] != #[trigger] setting_keys()[j],
{
    reveal_strlit("max_concurrent_downloads");
    reveal_strlit("max_concurrent_extractions");
    reveal_strlit("preferred_lecteur_host");
    reveal_strlit("download_dir");
    reveal_strlit("chrome_headless");
    reveal_strlit("naming_format");
    reveal_strlit("skip_existing");
    reveal_strlit("theme_dark");
    reveal_strlit("notifications_enabled");
    reveal_strlit("sidecar_warmup");
    reveal_strlit("consumet_base_url");
    reveal_strlit("consumet_provider");
    reveal_strlit("consumet_enabled");
    reveal_strlit("consumet_auto_fallback");
    reveal_strlit("anikuro_enabled");
    reveal_strlit("anikuro_provider");
    reveal_strlit("anikuro_auto_fallback");
    reveal_strlit("anikuro_prefer_dub");
    assert("max_concurrent_downloads"@.len() != "max_concurrent_extractions"@.len());
    assert("max_concurrent_downloads"@.len() != "preferred_lecteur_host"@.len());
    assert("max_concurrent_downloads"@.len() != "download_dir"@.len());
    assert("max_concurrent_downloads"@.len() != "chrome_headless"@.len());
    assert("max_concurrent_downloads"@.len() != "naming_format"@.len());
    assert("max_concurrent_downloads"@.len() != "skip_existing"@.len());
    assert("max_concurrent_downloads"@.len() != "theme_dark"@.len());
    assert("max_concurrent_downloads"@.len() != "notifications_enabled"@.len());
    assert("max_concurrent_downloads"@.len() != "sidecar_warmup"@.len());
    assert("max_concurrent_downloads"@.len() != "consumet_base_url"@.len());
    assert("max_concurrent_downloads"@.len() != "consumet_provider"@.len());
    assert("max_concurrent_downloads"@.len() != "consumet_enabled"@.len());
    assert("max_concurrent_downloads"@.len() != "consumet_auto_fallback"@.len());
    assert("max_concurrent_downloads"@.len() != "anikuro_enabled"@.len());
    assert("max_concurrent_downloads"@.len() != "anikuro_provider"@.len());
    assert("max_concurrent_downloads"@.len() != "anikuro_auto_fallback"@.len());
    assert("max_concurrent_downloads"@.len() != "anikuro_prefer_dub"@.len());
    assert("max_concurrent_extractions"@.len() != "preferred_lecteur_host"@.len());
    assert("max_concurrent_extractions"@.len() != "download_dir"@.len());
    assert("max_concurrent_extractions"@.len() != "chrome_headless"@.len());
    assert("max_concurrent_extractions"@.len() != "naming_format"@.len());
    assert("max_concurrent_extractions"@.len() != "skip_existing"@.len());
    assert("max_concurrent_extractions"@.len() != "theme_dark"@.len());
    assert("max_concurrent_extractions"@.len() != "notifications_enabled"@.len());
    assert("max_concurrent_extractions"@.len() != "sidecar_warmup"@.len());
    assert("max_concurrent_extractions"@.len() != "consumet_base_url"@.len());
    assert("max_concurrent_extractions"@.len() != "consumet_provider"@.len());
    assert("max_concurrent_extractions"@.len() != "consumet_enabled"@.len());
    assert("max_concurrent_extractions"@.len() != "consumet_auto_fallback"@.len());
    assert("max_concurrent_extractions"@.len() != "anikuro_enabled"@.len());
    assert("max_concurrent_extractions"@.len() != "anikuro_provider"@.len());
    assert("max_concurrent_extractions"@.len() != "anikuro_auto_fallback"@.len());
    assert("max_concurrent_extractions"@.len() != "anikuro_prefer_dub"@.len());
    assert("preferred_lecteur_host"@.len() != "download_dir"@.len());
    assert("preferred_lecteur_host"@.len() != "chrome_headless"@.len());
    assert("preferred_lecteur_host"@.len() != "naming_format"@.len());
    assert("preferred_lecteur_host"@.len() != "skip_existing"@.len());
    assert("preferred_lecteur_host"@.len() != "theme_dark"@.len());
    assert("preferred_lecteur_host"@.len() != "notifications_enabled"@.len());
    assert("preferred_lecteur_host"@.len() != "sidecar_warmup"@.len());
    assert("preferred_lecteur_host"@.len() != "consumet_base_url"@.len());
    assert("preferred_lecteur_host"@.len() != "consumet_provider"@.len());
    assert("preferred_lecteur_host"@.len() != "consumet_enabled"@.len());
    assert("preferred_lecteur_host"@[0] != "consumet_auto_fallback"@[0]);
    assert("preferred_lecteur_host"@.len() != "anikuro_enabled"@.len());
    assert("preferred_lecteur_host"@.len() != "anikuro_provider"@.len());
    assert("preferred_lecteur_host"@.len() != "anikuro_auto_fallback"@.len());
    assert("preferred_lecteur_host"@.len() != "anikuro_prefer_dub"@.len());
    assert("download_dir"@.len() != "chrome_headless"@.len());
    assert("download_dir"@.len() != "naming_format"@.len());
    assert("download_dir"@.len() != "skip_existing"@.len());
    assert("download_dir"@.len() != "theme_dark"@.len());
    assert("download_dir"@.len() != "notifications_enabled"@.len());
    assert("download_dir"@.len() != "sidecar_warmup"@.len());
    assert("download_dir"@.len() != "consumet_base_url"@.len());
    assert("download_dir"@.len() != "consumet_provider"@.len());
    assert("download_dir"@.len() != "consumet_enabled"@.len());
    assert("download_dir"@.len() != "consumet_auto_fallback"@.len());
    assert("download_dir"@.len() != "anikuro_enabled"@.len());
    assert("download_dir"@.len() != "anikuro_provider"@.len());
    assert("download_dir"@.len() != "anikuro_auto_fallback"@.len());
    assert("download_dir"@.len() != "anikuro_prefer_dub"@.len());
    assert("chrome_headless"@.len() != "naming_format"@.len());
    assert("chrome_headless"@.len() != "skip_existing"@.len());
    assert("chrome_headless"@.len() != "theme_dark"@.len());
    assert("chrome_headless"@.len() != "notifications_enabled"@.len());
    assert("chrome_headless"@.len() != "sidecar_warmup"@.len());
    assert("chrome_headless"@.len() != "consumet_base_url"@.len());
    assert("chrome_headless"@.len() != "consumet_provider"@.len());
    assert("chrome_headless"@.len() != "consumet_enabled"@.len());
    assert("chrome_headless"@.len() != "consumet_auto_fallback"@.len());
    assert("chrome_headless"@[0] != "anikuro_enabled"@[0]);
    assert("chrome_headless"@.len() != "anikuro_provider"@.len());
    assert("chrome_headless"@.len() != "anikuro_auto_fallback"@.len());
    assert("chrome_headless"@.len() != "anikuro_prefer_dub"@.len());
    assert("naming_format"@[0] != "skip_existing"@[0]);
    assert("naming_format"@.len() != "theme_dark"@.len());
    assert("naming_format"@.len() != "notifications_enabled"@.len());
    assert("naming_format"@.len() != "sidecar_warmup"@.len());
    assert("naming_format"@.len() != "consumet_base_url"@.len());
    assert("naming_format"@.len() != "consumet_provider"@.len());
    assert("naming_format"@.len() != "consumet_enabled"@.len());
    assert("naming_format"@.len() != "consumet_auto_fallback"@.len());
    assert("naming_format"@.len() != "anikuro_enabled"@.len());
    assert("naming_format"@.len() != "anikuro_provider"@.len());
    assert("naming_format"@.len() != "anikuro_auto_fallback"@.len());
    assert("naming_format"@.len() != "anikuro_prefer_dub"@.len());
    assert("skip_existing"@.len() != "theme_dark"@.len());
    assert("skip_existing"@.len() != "notifications_enabled"@.len());
    assert("skip_existing"@.len() != "sidecar_warmup"@.len());
    assert("skip_existing"@.len() != "consumet_base_url"@.len());
    assert("skip_existing"@.len() != "consumet_provider"@.len());
    assert("skip_existing"@.len() != "consumet_enabled"@.len());
    assert("skip_existing"@.len() != "consumet_auto_fallback"@.len());
    assert("skip_existing"@.len() != "anikuro_enabled"@.len());
    assert("skip_existing"@.len() != "anikuro_provider"@.len());
    assert("skip_existing"@.len() != "anikuro_auto_fallback"@.len());
    assert("skip_existing"@.len() != "anikuro_prefer_dub"@.len());
    assert("theme_dark"@.len() != "notifications_enabled"@.len());
    assert("theme_dark"@.len() != "sidecar_warmup"@.len());
    assert("theme_dark"@.len() != "consumet_base_url"@.len());
    assert("theme_dark"@.len() != "consumet_provider"@.len());
    assert("theme_dark"@.len() != "consumet_enabled"@.len());
    assert("theme_dark"@.len() != "consumet_auto_fallback"@.len());
    assert("theme_dark"@.len() != "anikuro_enabled"@.len());
    assert("theme_dark"@.len() != "anikuro_provider"@.len());
    assert("theme_dark"@.len() != "anikuro_auto_fallback"@.len());
    assert("theme_dark"@.len() != "anikuro_prefer_dub"@.len());
    assert("notifications_enabled"@.len() != "sidecar_warmup"@.len());
    assert("notifications_enabled"@.len() != "consumet_base_url"@.len());
    assert("notifications_enabled"@.len() != "consumet_provider"@.len());
    assert("notifications_enabled"@.len() != "consumet_enabled"@.len());
    assert("notifications_enabled"@.len() != "consumet_auto_fallback"@.len());
    assert("notifications_enabled"@.len() != "anikuro_enabled"@.len());
    assert("notifications_enabled"@.len() != "anikuro_provider"@.len());
    assert("notifications_enabled"@[0] != "anikuro_auto_fallback"@[0]);
    assert("notifications_enabled"@.len() != "anikuro_prefer_dub"@.len());
    assert("sidecar_warmup"@.len() != "consumet_base_url"@.len());
    assert("sidecar_warmup"@.len() != "consumet_provider"@.len());
    assert("sidecar_warmup"@.len() != "consumet_enabled"@.len());
    assert("sidecar_warmup"@.len() != "consumet_auto_fallback"@.len());
    assert("sidecar_warmup"@.len() != "anikuro_enabled"@.len());
    assert("sidecar_warmup"@.len() != "anikuro_provider"@.len());
    assert("sidecar_warmup"@.len() != "anikuro_auto_fallback"@.len());
    assert("sidecar_warmup"@.len() != "anikuro_prefer_dub"@.len());
    assert("consumet_base_url"@[9] != "consumet_provider"@[9]);
    assert("consumet_base_url"@.len() != "consumet_enabled"@.len());
    assert("consumet_base_url"@.len() != "consumet_auto_fallback"@.len());
    assert("consumet_base_url"@.len() != "anikuro_enabled"@.len());
    assert("consumet_base_url"@.len() != "anikuro_provider"@.len());
    assert("consumet_base_url"@.len() != "anikuro_auto_fallback"@.len());
    assert("consumet_base_url"@.len() != "anikuro_prefer_dub"@.len());
    assert("consumet_provider"@.len() != "consumet_enabled"@.len());
    assert("consumet_provider"@.len() != "consumet_auto_fallback"@.len());
    assert("consumet_provider"@.len() != "anikuro_enabled"@.len());
    assert("consumet_provider"@.len() != "anikuro_provider"@.len());
    assert("consumet_provider"@.len() != "anikuro_auto_fallback"@.len());
    assert("consumet_provider"@.len() != "anikuro_prefer_dub"@.len());
    assert("consumet_enabled"@.len() != "consumet_auto_fallback"@.len());
    assert("consumet_enabled"@.len() != "anikuro_enabled"@.len());
    assert("consumet_enabled"@[0] != "anikuro_provider"@[0]);
    assert("consumet_enabled"@.len() != "anikuro_auto_fallback"@.len());
    assert("consumet_enabled"@.len() != "anikuro_prefer_dub"@.len());
    assert("consumet_auto_fallback"@.len() != "anikuro_enabled"@.len());
    assert("consumet_auto_fallback"@.len() != "anikuro_provider"@.len());
    assert("consumet_auto_fallback"@.len() != "anikuro_auto_fallback"@.len());
    assert("consumet_auto_fallback"@.len() != "anikuro_prefer_dub"@.len());
    assert("anikuro_enabled"@.len() != "anikuro_provider"@.len());
    assert("anikuro_enabled"@.len() != "anikuro_auto_fallback"@.len());
    assert("anikuro_enabled"@.len() != "anikuro_prefer_dub"@.len());
    assert("anikuro_provider"@.len() != "anikuro_auto_fallback"@.len());
    assert("anikuro_provider"@.len() != "anikuro_prefer_dub"@.len());
    assert("anikuro_auto_fallback"@.len() != "anikuro_prefer_dub"@.len());
}

/// The keys the settings are stored under, in order.
pub open spec fn setting_keys() -> Seq<Seq<char>> {
    seq!["max_concurrent_downloads"@, "max_concurrent_extractions"@, "preferred_lecteur_host"@, "download_dir"@, "chrome_headless"@, "naming_format"@, "skip_existing"@, "theme_dark"@, "notifications_enabled"@, "sidecar_warmup"@, "consumet_base_url"@, "consumet_provider"@, "consumet_enabled"@, "consumet_auto_fallback"@, "anikuro_enabled"@, "anikuro_provider"@, "anikuro_auto_fallback"@, "anikuro_prefer_dub"@]
}

/// Settings stored and read back are the settings that were stored.
pub proof fn lemma_settings_roundtrip(s: AppSettings, r: AppSettings)
    requires
        loaded_from(saved_rows(s), r),
    ensures
        same_settings(r, s),
{
    let rows = saved_rows(s);
    lemma_setting_keys_distinct();
    assert forall|i: int| 0 <= i < 18 implies #[trigger] rows[i].0 == setting_keys()[i] by {}
    assert forall|i: int, j: int| 0 <= j < i < 18 implies #[trigger] rows[j].0 != #[trigger] setting_keys()[i] by {
        assert(rows[j].0 == setting_keys()[j]);
    }
    lemma_lookup_at(rows, "max_concurrent_downloads"@, 0);
    lemma_lookup_at(rows, "max_concurrent_extractions"@, 1);
    lemma_lookup_at(rows, "preferred_lecteur_host"@, 2);
    lemma_lookup_at(rows, "download_dir"@, 3);
    lemma_lookup_at(rows, "chrome_headless"@, 4);
    lemma_lookup_at(rows, "naming_format"@, 5);
    lemma_lookup_at(rows, "skip_existing"@, 6);
    lemma_lookup_at(rows, "theme_dark"@, 7);
    lemma_lookup_at(rows, "notifications_enabled"@, 8);
    lemma_lookup_at(rows, "sidecar_warmup"@, 9);
    lemma_lookup_at(rows, "consumet_base_url"@, 10);
    lemma_lookup_at(rows, "consumet_provider"@, 11);
    lemma_lookup_at(rows, "consumet_enabled"@, 12);
    lemma_lookup_at(rows, "consumet_auto_fallback"@, 13);
    lemma_lookup_at(rows, "anikuro_enabled"@, 14);
    lemma_lookup_at(rows, "anikuro_provider"@, 15);
    lemma_lookup_at(rows, "anikuro_auto_fallback"@, 16);
    lemma_lookup_at(rows, "anikuro_prefer_dub"@, 17);
    crate::num::lemma_parse_decimal(s.max_concurrent_downloads as u64);
    crate::num::lemma_parse_decimal(s.max_concurrent_extractions as u64);
    reveal_strlit("1");
    reveal_strlit("0");
    reveal_strlit("true");
    assert("0"@ != "1"@) by {
        assert("0"@[0] != "1"@[0]);
    }
    assert(!eq_ignore_ascii_case("0"@, "true"@));
    assert(!eq_ignore_ascii_case("1"@, "true"@));
}

} // verus!
