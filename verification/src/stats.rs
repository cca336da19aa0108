//! The statistics page: figures over the library, over the download
//! history, over the statuses, and the themes of the anime the user engaged
//! with.
use vstd::prelude::*;
use crate::browse::{goes_before, lemma_stable_order, sorted_by_keys, stable_order, stable_sort_order, EntryMarks};
use crate::settings::UserStatus;
use crate::text::{owned, str_eq};

verus! {

// ---------------------------------------------------------------------------
// The library
// ---------------------------------------------------------------------------

/// How many entries satisfy `p`.
pub open spec fn count_marks(ms: Seq<EntryMarks>, p: spec_fn(EntryMarks) -> bool) -> nat
    decreases ms.len(),
{
    if ms.len() == 0 {
        0
    } else {
        count_marks(ms.drop_last(), p) + if p(ms.last()) {
            1nat
        } else {
            0nat
        }
    }
}

/// Figures over the library: entries commented, downloaded, with a status,
/// and tagged.
pub struct LibraryFigures {
    pub commented: usize,
    pub downloaded: usize,
    pub with_status: usize,
    pub tagged: usize,
}

/// Figures over the library, as `LibraryFigures` says.
pub fn library_figures(marks: &Vec<EntryMarks>) -> (r: LibraryFigures)
    ensures
        r.commented == count_marks(marks@, |m: EntryMarks| m.user_comment@.len() > 0),
        r.downloaded == count_marks(marks@, |m: EntryMarks| m.is_downloaded),
        r.with_status == count_marks(marks@, |m: EntryMarks| m.user_status is Some),
        r.tagged == count_marks(marks@, |m: EntryMarks| m.user_tags@.len() > 0),
{
    let ghost pc = |m: EntryMarks| m.user_comment@.len() > 0;
    let ghost pd = |m: EntryMarks| m.is_downloaded;
    let ghost ps = |m: EntryMarks| m.user_status is Some;
    let ghost pt = |m: EntryMarks| m.user_tags@.len() > 0;
    let mut r = LibraryFigures { commented: 0, downloaded: 0, with_status: 0, tagged: 0 };
    let mut i: usize = 0;
    while i < marks.len()
        invariant
            i <= marks@.len(),
            pc == (|m: EntryMarks| m.user_comment@.len() > 0),
            pd == (|m: EntryMarks| m.is_downloaded),
            ps == (|m: EntryMarks| m.user_status is Some),
            pt == (|m: EntryMarks| m.user_tags@.len() > 0),
            r.commented == count_marks(marks@.take(i as int), pc),
            r.downloaded == count_marks(marks@.take(i as int), pd),
            r.with_status == count_marks(marks@.take(i as int), ps),
            r.tagged == count_marks(marks@.take(i as int), pt),
            r.commented <= i && r.downloaded <= i && r.with_status <= i && r.tagged <= i,
        decreases marks@.len() - i,
    {
        assert(marks@.take(i as int + 1).drop_last() =~= marks@.take(i as int));
        assert(marks@.take(i as int + 1).last() == marks@[i as int]);
        let m = &marks[i];
        if !m.user_comment.as_str().is_empty() {
            r.commented = r.commented + 1;
        }
        if m.is_downloaded {
            r.downloaded = r.downloaded + 1;
        }
        if m.user_status.is_some() {
            r.with_status = r.with_status + 1;
        }
        if m.user_tags.len() > 0 {
            r.tagged = r.tagged + 1;
        }
        i = i + 1;
    }
    assert(marks@.take(i as int) =~= marks@);
    r
}

/// How many entries have each status, in the order `UserStatus::all` lists
/// them.
pub open spec fn status_count(ss: Seq<Option<UserStatus>>, s: UserStatus) -> nat
    decreases ss.len(),
{
    if ss.len() == 0 {
        0
    } else {
        status_count(ss.drop_last(), s) + if ss.last() == Some(s) {
            1nat
        } else {
            0nat
        }
    }
}

/// How many entries have each status, in the order `UserStatus::all` lists
/// them: to watch, watching, paused, finished, dropped.
pub fn status_counts(statuses: &Vec<Option<UserStatus>>) -> (r: [usize; 5])
    ensures
        r@[0] == status_count(statuses@, UserStatus::AVoir),
        r@[1] == status_count(statuses@, UserStatus::EnCours),
        r@[2] == status_count(statuses@, UserStatus::Pause),
        r@[3] == status_count(statuses@, UserStatus::Termine),
        r@[4] == status_count(statuses@, UserStatus::Abandonne),
{
    let mut a: usize = 0;
    let mut b: usize = 0;
    let mut c: usize = 0;
    let mut d: usize = 0;
    let mut e: usize = 0;
    let mut i: usize = 0;
    while i < statuses.len()
        invariant
            i <= statuses@.len(),
            a == status_count(statuses@.take(i as int), UserStatus::AVoir),
            b == status_count(statuses@.take(i as int), UserStatus::EnCours),
            c == status_count(statuses@.take(i as int), UserStatus::Pause),
            d == status_count(statuses@.take(i as int), UserStatus::Termine),
            e == status_count(statuses@.take(i as int), UserStatus::Abandonne),
            a <= i && b <= i && c <= i && d <= i && e <= i,
        decreases statuses@.len() - i,
    {
        assert(statuses@.take(i as int + 1).drop_last() =~= statuses@.take(i as int));
        assert(statuses@.take(i as int + 1).last() == statuses@[i as int]);
        match statuses[i] {
            Some(UserStatus::AVoir) => {
                a = a + 1;
            },
            Some(UserStatus::EnCours) => {
                b = b + 1;
            },
            Some(UserStatus::Pause) => {
                c = c + 1;
            },
            Some(UserStatus::Termine) => {
                d = d + 1;
            },
            Some(UserStatus::Abandonne) => {
                e = e + 1;
            },
            None => {},
        }
        i = i + 1;
    }
    assert(statuses@.take(i as int) =~= statuses@);
    [a, b, c, d, e]
}

// ---------------------------------------------------------------------------
// The download history
// ---------------------------------------------------------------------------

/// Seconds in a week.
pub const WEEK_SECS: i64 = 604800;

/// Downloads of the last week: recorded at or after `now` less a week.
pub open spec fn count_recent(h: Seq<(String, i64)>, since: int) -> nat
    decreases h.len(),
{
    if h.len() == 0 {
        0
    } else {
        count_recent(h.drop_last(), since) + if h.last().1 >= since {
            1nat
        } else {
            0nat
        }
    }
}

/// Downloads made in language `lang`.
pub open spec fn count_lang(h: Seq<(String, i64)>, lang: Seq<char>) -> nat
    decreases h.len(),
{
    if h.len() == 0 {
        0
    } else {
        count_lang(h.drop_last(), lang) + if h.last().0@ == lang {
            1nat
        } else {
            0nat
        }
    }
}

/// Figures over the download history: how many episodes were downloaded,
/// how many in the last week, how many in the original version and in French.
pub struct HistoryFigures {
    pub total: usize,
    pub recent: usize,
    pub vo: usize,
    pub vf: usize,
}

/// Figures over the download history, each download given by its language
/// and the second it was recorded, as `HistoryFigures` says.
pub fn history_figures(history: &Vec<(String, i64)>, now: i64) -> (r: HistoryFigures)
    requires
        now >= i64::MIN + WEEK_SECS,
    ensures
        r.total == history@.len(),
        r.recent == count_recent(history@, now - WEEK_SECS),
        r.vo == count_lang(history@, "vo"@),
        r.vf == count_lang(history@, "vf"@),
{
    let since = now - WEEK_SECS;
    let mut recent: usize = 0;
    let mut vo: usize = 0;
    let mut vf: usize = 0;
    let mut i: usize = 0;
    while i < history.len()
        invariant
            i <= history@.len(),
            since == now - WEEK_SECS,
            recent == count_recent(history@.take(i as int), since as int),
            vo == count_lang(history@.take(i as int), "vo"@),
            vf == count_lang(history@.take(i as int), "vf"@),
            recent <= i && vo <= i && vf <= i,
        decreases history@.len() - i,
    {
        assert(history@.take(i as int + 1).drop_last() =~= history@.take(i as int));
        assert(history@.take(i as int + 1).last() == history@[i as int]);
        let (lang, ts) = (&history[i].0, history[i].1);
        if ts >= since {
            recent = recent + 1;
        }
        if str_eq(lang.as_str(), "vo") {
            vo = vo + 1;
        }
        if str_eq(lang.as_str(), "vf") {
            vf = vf + 1;
        }
        i = i + 1;
    }
    assert(history@.take(i as int) =~= history@);
    HistoryFigures { total: history.len(), recent, vo, vf }
}

// ---------------------------------------------------------------------------
// Themes of the anime the user engaged with
// ---------------------------------------------------------------------------

/// How many times `t` occurs among `themes`.
pub open spec fn count_in(themes: Seq<Seq<char>>, t: Seq<char>) -> nat
    decreases themes.len(),
{
    if themes.len() == 0 {
        0
    } else {
        count_in(themes.drop_last(), t) + if themes.last() == t {
            1nat
        } else {
            0nat
        }
    }
}

/// How many times the non-empty theme `t` is listed by the entries the user
/// engaged with (each entry given by its themes and whether it counts).
pub open spec fn theme_count(entries: Seq<(Seq<Seq<char>>, bool)>, t: Seq<char>) -> nat
    decreases entries.len(),
{
    if entries.len() == 0 || t.len() == 0 {
        0
    } else {
        theme_count(entries.drop_last(), t) + if entries.last().1 {
            count_in(entries.last().0, t)
        } else {
            0nat
        }
    }
}

/// How many themes the statistics page shows.
pub const TOP_THEMES: usize = 15;

/// The shown themes: each with its count, which is positive; each once; by
/// decreasing count; and none left out that counts more than one shown, nor
/// any left out while fewer than `TOP_THEMES` are shown.
pub open spec fn is_top_themes(r: Seq<(Seq<char>, nat)>, entries: Seq<(Seq<Seq<char>>, bool)>) -> bool {
    &&& r.len() <= TOP_THEMES
    &&& forall|i: int| 0 <= i < r.len() ==> #[trigger] r[i].1 == theme_count(entries, r[i].0) && r[i].1 > 0
    &&& forall|i: int, j: int| 0 <= i < j < r.len() ==> #[trigger] r[i].0 != #[trigger] r[j].0
    &&& forall|i: int, j: int| 0 <= i < j < r.len() ==> #[trigger] r[i].1 >= #[trigger] r[j].1
    &&& forall|t: Seq<char>| #[trigger] theme_count(entries, t) > 0 && (forall|i: int| 0 <= i < r.len() ==> r[i].0 != t)
        ==> r.len() == TOP_THEMES && theme_count(entries, t) <= r[r.len() - 1].1
}

proof fn lemma_count_in_push(themes: Seq<Seq<char>>, x: Seq<char>, t: Seq<char>)
    ensures
        count_in(themes.push(x), t) == count_in(themes, t) + if x == t { 1nat } else { 0nat },
{
    assert(themes.push(x).drop_last() =~= themes);
}

proof fn lemma_count_in_prefix(themes: Seq<Seq<char>>, j: int, t: Seq<char>)
    requires
        0 <= j <= themes.len(),
    ensures
        count_in(themes.take(j), t) <= count_in(themes, t),
    decreases themes.len(),
{
    if j < themes.len() {
        assert(themes.drop_last().take(j) =~= themes.take(j));
        lemma_count_in_prefix(themes.drop_last(), j, t);
    } else {
        assert(themes.take(j) =~= themes);
    }
}

proof fn lemma_theme_count_prefix(entries: Seq<(Seq<Seq<char>>, bool)>, i: int, t: Seq<char>)
    requires
        0 <= i <= entries.len(),
    ensures
        theme_count(entries.take(i), t) <= theme_count(entries, t),
    decreases entries.len(),
{
    if i < entries.len() {
        assert(entries.drop_last().take(i) =~= entries.take(i));
        lemma_theme_count_prefix(entries.drop_last(), i, t);
    } else {
        assert(entries.take(i) =~= entries);
    }
}

/// The tally of the themes over the first `i` entries and the first `j`
/// themes of entry `i`.
pub open spec fn partial_count(entries: Seq<(Seq<Seq<char>>, bool)>, i: int, j: int, t: Seq<char>) -> nat {
    theme_count(entries.take(i), t) + if t.len() > 0 && entries[i].1 {
        count_in(entries[i].0.take(j), t)
    } else {
        0nat
    }
}

proof fn lemma_partial_bound(entries: Seq<(Seq<Seq<char>>, bool)>, i: int, j: int, t: Seq<char>)
    requires
        0 <= i < entries.len(),
        0 <= j <= entries[i].0.len(),
    ensures
        partial_count(entries, i, j, t) <= theme_count(entries, t),
{
    let next = entries.take(i + 1);
    assert(next.drop_last() =~= entries.take(i));
    assert(next.last() == entries[i]);
    lemma_count_in_prefix(entries[i].0, j, t);
    lemma_theme_count_prefix(entries, i + 1, t);
}

fn find_theme(r: &Vec<(String, usize)>, t: &str) -> (k: Option<usize>)
    ensures
        match k {
            Some(k) => k < r@.len() && r@[k as int].0@ == t@,
            None => forall|m: int| 0 <= m < r@.len() ==> #[trigger] r@[m].0@ != t@,
        },
{
    let mut k: usize = 0;
    while k < r.len()
        invariant
            k <= r@.len(),
            forall|m: int| 0 <= m < k ==> #[trigger] r@[m].0@ != t@,
        decreases r@.len() - k,
    {
        if str_eq(r[k].0.as_str(), t) {
            return Some(k);
        }
        k = k + 1;
    }
    None
}

/// Tallies the themes of the engaged entries, in the order they first
/// appear.
fn tally_themes(entries: &Vec<(Vec<String>, bool)>) -> (r: Vec<(String, usize)>)
    requires
        forall|t: Seq<char>| #[trigger] theme_count(entries.deep_view(), t) <= usize::MAX,
    ensures
        forall|i: int, j: int| 0 <= i < j < r@.len() ==> #[trigger] r@[i].0@ != #[trigger] r@[j].0@,
        forall|k: int| 0 <= k < r@.len() ==> #[trigger] r@[k].1 == theme_count(entries.deep_view(), r@[k].0@) && r@[k].1 > 0,
        forall|t: Seq<char>| #[trigger] theme_count(entries.deep_view(), t) > 0 ==> exists|k: int| 0 <= k < r@.len() && r@[k].0@ == t,
{
    let ghost ev = entries.deep_view();
    let mut r: Vec<(String, usize)> = Vec::new();
    let mut i: usize = 0;
    while i < entries.len()
        invariant
            i <= entries@.len(),
            ev == entries.deep_view(),
            forall|t: Seq<char>| #[trigger] theme_count(ev, t) <= usize::MAX,
            forall|a: int, b: int| 0 <= a < b < r@.len() ==> #[trigger] r@[a].0@ != #[trigger] r@[b].0@,
            forall|k: int| 0 <= k < r@.len() ==> #[trigger] r@[k].1 == theme_count(ev.take(i as int), r@[k].0@) && r@[k].1 > 0,
            forall|t: Seq<char>| #[trigger] theme_count(ev.take(i as int), t) > 0 ==> exists|k: int| 0 <= k < r@.len() && r@[k].0@ == t,
        decreases entries@.len() - i,
    {
        let ghost next = ev.take(i as int + 1);
        proof {
            assert(next.drop_last() =~= ev.take(i as int));
            assert(next.last() == ev[i as int]);
            assert(ev[i as int] == (entries@[i as int].0.deep_view(), entries@[i as int].1));
        }
        let themes = &entries[i].0;
        if entries[i].1 {
            let mut j: usize = 0;
            while j < themes.len()
                invariant
                    i < entries@.len(),
                    ev == entries.deep_view(),
                    *themes == entries@[i as int].0,
                    entries@[i as int].1,
                    j <= themes@.len(),
                    ev[i as int].0 == themes.deep_view(),
                    ev[i as int].1,
                    forall|t: Seq<char>| #[trigger] theme_count(ev, t) <= usize::MAX,
                    forall|a: int, b: int| 0 <= a < b < r@.len() ==> #[trigger] r@[a].0@ != #[trigger] r@[b].0@,
                    forall|k: int| 0 <= k < r@.len() ==> #[trigger] r@[k].1 == partial_count(ev, i as int, j as int, r@[k].0@)
                        && r@[k].1 > 0,
                    forall|t: Seq<char>| #[trigger] partial_count(ev, i as int, j as int, t) > 0 ==> exists|k: int|
                        0 <= k < r@.len() && r@[k].0@ == t,
                decreases themes@.len() - j,
            {
                let x = themes[j].as_str();
                proof {
                    assert(themes.deep_view().take(j as int + 1) =~= themes.deep_view().take(j as int).push(x@));
                    assert forall|t: Seq<char>| #[trigger] partial_count(ev, i as int, j as int + 1, t) == partial_count(
                        ev,
                        i as int,
                        j as int,
                        t,
                    ) + if t.len() > 0 && x@ == t { 1nat } else { 0nat } by {
                        lemma_count_in_push(themes.deep_view().take(j as int), x@, t);
                    }
                }
                if !x.is_empty() {
                    match find_theme(&r, x) {
                        Some(k) => {
                            proof {
                                lemma_partial_bound(ev, i as int, j as int + 1, x@);
                            }
                            let c = r[k].1 + 1;
                            let name = owned(r[k].0.as_str());
                            let ghost old_r = r@;
                            r.set(k, (name, c));
                            proof {
                                assert forall|a: int, b: int| 0 <= a < b < r@.len() implies #[trigger] r@[a].0@ != #[trigger] r@[b].0@ by {
                                    assert(old_r[a].0@ != old_r[b].0@);
                                }
                                assert forall|m: int| 0 <= m < r@.len() implies #[trigger] r@[m].1 == partial_count(
                                    ev,
                                    i as int,
                                    j as int + 1,
                                    r@[m].0@,
                                ) && r@[m].1 > 0 by {
                                    if m != k {
                                        assert(old_r[m].0@ != x@);
                                    }
                                }
                                assert forall|t: Seq<char>| #[trigger] partial_count(ev, i as int, j as int + 1, t) > 0 implies exists|
                                    m: int,
                                | 0 <= m < r@.len() && r@[m].0@ == t by {
                                    if t == x@ {
                                        assert(r@[k as int].0@ == t);
                                    } else {
                                        assert(partial_count(ev, i as int, j as int, t) > 0);
                                        let m = choose|m: int| 0 <= m < old_r.len() && old_r[m].0@ == t;
                                        assert(r@[m].0@ == t);
                                    }
                                }
                            }
                        },
                        None => {
                            let ghost old_r = r@;
                            r.push((owned(x), 1));
                            proof {
                                assert forall|a: int, b: int| 0 <= a < b < r@.len() implies #[trigger] r@[a].0@ != #[trigger] r@[b].0@ by {
                                    if b < old_r.len() {
                                        assert(old_r[a].0@ != old_r[b].0@);
                                    }
                                }
                                assert forall|m: int| 0 <= m < r@.len() implies #[trigger] r@[m].1 == partial_count(
                                    ev,
                                    i as int,
                                    j as int + 1,
                                    r@[m].0@,
                                ) && r@[m].1 > 0 by {
                                    if m < old_r.len() {
                                        assert(old_r[m].0@ != x@);
                                    } else {
                                        assert(partial_count(ev, i as int, j as int, x@) == 0);
                                    }
                                }
                                assert forall|t: Seq<char>| #[trigger] partial_count(ev, i as int, j as int + 1, t) > 0 implies exists|
                                    m: int,
                                | 0 <= m < r@.len() && r@[m].0@ == t by {
                                    if t == x@ {
                                        assert(r@[old_r.len() as int].0@ == t);
                                    } else {
                                        assert(partial_count(ev, i as int, j as int, t) > 0);
                                        let m = choose|m: int| 0 <= m < old_r.len() && old_r[m].0@ == t;
                                        assert(r@[m].0@ == t);
                                    }
                                }
                            }
                        },
                    }
                }
                j = j + 1;
            }
            proof {
                assert(themes.deep_view().take(j as int) =~= themes.deep_view());
                assert forall|t: Seq<char>| #[trigger] theme_count(next, t) == partial_count(ev, i as int, j as int, t) by {}
                assert forall|k: int| 0 <= k < r@.len() implies #[trigger] r@[k].1 == theme_count(next, r@[k].0@) && r@[k].1 > 0 by {
                    assert(theme_count(next, r@[k].0@) == partial_count(ev, i as int, j as int, r@[k].0@));
                }
                assert forall|t: Seq<char>| #[trigger] theme_count(next, t) > 0 implies exists|k: int| 0 <= k < r@.len() && r@[k].0@ == t by {
                    assert(theme_count(next, t) == partial_count(ev, i as int, j as int, t));
                }
            }
        } else {
            proof {
                assert forall|t: Seq<char>| #[trigger] theme_count(next, t) == theme_count(ev.take(i as int), t) by {}
            }
        }
        i = i + 1;
    }
    assert(ev.take(i as int) =~= ev);
    r
}

/// The themes of the engaged entries with how many times they are listed,
/// the `TOP_THEMES` most listed first; entries are given by their themes
/// and whether the user engaged with them.  Themes listed as often are in
/// no fixed order.
pub fn top_themes(entries: &Vec<(Vec<String>, bool)>) -> (r: Vec<(String, usize)>)
    requires
        forall|t: Seq<char>| #[trigger] theme_count(entries.deep_view(), t) <= usize::MAX,
    ensures
        is_top_themes(Seq::new(r@.len(), |i: int| (r@[i].0@, r@[i].1 as nat)), entries.deep_view()),
{
    let tally = tally_themes(entries);
    let mut keys: Vec<(u64, String)> = Vec::new();
    let mut i: usize = 0;
    while i < tally.len()
        invariant
            i <= tally@.len(),
            keys@.len() == i,
            forall|k: int| 0 <= k < i ==> #[trigger] keys@[k].0 == tally@[k].1 && keys@[k].1@.len() == 0,
        decreases tally@.len() - i,
    {
        keys.push((tally[i].1 as u64, String::new()));
        i = i + 1;
    }
    let order = stable_sort_order(&keys, true);
    let ghost kv = keys.deep_view();
    proof {
        lemma_stable_order(kv, kv.len() as int, true);
    }
    let ghost n = tally@.len() as int;
    let ghost ev = entries.deep_view();
    let mut r: Vec<(String, usize)> = Vec::new();
    let mut k: usize = 0;
    while k < order.len() && k < TOP_THEMES
        invariant
            k <= order@.len(),
            k <= TOP_THEMES,
            order@.len() == n,
            n == tally@.len(),
            r@.len() == k,
            forall|m: int| 0 <= m < n ==> #[trigger] order@[m] < n,
            forall|m: int| 0 <= m < k ==> #[trigger] r@[m].0@ == tally@[order@[m] as int].0@ && r@[m].1
                == tally@[order@[m] as int].1,
        decreases order@.len() - k,
    {
        let p = order[k];
        r.push((owned(tally[p].0.as_str()), tally[p].1));
        k = k + 1;
    }
    proof {
        let rv = Seq::new(r@.len(), |i: int| (r@[i].0@, r@[i].1 as nat));
        assert(forall|x: int| 0 <= x < n ==> #[trigger] kv[x] == (tally@[x].1 as u64, Seq::<char>::empty()));
        assert forall|a: int, b: int| 0 <= a < b < n implies #[trigger] tally@[order@[a] as int].1 >= #[trigger] tally@[
            order@[b] as int
        ].1 by {
            assert(sorted_by_keys(order@, kv, true));
            assert(goes_before(kv[order@[a] as int], kv[order@[b] as int], true));
            crate::text::lemma_seq_lt_irrefl(Seq::<char>::empty());
        }
        assert forall|i: int, j: int| 0 <= i < j < rv.len() implies #[trigger] rv[i].0 != #[trigger] rv[j].0 by {
            assert(order@[i] != order@[j]);
        }
        assert forall|i: int, j: int| 0 <= i < j < rv.len() implies #[trigger] rv[i].1 >= #[trigger] rv[j].1 by {
            assert(r@[i].0@ == tally@[order@[i] as int].0@);
            assert(r@[j].0@ == tally@[order@[j] as int].0@);
            assert(tally@[order@[i] as int].1 >= tally@[order@[j] as int].1);
        }
        assert forall|i: int| 0 <= i < rv.len() implies #[trigger] rv[i].1 == theme_count(ev, rv[i].0) && rv[i].1 > 0 by {
            assert(r@[i].0@ == tally@[order@[i] as int].0@);
            assert(r@[i].1 == tally@[order@[i] as int].1);
        }
        assert forall|t: Seq<char>| #[trigger] theme_count(ev, t) > 0 && (forall|i: int| 0 <= i < rv.len() ==> rv[i].0 != t)
            implies rv.len() == TOP_THEMES && theme_count(ev, t) <= rv[rv.len() - 1].1 by {
            let x = choose|x: int| 0 <= x < n && tally@[x].0@ == t;
            assert(crate::browse::occurs_in(order@, x));
            let q = choose|q: int| 0 <= q < order@.len() && order@[q] == x;
            if q < rv.len() {
                assert(rv[q].0 == t);
            }
            assert(rv.len() == TOP_THEMES);
            let last = rv.len() - 1;
            assert(tally@[order@[last] as int].1 >= tally@[order@[q] as int].1);
        }
    }
    r
}

} // verus!
