//! What the card of an anime and the library views decide: the user's tags
//! and comment, the "my list" view, the sorted lists of themes and tags,
//! the playlist of an anime's downloaded episodes, and the comparison of
//! the files on disk with the recorded downloads.
use vstd::prelude::*;
use crate::browse::EntryMarks;
use crate::naming::{sanitize_path_segment, sanitize_spec, to_uppercase, uppercase};
use crate::num::{decimal_padded, push_decimal_padded};
use crate::text::{insert_sorted_unique, owned, push_str, str_eq, strictly_sorted, trim, trim_str};

verus! {

// ---------------------------------------------------------------------------
// Tags and comment
// ---------------------------------------------------------------------------

/// The tag typed by the user, trimmed, is added when it is not empty and
/// not there yet.
pub open spec fn tag_added(tags: Seq<String>, input: Seq<char>) -> Option<Seq<char>> {
    let t = trim(input);
    if t.len() > 0 && !(exists|i: int| 0 <= i < tags.len() && #[trigger] tags[i]@ == t) {
        Some(t)
    } else {
        None
    }
}

/// Adds the typed tag to the user's tags as `tag_added` says; the result is
/// the tag added, which is to be saved.
pub fn add_typed_tag(tags: &mut Vec<String>, input: &str) -> (r: Option<String>)
    ensures
        r.deep_view() == tag_added(old(tags)@, input@),
        r matches Some(t) ==> final(tags)@.len() == old(tags)@.len() + 1 && final(tags)@.take(old(tags)@.len() as int)
            == old(tags)@ && final(tags)@.last()@ == t@,
        r is None ==> final(tags)@ == old(tags)@,
{
    let t = trim_str(input);
    if t.as_str().is_empty() {
        return None;
    }
    let mut i: usize = 0;
    while i < tags.len()
        invariant
            i <= tags@.len(),
            t@ == trim(input@),
            tags@ == old(tags)@,
            forall|k: int| 0 <= k < i ==> #[trigger] tags@[k]@ != t@,
        decreases tags@.len() - i,
    {
        if str_eq(tags[i].as_str(), t.as_str()) {
            return None;
        }
        i = i + 1;
    }
    let ghost before = tags@;
    tags.push(owned(t.as_str()));
    assert(tags@.take(before.len() as int) =~= before);
    Some(t)
}

/// The comment saved: none when it is blank, else the comment as typed.
pub fn comment_to_save(comment: &str) -> (r: Option<String>)
    ensures
        trim(comment@).len() == 0 ==> r is None,
        trim(comment@).len() > 0 ==> (r matches Some(c) && c@ == comment@),
{
    let t = trim_str(comment);
    if t.as_str().is_empty() {
        None
    } else {
        Some(owned(comment))
    }
}

/// The original title is shown under the title when it is set and differs
/// from it.
pub fn shows_original_title(title: &str, title_o: &str) -> (b: bool)
    ensures
        b == (title_o@.len() > 0 && title_o@ != title@),
{
    !title_o.is_empty() && !str_eq(title_o, title)
}

// ---------------------------------------------------------------------------
// The "my list" view
// ---------------------------------------------------------------------------

/// An entry belongs to "my list" when the user rated it, commented it,
/// downloaded it, gave it a status or tags, or watched some episode of it.
pub open spec fn in_my_list_spec(m: EntryMarks, rated: bool, watched: nat) -> bool {
    rated || m.user_comment@.len() > 0 || m.is_downloaded || m.user_status is Some || m.user_tags@.len() > 0
        || watched > 0
}

/// Whether an entry belongs to "my list", as `in_my_list_spec` says;
/// `watched` counts its watched episodes.
pub fn in_my_list(m: &EntryMarks, rated: bool, watched: usize) -> (b: bool)
    ensures
        b == in_my_list_spec(*m, rated, watched as nat),
{
    rated || !m.user_comment.as_str().is_empty() || m.is_downloaded || m.user_status.is_some() || m.user_tags.len()
        > 0 || watched > 0
}

/// The positions shown: those filtered, kept in order, and in "my list"
/// only those that belong to it.
pub open spec fn view_positions_spec(filtered: Seq<usize>, my_list: bool, member: Seq<bool>) -> Seq<usize>
    decreases filtered.len(),
{
    if filtered.len() == 0 {
        Seq::empty()
    } else {
        let rest = view_positions_spec(filtered.drop_last(), my_list, member);
        if !my_list || member[filtered.last() as int] {
            rest.push(filtered.last())
        } else {
            rest
        }
    }
}

/// The positions shown, as `view_positions_spec` says; `member` tells of
/// each entry whether it belongs to "my list".
pub fn view_positions(filtered: &Vec<usize>, my_list: bool, member: &Vec<bool>) -> (r: Vec<usize>)
    requires
        forall|k: int| 0 <= k < filtered@.len() ==> #[trigger] filtered@[k] < member@.len(),
    ensures
        r@ == view_positions_spec(filtered@, my_list, member@),
{
    let mut r: Vec<usize> = Vec::new();
    let mut i: usize = 0;
    while i < filtered.len()
        invariant
            i <= filtered@.len(),
            forall|k: int| 0 <= k < filtered@.len() ==> #[trigger] filtered@[k] < member@.len(),
            r@ == view_positions_spec(filtered@.take(i as int), my_list, member@),
        decreases filtered@.len() - i,
    {
        assert(filtered@.take(i as int + 1).drop_last() =~= filtered@.take(i as int));
        let p = filtered[i];
        if !my_list || member[p] {
            r.push(p);
        }
        i = i + 1;
    }
    assert(filtered@.take(i as int) =~= filtered@);
    r
}

// ---------------------------------------------------------------------------
// Sorted lists of themes and tags
// ---------------------------------------------------------------------------

/// A string listed in one of the lists.
pub open spec fn listed(lists: Seq<Seq<String>>, y: Seq<char>) -> bool {
    exists|i: int, j: int| 0 <= i < lists.len() && 0 <= j < lists[i].len() && #[trigger] lists[i][j]@ == y
}

/// Every string of the lists, but the empty one when `skip_empty`, once
/// each, sorted.
pub fn sorted_unique(lists: &Vec<Vec<String>>, skip_empty: bool) -> (r: Vec<String>)
    ensures
        strictly_sorted(r.deep_view()),
        forall|y: Seq<char>| #[trigger] r.deep_view().contains(y) <==> (listed(lists@.map_values(|v: Vec<String>| v@), y)
            && !(skip_empty && y.len() == 0)),
{
    let ghost lv = lists@.map_values(|v: Vec<String>| v@);
    let mut out: Vec<String> = Vec::new();
    assert(out.deep_view() =~= Seq::<Seq<char>>::empty());
    let mut i: usize = 0;
    while i < lists.len()
        invariant
            i <= lists@.len(),
            lv == lists@.map_values(|v: Vec<String>| v@),
            strictly_sorted(out.deep_view()),
            forall|y: Seq<char>| #[trigger] out.deep_view().contains(y) <==> ((exists|a: int, b: int|
                0 <= a < i && 0 <= b < lv[a].len() && #[trigger] lv[a][b]@ == y) && !(skip_empty && y.len() == 0)),
        decreases lists@.len() - i,
    {
        let list = &lists[i];
        let mut j: usize = 0;
        while j < list.len()
            invariant
                i < lists@.len(),
                *list == lists@[i as int],
                lv == lists@.map_values(|v: Vec<String>| v@),
                j <= list@.len(),
                strictly_sorted(out.deep_view()),
                forall|y: Seq<char>| #[trigger] out.deep_view().contains(y) <==> ((exists|a: int, b: int|
                    ((0 <= a < i && 0 <= b < lv[a].len()) || (a == i && 0 <= b < j)) && #[trigger] lv[a][b]@ == y)
                    && !(skip_empty && y.len() == 0)),
            decreases list@.len() - j,
        {
            let s = list[j].as_str();
            assert(lv[i as int][j as int] == list@[j as int]);
            if !(skip_empty && s.is_empty()) {
                insert_sorted_unique(&mut out, s);
            }
            proof {
                assert forall|y: Seq<char>| #[trigger] out.deep_view().contains(y) <==> ((exists|a: int, b: int|
                    ((0 <= a < i && 0 <= b < lv[a].len()) || (a == i && 0 <= b < j + 1)) && #[trigger] lv[a][b]@ == y)
                    && !(skip_empty && y.len() == 0)) by {
                    if y == s@ && !(skip_empty && y.len() == 0) {
                        assert(lv[i as int][j as int]@ == y);
                    }
                    if exists|a: int, b: int|
                        ((0 <= a < i && 0 <= b < lv[a].len()) || (a == i && 0 <= b < j + 1)) && #[trigger] lv[a][b]@ == y {
                        let (a, b) = choose|a: int, b: int|
                            ((0 <= a < i && 0 <= b < lv[a].len()) || (a == i && 0 <= b < j + 1)) && #[trigger] lv[a][b]@ == y;
                        if !(a == i && b == j) {
                            assert(((0 <= a < i && 0 <= b < lv[a].len()) || (a == i && 0 <= b < j)) && lv[a][b]@ == y);
                        }
                    }
                }
            }
            j = j + 1;
        }
        proof {
            assert forall|y: Seq<char>| #[trigger] out.deep_view().contains(y) <==> ((exists|a: int, b: int|
                0 <= a < i + 1 && 0 <= b < lv[a].len() && #[trigger] lv[a][b]@ == y) && !(skip_empty && y.len() == 0)) by {
                if exists|a: int, b: int| 0 <= a < i + 1 && 0 <= b < lv[a].len() && #[trigger] lv[a][b]@ == y {
                    let (a, b) = choose|a: int, b: int| 0 <= a < i + 1 && 0 <= b < lv[a].len() && #[trigger] lv[a][b]@ == y;
                    assert(((0 <= a < i && 0 <= b < lv[a].len()) || (a == i && 0 <= b < j)) && lv[a][b]@ == y);
                }
            }
        }
        i = i + 1;
    }
    out
}

// ---------------------------------------------------------------------------
// The playlist of an anime's downloads
// ---------------------------------------------------------------------------

/// One entry of the playlist: the name of the anime with season and episode
/// numbers (from 1, two digits at least) and the language in capitals, then
/// the path of the file.
pub open spec fn m3u_entry(name: Seq<char>, d: (usize, usize, Seq<char>, Seq<char>)) -> Seq<char> {
    "#EXTINF:-1,"@ + name + " S"@ + decimal_padded(d.0 as nat + 1, 2) + "E"@ + decimal_padded(d.1 as nat + 1, 2) + " ("@
        + uppercase(d.2) + ")\n"@ + d.3 + "\n"@
}

/// The playlist of the downloads (season, episode, language, path), in order.
pub open spec fn m3u_spec(name: Seq<char>, ds: Seq<(usize, usize, Seq<char>, Seq<char>)>) -> Seq<char>
    decreases ds.len(),
{
    if ds.len() == 0 {
        "#EXTM3U\n"@
    } else {
        m3u_spec(name, ds.drop_last()) + m3u_entry(name, ds.last())
    }
}

/// The playlist of the downloads, as `m3u_spec` writes it.
pub fn m3u_playlist(name: &str, downloads: &Vec<(usize, usize, String, String)>) -> (r: String)
    requires
        forall|k: int| 0 <= k < downloads@.len() ==> #[trigger] downloads@[k].0 < u64::MAX && downloads@[k].1 < u64::MAX,
    ensures
        r@ == m3u_spec(name@, downloads.deep_view()),
{
    let ghost dv = downloads.deep_view();
    let mut r = owned("#EXTM3U\n");
    let mut i: usize = 0;
    while i < downloads.len()
        invariant
            i <= downloads@.len(),
            dv == downloads.deep_view(),
            forall|k: int| 0 <= k < downloads@.len() ==> #[trigger] downloads@[k].0 < u64::MAX && downloads@[k].1 < u64::MAX,
            r@ == m3u_spec(name@, dv.take(i as int)),
        decreases downloads@.len() - i,
    {
        assert(dv.take(i as int + 1).drop_last() =~= dv.take(i as int));
        assert(dv.take(i as int + 1).last() == dv[i as int]);
        let d = &downloads[i];
        push_str(&mut r, "#EXTINF:-1,");
        push_str(&mut r, name);
        push_str(&mut r, " S");
        push_decimal_padded(&mut r, d.0 as u64 + 1, 2);
        push_str(&mut r, "E");
        push_decimal_padded(&mut r, d.1 as u64 + 1, 2);
        push_str(&mut r, " (");
        let up = to_uppercase(d.2.as_str());
        push_str(&mut r, up.as_str());
        push_str(&mut r, ")\n");
        push_str(&mut r, d.3.as_str());
        push_str(&mut r, "\n");
        i = i + 1;
    }
    assert(dv.take(i as int) =~= dv);
    r
}

/// The file name of the playlist: the anime's name made safe, with `.m3u`.
pub fn m3u_file_name(name: &str) -> (r: String)
    ensures
        r@ == sanitize_spec(name@) + ".m3u"@,
{
    let mut r = sanitize_path_segment(name);
    push_str(&mut r, ".m3u");
    r
}

// ---------------------------------------------------------------------------
// Files on disk against recorded downloads
// ---------------------------------------------------------------------------

/// The extension of a path as std's `Path::extension` reads it: the part of
/// its last component after the last dot, when that component has one that
/// does not start it; `None` otherwise.
pub uninterp spec fn extension_of(path: Seq<char>) -> Option<Seq<char>>;

/// The extension of a path (`std::path::Path::extension`).
#[verifier::external_body]
fn path_extension(path: &str) -> (r: Option<String>)
    ensures
        r.deep_view() == extension_of(path@),
{
    std::path::Path::new(path).extension().and_then(|s| s.to_str()).map(|s| s.to_string())
}

/// Whether a file on disk is a video that a download writes: its extension
/// is `mp4`.
pub fn is_mp4(path: &str) -> (b: bool)
    ensures
        b == (extension_of(path@) == Some("mp4"@)),
{
    match path_extension(path) {
        Some(e) => str_eq(e.as_str(), "mp4"),
        None => false,
    }
}

/// The strings of `a` that are not in `b`, each once, in the order they
/// first appear.
pub open spec fn only_in(a: Seq<Seq<char>>, b: Seq<Seq<char>>, n: int) -> Seq<Seq<char>>
    decreases n,
{
    if n <= 0 {
        Seq::empty()
    } else {
        let rest = only_in(a, b, n - 1);
        let x = a[n - 1];
        if b.contains(x) || rest.contains(x) {
            rest
        } else {
            rest.push(x)
        }
    }
}

/// The strings of `a`, each once, in the order they first appear.
pub open spec fn distinct_of(a: Seq<Seq<char>>) -> Seq<Seq<char>> {
    only_in(a, Seq::empty(), a.len() as int)
}

fn vec_contains(v: &Vec<String>, x: &str) -> (b: bool)
    ensures
        b == v.deep_view().contains(x@),
{
    let mut i: usize = 0;
    while i < v.len()
        invariant
            i <= v@.len(),
            forall|k: int| 0 <= k < i ==> #[trigger] v@[k]@ != x@,
        decreases v@.len() - i,
    {
        if str_eq(v[i].as_str(), x) {
            assert(v.deep_view()[i as int] == x@);
            return true;
        }
        i = i + 1;
    }
    assert forall|k: int| 0 <= k < v.deep_view().len() implies #[trigger] v.deep_view()[k] != x@ by {
        assert(v.deep_view()[k] == v@[k]@);
    }
    false
}

/// The strings of `a` that are not in `b`, as `only_in` lists them.
pub fn strings_only_in(a: &Vec<String>, b: &Vec<String>) -> (r: Vec<String>)
    ensures
        r.deep_view() == only_in(a.deep_view(), b.deep_view(), a@.len() as int),
{
    let ghost av = a.deep_view();
    let mut r: Vec<String> = Vec::new();
    let mut i: usize = 0;
    while i < a.len()
        invariant
            i <= a@.len(),
            av == a.deep_view(),
            r.deep_view() == only_in(av, b.deep_view(), i as int),
        decreases a@.len() - i,
    {
        let x = a[i].as_str();
        assert(av[i as int] == x@);
        if !vec_contains(b, x) && !vec_contains(&r, x) {
            let ghost before = r@;
            let s = owned(x);
            r.push(s);
            proof {
                crate::text::lemma_deep_view_push(before, r@, s);
            }
        }
        i = i + 1;
    }
    r
}

/// What the scan for orphans reports: the distinct files on disk, the
/// distinct recorded paths, the files with no record, and the records with
/// no file.
pub struct OrphanReport {
    pub disk_files: Vec<String>,
    pub db_paths: Vec<String>,
    pub disk_only: Vec<String>,
    pub db_only: Vec<String>,
}

/// What the scan for orphans reports, as `OrphanReport` says; `disk` lists
/// the video files found, `recorded` the paths of the recorded downloads.
pub fn orphan_report(disk: &Vec<String>, recorded: &Vec<String>) -> (r: OrphanReport)
    ensures
        r.disk_files.deep_view() == distinct_of(disk.deep_view()),
        r.db_paths.deep_view() == distinct_of(recorded.deep_view()),
        r.disk_only.deep_view() == only_in(disk.deep_view(), recorded.deep_view(), disk@.len() as int),
        r.db_only.deep_view() == only_in(recorded.deep_view(), disk.deep_view(), recorded@.len() as int),
{
    let none: Vec<String> = Vec::new();
    assert(none.deep_view() =~= Seq::<Seq<char>>::empty());
    OrphanReport {
        disk_files: strings_only_in(disk, &none),
        db_paths: strings_only_in(recorded, &none),
        disk_only: strings_only_in(disk, recorded),
        db_only: strings_only_in(recorded, disk),
    }
}

// ---------------------------------------------------------------------------
// Keyboard shortcuts
// ---------------------------------------------------------------------------

/// The pages of the application.
#[derive(Clone, Copy, PartialEq, Eq, Structural, Debug)]
pub enum ViewMode {
    Catalogue,
    MaListe,
    Telechargements,
    Logs,
    Stats,
}

/// The shortcuts pressed in a frame: `/` outside a text field, the command
/// key with 1 to 5, with `,` and with `L`, and Escape.
pub struct ShortcutKeys {
    pub slash: bool,
    pub num1: bool,
    pub num2: bool,
    pub num3: bool,
    pub num4: bool,
    pub num5: bool,
    pub esc: bool,
    pub cmd_comma: bool,
    pub cmd_l: bool,
}

/// What the shortcuts of a frame do: the page shown, whether the search
/// field takes the focus, whether the settings being edited are reset to the
/// current ones, whether the settings window is opened (`Some(true)`) or
/// closed (`Some(false)`) or left as it is, and whether the closing dialog
/// is dismissed.
pub struct ShortcutEffect {
    pub view_mode: ViewMode,
    pub focus_search: bool,
    pub reset_pending_settings: bool,
    pub settings_shown: Option<bool>,
    pub dismiss_close_confirm: bool,
}

/// The page shown after the shortcuts: the last of command-1 to command-5
/// and command-L pressed decides (command-L shows the logs).
pub open spec fn view_after(view: ViewMode, k: ShortcutKeys) -> ViewMode {
    if k.cmd_l {
        ViewMode::Logs
    } else if k.num5 {
        ViewMode::Stats
    } else if k.num4 {
        ViewMode::Logs
    } else if k.num3 {
        ViewMode::Telechargements
    } else if k.num2 {
        ViewMode::MaListe
    } else if k.num1 {
        ViewMode::Catalogue
    } else {
        view
    }
}

/// What the shortcuts of a frame do on page `view`.  Command-`,` resets the
/// settings being edited and opens the window; Escape closes it (even when
/// command-`,` was pressed too) and dismisses the closing dialog.
pub fn apply_shortcuts(view: ViewMode, k: &ShortcutKeys) -> (r: ShortcutEffect)
    ensures
        r.view_mode == view_after(view, *k),
        r.focus_search == k.slash,
        r.reset_pending_settings == k.cmd_comma,
        r.settings_shown == (if k.esc {
            Some(false)
        } else if k.cmd_comma {
            Some(true)
        } else {
            None
        }),
        r.dismiss_close_confirm == k.esc,
{
    let mut v = view;
    if k.num1 {
        v = ViewMode::Catalogue;
    }
    if k.num2 {
        v = ViewMode::MaListe;
    }
    if k.num3 {
        v = ViewMode::Telechargements;
    }
    if k.num4 {
        v = ViewMode::Logs;
    }
    if k.num5 {
        v = ViewMode::Stats;
    }
    if k.cmd_l {
        v = ViewMode::Logs;
    }
    let settings_shown = if k.esc {
        Some(false)
    } else if k.cmd_comma {
        Some(true)
    } else {
        None
    };
    ShortcutEffect {
        view_mode: v,
        focus_search: k.slash,
        reset_pending_settings: k.cmd_comma,
        settings_shown,
        dismiss_close_confirm: k.esc,
    }
}

} // verus!
