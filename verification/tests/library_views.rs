use animedl::browse::{
    entry_passes, matches_search, matches_themes, sort_key, stable_sort_order, us_entry, va_entry, BrowseFilter,
    EntryMarks, LangFilter, ThemeFilterMode, UsSeriesFacts,
};
use animedl::card::{
    add_typed_tag, apply_shortcuts, comment_to_save, in_my_list, is_mp4, m3u_file_name, m3u_playlist,
    orphan_report, shows_original_title, sorted_unique, view_positions, ShortcutKeys, ViewMode,
};
use animedl::catalog::{us_id_from, va_id_from, Root2};
use animedl::settings::{SortMode, UserStatus};
use animedl::stats::{history_figures, library_figures, status_counts, top_themes};
use animedl::voiranime::VaSeries;

fn strings(xs: &[&str]) -> Vec<String> {
    xs.iter().map(|s| s.to_string()).collect()
}

fn marks() -> EntryMarks {
    EntryMarks {
        has_vo: true,
        has_vf: false,
        is_downloaded: false,
        user_status: None,
        user_tags: Vec::new(),
        user_comment: String::new(),
    }
}

fn filter() -> BrowseFilter {
    BrowseFilter {
        lang: LangFilter::All,
        only_downloaded: false,
        hide_nsfw: false,
        statuses: Vec::new(),
        required_tags: Vec::new(),
        themes: Vec::new(),
        theme_mode: ThemeFilterMode::Any,
        query_lower: String::new(),
    }
}

#[test]
fn voiranime_series_become_entries() {
    let s = VaSeries {
        slug: "naruto-vf".to_string(),
        title: "Naruto".to_string(),
        url: "https://voir-anime.to/anime/naruto-vf/".to_string(),
        image: Some("img".to_string()),
    };
    let (a, vo, vf) = va_entry(&s);
    assert_eq!(a.id, va_id_from("naruto-vf"));
    assert!(a.id < 0);
    assert_eq!(a.title, "Naruto");
    assert_eq!(a.affiche, "img");
    assert_eq!(a.source_url, "https://voir-anime.to/anime/naruto-vf/");
    assert!(!vo && vf);
    let s2 = VaSeries { slug: "naruto".to_string(), title: "Naruto".to_string(), url: String::new(), image: None };
    let (b, vo, vf) = va_entry(&s2);
    assert!(vo && !vf);
    assert_eq!(b.affiche, "");
    assert_eq!(b.affiche_small, None);
}

#[test]
fn uniquestream_series_become_entries() {
    let s = UsSeriesFacts {
        content_id: "abc".to_string(),
        title: "Show".to_string(),
        subbed: true,
        dubbed: true,
        info: Some("Info".to_string()),
        image: None,
        year: Some(2019),
        status: Some("Ongoing".to_string()),
        note: Some("8.1".to_string()),
    };
    let (a, vo, vf) = us_entry(&s);
    assert_eq!(a.id, us_id_from("abc"));
    assert_eq!(a.description, "Info");
    assert_eq!(a.start_date, "2019");
    assert_eq!(a.status, "Ongoing");
    assert_eq!(a.note, "8.1");
    assert_eq!(a.source_url, "https://anime.uniquestream.net/series/abc");
    assert!(vo && vf);
}

#[test]
fn search_looks_in_titles_description_themes_and_comment() {
    let mut a = Root2::blank(1, "Naruto Shippuden".to_string());
    a.description = "A ninja story".to_string();
    a.themes = strings(&["Action"]);
    assert!(matches_search(&a, "", ""));
    assert!(matches_search(&a, "", "naruto"));
    assert!(matches_search(&a, "", "ninja"));
    assert!(matches_search(&a, "", "action"));
    assert!(matches_search(&a, "my favourite", "favourite"));
    assert!(!matches_search(&a, "", "narutp"));
    let b = Root2::blank(2, "Naruto".to_string());
    assert!(matches_search(&b, "", "narutp"));
    assert!(!matches_search(&b, "", "zz"));
}

#[test]
fn theme_filter_combines_any_or_all() {
    let themes = strings(&["Action", "Drama"]);
    assert!(matches_themes(&themes, &strings(&["Action", "Comedy"]), ThemeFilterMode::Any));
    assert!(!matches_themes(&themes, &strings(&["Action", "Comedy"]), ThemeFilterMode::All));
    assert!(matches_themes(&themes, &strings(&["Drama", "Action"]), ThemeFilterMode::All));
    assert!(matches_themes(&themes, &Vec::new(), ThemeFilterMode::All));
}

#[test]
fn entries_pass_every_filter() {
    let mut a = Root2::blank(1, "Title".to_string());
    a.nsfw = true;
    let m = marks();
    assert!(entry_passes(&a, &m, true, &filter()));
    assert!(!entry_passes(&a, &m, false, &filter()));
    let mut f = filter();
    f.hide_nsfw = true;
    assert!(!entry_passes(&a, &m, true, &f));
    let mut f = filter();
    f.lang = LangFilter::Both;
    assert!(!entry_passes(&a, &m, true, &f));
    f.lang = LangFilter::VO;
    assert!(entry_passes(&a, &m, true, &f));
    let mut f = filter();
    f.statuses = vec![UserStatus::Termine];
    assert!(!entry_passes(&a, &m, true, &f));
    let mut m2 = marks();
    m2.user_status = Some(UserStatus::Termine);
    m2.user_tags = strings(&["fav"]);
    assert!(entry_passes(&a, &m2, true, &f));
    f.required_tags = strings(&["fav", "later"]);
    assert!(!entry_passes(&a, &m2, true, &f));
    let mut f = filter();
    f.query_lower = "tit".to_string();
    assert!(entry_passes(&a, &m, true, &f));
}

#[test]
fn sorting_is_stable_in_both_directions() {
    let keys = vec![(0u64, "b".to_string()), (0, "a".to_string()), (0, "b".to_string())];
    assert_eq!(stable_sort_order(&keys, false), vec![1, 0, 2]);
    assert_eq!(stable_sort_order(&keys, true), vec![0, 2, 1]);
    let counts = vec![(3u64, String::new()), (1, String::new()), (3, String::new())];
    assert_eq!(stable_sort_order(&counts, true), vec![0, 2, 1]);
    assert_eq!(stable_sort_order(&counts, false), vec![1, 0, 2]);
    assert_eq!(stable_sort_order(&Vec::new(), false), Vec::<usize>::new());
}

#[test]
fn sort_keys_of_the_whole_number_and_text_orders() {
    let a = Root2::blank(1, "Zeta".to_string());
    assert_eq!(sort_key(&a, SortMode::TitleAlpha), Some((0, "zeta".to_string())));
    assert_eq!(sort_key(&a, SortMode::SeasonsCount), Some((0, String::new())));
    assert_eq!(sort_key(&a, SortMode::EpisodesCount), Some((0, String::new())));
    assert_eq!(sort_key(&a, SortMode::UserRating), None);
}

#[test]
fn library_and_history_figures() {
    let mut m1 = marks();
    m1.user_comment = "c".to_string();
    m1.is_downloaded = true;
    let mut m2 = marks();
    m2.user_status = Some(UserStatus::AVoir);
    m2.user_tags = strings(&["t"]);
    let f = library_figures(&vec![m1, m2, marks()]);
    assert_eq!((f.commented, f.downloaded, f.with_status, f.tagged), (1, 1, 1, 1));
    let c = status_counts(&vec![Some(UserStatus::AVoir), None, Some(UserStatus::Termine), Some(UserStatus::AVoir)]);
    assert_eq!(c, [2, 0, 0, 1, 0]);
    let h = vec![("vo".to_string(), 100i64), ("vf".to_string(), 700_000), ("vo".to_string(), 800_000)];
    let f = history_figures(&h, 1_000_000);
    assert_eq!((f.total, f.recent, f.vo, f.vf), (3, 2, 2, 1));
}

#[test]
fn top_themes_count_the_engaged_entries() {
    let entries = vec![
        (strings(&["Action", "Drama"]), true),
        (strings(&["Action", ""]), true),
        (strings(&["Comedy"]), false),
    ];
    assert_eq!(top_themes(&entries), vec![("Action".to_string(), 2), ("Drama".to_string(), 1)]);
    let many: Vec<(Vec<String>, bool)> = (0..20).map(|i| (vec![format!("t{}", i)], true)).collect();
    assert_eq!(top_themes(&many).len(), 15);
}

#[test]
fn typed_tags_are_trimmed_and_added_once() {
    let mut tags = strings(&["a"]);
    assert_eq!(add_typed_tag(&mut tags, "  b "), Some("b".to_string()));
    assert_eq!(tags, strings(&["a", "b"]));
    assert_eq!(add_typed_tag(&mut tags, "b"), None);
    assert_eq!(add_typed_tag(&mut tags, "   "), None);
    assert_eq!(tags, strings(&["a", "b"]));
}

#[test]
fn blank_comments_are_saved_as_none() {
    assert_eq!(comment_to_save("  "), None);
    assert_eq!(comment_to_save(" x "), Some(" x ".to_string()));
    assert!(shows_original_title("A", "B"));
    assert!(!shows_original_title("A", "A"));
    assert!(!shows_original_title("A", ""));
}

#[test]
fn my_list_keeps_the_entries_the_user_touched() {
    assert!(!in_my_list(&marks(), false, 0));
    assert!(in_my_list(&marks(), true, 0));
    assert!(in_my_list(&marks(), false, 2));
    assert_eq!(view_positions(&vec![0, 2, 3], true, &vec![true, false, false, true]), vec![0, 3]);
    assert_eq!(view_positions(&vec![0, 2, 3], false, &vec![true, false, false, true]), vec![0, 2, 3]);
}

#[test]
fn theme_and_tag_lists_are_sorted_without_repetition() {
    let lists = vec![strings(&["b", "a", ""]), strings(&["a", "c"])];
    assert_eq!(sorted_unique(&lists, true), strings(&["a", "b", "c"]));
    assert_eq!(sorted_unique(&lists, false), strings(&["", "a", "b", "c"]));
}

#[test]
fn playlists_list_the_downloaded_episodes() {
    let d = vec![(0usize, 1usize, "vo".to_string(), "/a.mp4".to_string())];
    assert_eq!(m3u_playlist("Show", &d), "#EXTM3U\n#EXTINF:-1,Show S01E02 (VO)\n/a.mp4\n");
    assert_eq!(m3u_playlist("Show", &Vec::new()), "#EXTM3U\n");
    assert_eq!(m3u_file_name("A/B"), "A_B.m3u");
}

#[test]
fn orphans_are_files_and_records_without_counterpart() {
    assert!(is_mp4("/x/a.mp4"));
    assert!(!is_mp4("/x/a.mkv"));
    assert!(!is_mp4("/x/mp4"));
    let r = orphan_report(&strings(&["a", "b", "a"]), &strings(&["b", "c"]));
    assert_eq!(r.disk_files, strings(&["a", "b"]));
    assert_eq!(r.db_paths, strings(&["b", "c"]));
    assert_eq!(r.disk_only, strings(&["a"]));
    assert_eq!(r.db_only, strings(&["c"]));
}

fn no_keys() -> ShortcutKeys {
    ShortcutKeys {
        slash: false,
        num1: false,
        num2: false,
        num3: false,
        num4: false,
        num5: false,
        esc: false,
        cmd_comma: false,
        cmd_l: false,
    }
}

#[test]
fn shortcuts_switch_pages_and_dialogs() {
    let e = apply_shortcuts(ViewMode::Catalogue, &no_keys());
    assert_eq!(e.view_mode, ViewMode::Catalogue);
    assert_eq!(e.settings_shown, None);
    let e = apply_shortcuts(ViewMode::Catalogue, &ShortcutKeys { num3: true, ..no_keys() });
    assert_eq!(e.view_mode, ViewMode::Telechargements);
    let e = apply_shortcuts(ViewMode::Stats, &ShortcutKeys { num2: true, cmd_l: true, ..no_keys() });
    assert_eq!(e.view_mode, ViewMode::Logs);
    let e = apply_shortcuts(ViewMode::Stats, &ShortcutKeys { cmd_comma: true, ..no_keys() });
    assert_eq!(e.settings_shown, Some(true));
    assert!(e.reset_pending_settings);
    let e = apply_shortcuts(ViewMode::Stats, &ShortcutKeys { cmd_comma: true, esc: true, slash: true, ..no_keys() });
    assert_eq!(e.settings_shown, Some(false));
    assert!(e.dismiss_close_confirm && e.focus_search);
}
