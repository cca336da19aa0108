use animedl::catalog::{
    absolute_episode_number, as_id_from, check_languages, collect_consumet_query, order_preferred_first,
    remaining_lecteurs, total_episodes, us_id_from, va_id_from, va_source_order, valid_lecteurs_for_host, Episode,
    Lang, Root2, Saison, Vf, Vo,
};
use animedl::settings::{find_setting, str_eq_ignore_ascii_case, AppSettings, SortMode, UserStatus};

fn episode(vo: &[&str], vf: &[&str]) -> Episode {
    Episode {
        title: "e".to_string(),
        lang: Lang {
            vf: Vf { lecteurs: vf.iter().map(|s| s.to_string()).collect() },
            vo: Vo { lecteurs: vo.iter().map(|s| s.to_string()).collect() },
        },
    }
}

fn anime() -> Root2 {
    let mut a = Root2::blank(3, "Title".to_string());
    a.saisons = vec![
        Saison { title: "S1".to_string(), episodes: vec![episode(&["hd", "Sibnet", "vidmoly"], &[]), episode(&[], &[])] },
        Saison { title: "S2".to_string(), episodes: vec![episode(&[], &["sendvid"])] },
    ];
    a
}

#[test]
fn site_ids_are_negative_hashes() {
    assert_eq!(va_id_from(""), -735455236727590);
    assert_eq!(us_id_from("abc"), -4400352996710220);
    assert_eq!(va_id_from("naruto-vf"), -2451395480391528);
    assert_eq!(as_id_from("naruto-vf"), -2451395480391529);
}

#[test]
fn languages_episodes_and_numbers() {
    let a = anime();
    assert_eq!(check_languages(&a), (true, true));
    assert_eq!(check_languages(&Root2::blank(1, String::new())), (false, false));
    assert_eq!(total_episodes(&a), 3);
    assert_eq!(absolute_episode_number(&a, 1, 0), 3);
    assert_eq!(absolute_episode_number(&a, 0, 1), 2);
}

#[test]
fn players_are_ordered_preferred_first() {
    assert_eq!(order_preferred_first(&vec![true, false, true, true], &vec![false, false, true, false]), vec![2, 0, 3]);
    let a = anime();
    assert_eq!(valid_lecteurs_for_host(&a, 0, 0, "vo", None), vec![1, 2]);
    assert_eq!(valid_lecteurs_for_host(&a, 0, 0, "vo", Some("VIDMOLY")), vec![2, 1]);
    assert_eq!(valid_lecteurs_for_host(&a, 1, 0, "vf", None), vec![0]);
    assert_eq!(valid_lecteurs_for_host(&a, 0, 5, "vo", None), Vec::<u64>::new());
    let hosts = vec!["sibnet".to_string(), "Vidmoly".to_string()];
    assert_eq!(va_source_order(&hosts, Some("vid")), vec![1, 0]);
    assert_eq!(va_source_order(&Vec::new(), Some("vid")), vec![0]);
    assert_eq!(remaining_lecteurs(&vec![0, 1, 2], &vec![1]), vec![0, 2]);
}

#[test]
fn alternative_sources_are_asked_with_the_other_titles() {
    let mut a = Root2::blank(1, "Title".to_string());
    a.title_o = "Original".to_string();
    a.titles.ja_jp = Some("タイトル".to_string());
    let (main, alts) = collect_consumet_query(&a);
    assert_eq!(main, "Title");
    assert_eq!(alts, vec!["Original".to_string(), "タイトル".to_string()]);
    a.title_o = "Title".to_string();
    a.titles.ja_jp = Some(String::new());
    assert_eq!(collect_consumet_query(&a).1, Vec::<String>::new());
}

#[test]
fn statuses_are_stored_under_their_keys() {
    for s in UserStatus::all() {
        assert_eq!(UserStatus::from_db_key(s.as_db_key()), Some(s));
    }
    assert_eq!(UserStatus::EnCours.as_db_key(), "en_cours");
    assert_eq!(UserStatus::Termine.label(), "Terminé");
    assert_eq!(UserStatus::from_db_key("nope"), None);
    assert_eq!(SortMode::EpisodesCount.label(), "Nb épisodes");
    assert_eq!(SortMode::all()[0], SortMode::TitleAlpha);
}

#[test]
fn settings_read_what_was_stored_and_default_the_rest() {
    let rows = vec![
        ("max_concurrent_downloads".to_string(), "8".to_string()),
        ("max_concurrent_extractions".to_string(), "many".to_string()),
        ("chrome_headless".to_string(), "TRUE".to_string()),
        ("skip_existing".to_string(), "0".to_string()),
        ("naming_format".to_string(), "simple".to_string()),
    ];
    let s = AppSettings::load(&rows);
    assert_eq!(s.max_concurrent_downloads, 8);
    assert_eq!(s.max_concurrent_extractions, 1);
    assert!(s.chrome_headless);
    assert!(!s.skip_existing);
    assert_eq!(s.naming_format, "simple");
    assert!(s.anikuro_enabled);
    assert_eq!(s.consumet_provider, "gogoanime");
    assert_eq!(find_setting(&rows, "skip_existing"), Some("0".to_string()));
    assert_eq!(find_setting(&rows, "absent"), None);
    assert!(str_eq_ignore_ascii_case("TrUe", "true"));
}

#[test]
fn saved_settings_load_back_the_same() {
    let mut s = AppSettings::default();
    s.max_concurrent_downloads = 2;
    s.download_dir = "/data".to_string();
    s.theme_dark = false;
    s.anikuro_prefer_dub = true;
    let rows = s.save();
    assert_eq!(rows.len(), 18);
    assert_eq!(rows[0], ("max_concurrent_downloads".to_string(), "2".to_string()));
    let t = AppSettings::load(&rows);
    assert_eq!(t.max_concurrent_downloads, 2);
    assert_eq!(t.download_dir, "/data");
    assert!(!t.theme_dark);
    assert!(t.anikuro_prefer_dub);
    assert_eq!(t.naming_format, s.naming_format);
}

#[test]
fn settings_window_reports_unsaved_changes() {
    let saved = AppSettings::default();
    let mut pending = AppSettings::default();
    assert!(!animedl::settings::settings_dirty(&pending, &saved));
    pending.anikuro_provider = "zoro".to_string();
    assert!(animedl::settings::settings_dirty(&pending, &saved));
}
