use animedl::catalog::{va_id_from, Root2};
use animedl::cookies::CookieJar;
use animedl::fetcher::{api_headers, api_url, is_zstd, reply_text, FetchError};
use animedl::sync::{
    apply_va_cached, backfill_targets, cached_episode_number, image_items, language_flags, movie_cache,
    needs_image_fetch, poster_url, us_deep_update, us_entry_update, DeepProgress, SyncOutcome,
    UsCachedEpisode, UsCachedEpisodes, UsCachedSeason, UsListSync, VaCachedEpisodes, VaListSync,
    US_IMAGE_REFERER,
};
use animedl::uniquestream::{ContentDetail, MovieDetail};
use animedl::voiranime::{VaEpisode, VaSource};

#[test]
fn api_address_lists_the_episode_coordinates() {
    assert_eq!(api_url(12, 1, 3, "vo", 0), "https://api.franime.fr/api/anime/12/1/3/vo/0");
    let h = api_headers();
    assert_eq!(h.len(), 11);
    assert_eq!(h[1], ("Accept-Encoding".to_string(), "zstd".to_string()));
    assert_eq!(h[6], ("Referer".to_string(), "https://franime.fr/".to_string()));
}

#[test]
fn zstd_is_recognised_in_any_case() {
    assert!(is_zstd(Some("ZSTD")));
    assert!(is_zstd(Some("zstd")));
    assert!(!is_zstd(Some("gzip")));
    assert!(!is_zstd(None));
}

#[test]
fn replies_are_checked_decoded_and_read() {
    assert!(matches!(reply_text(404, None, b"x".to_vec()), Err(FetchError::Status(404))));
    assert_eq!(FetchError::Status(404).message(), "Server returned status 404 Not Found");
    assert_eq!(FetchError::Status(999).message(), "Server returned status 999 <unknown status code>");
    match reply_text(200, None, "héllo".as_bytes().to_vec()) {
        Ok(s) => assert_eq!(s, "héllo"),
        Err(_) => panic!("plain body refused"),
    }
    assert!(matches!(reply_text(200, None, vec![0xff, 0xfe]), Err(FetchError::Utf8(_))));
    let packed = zstd::encode_all(&b"{\"url\":\"x\"}"[..], 0).unwrap();
    match reply_text(200, Some("Zstd"), packed) {
        Ok(s) => assert_eq!(s, "{\"url\":\"x\"}"),
        Err(_) => panic!("zstd body refused"),
    }
    assert!(matches!(reply_text(200, Some("zstd"), b"not zstd".to_vec()), Err(FetchError::Decompress(_))));
    assert_eq!(FetchError::Http("timeout".to_string()).message(), "HTTP error: timeout");
}

#[test]
fn cookie_jar_reads_what_was_set() {
    let mut jar = CookieJar::new("");
    assert_eq!(jar.get(), "");
    assert_eq!(jar.cookie_header(), "");
    let set = vec![
        ("a".to_string(), "1".to_string()),
        ("cf_clearance".to_string(), "x".to_string()),
        ("a".to_string(), "2".to_string()),
    ];
    assert_eq!(jar.set_all(&set), Some("x".to_string()));
    assert_eq!(jar.get(), "x");
    assert_eq!(jar.cookie_header(), "a=2; cf_clearance=x");
    assert_eq!(jar.set_all(&vec![("b".to_string(), "3".to_string())]), None);
    let jar = CookieJar::new("init");
    assert_eq!(jar.get(), "init");
    assert_eq!(jar.cookie_header(), "cf_clearance=init");
}

#[test]
fn uniquestream_list_stops_on_a_short_page() {
    let mut s = UsListSync::new();
    assert_eq!(s.next_request(), Some((0, 50)));
    s.on_batch(50);
    assert_eq!(s.next_request(), Some((50, 50)));
    s.on_batch(10);
    assert_eq!(s.next_request(), None);
    assert_eq!(s.offset, 60);
    let mut e = UsListSync::new();
    e.on_batch(0);
    assert_eq!(e.next_request(), None);
    let mut f = UsListSync::new();
    f.on_browse_failed();
    assert_eq!(f.next_request(), None);
}

#[test]
fn only_the_first_three_failed_saves_are_reported() {
    let mut s = UsListSync::new();
    assert!(!s.on_saved(true));
    let reports: Vec<bool> = (0..4).map(|_| s.on_saved(false)).collect();
    assert_eq!(reports, vec![true, true, true, false]);
    assert_eq!((s.saved, s.errors), (1, 4));
    s.on_images(3);
    let deep = DeepProgress::new(2, 50);
    match s.outcome(100, &deep) {
        SyncOutcome::Success { saved, total } => assert_eq!((saved, total), (1, 102)),
        SyncOutcome::Failure(_) => panic!("unexpected failure"),
    }
}

#[test]
fn voiranime_list_gives_up_after_five_failures_or_two_empty_pages() {
    let mut s = VaListSync::new();
    assert_eq!(s.next_request(), Some(1));
    for _ in 0..5 {
        s.on_browse_failed();
    }
    assert_eq!(s.next_request(), Some(6));
    s.on_browse_failed();
    assert_eq!(s.next_request(), None);

    let mut e = VaListSync::new();
    e.on_batch(0);
    assert_eq!(e.next_request(), Some(2));
    e.on_batch(3);
    assert_eq!(e.next_request(), Some(3));
    e.on_batch(0);
    e.on_batch(0);
    assert_eq!(e.next_request(), None);
    assert!(e.on_saved(false));
    let deep = DeepProgress::new(4, 25);
    match e.outcome(&deep) {
        SyncOutcome::Success { saved, total } => assert_eq!((saved, total), (0, 4)),
        SyncOutcome::Failure(_) => panic!("unexpected failure"),
    }
}

#[test]
fn enrichment_progress_is_reported_periodically_and_at_the_end() {
    let mut p = DeepProgress::new(3, 2);
    assert!(!p.on_done());
    assert!(p.on_done());
    assert!(p.on_done());
    p.on_failed();
    assert_eq!((p.done, p.failed), (3, 1));
}

#[test]
fn images_are_fetched_once_from_http_addresses() {
    assert!(needs_image_fetch("http://x/a.jpg", false));
    assert!(!needs_image_fetch("https://x/a.jpg", true));
    assert!(!needs_image_fetch("ftp://x/a.jpg", false));
    assert!(!needs_image_fetch("", false));
    let mut a = Root2::blank(1, "A".to_string());
    a.affiche = "big".to_string();
    assert_eq!(poster_url(&a), "big");
    a.affiche_small = Some("small".to_string());
    assert_eq!(poster_url(&a), "small");
    let empty = Root2::blank(2, "B".to_string());
    let items = image_items(&vec![Some("u1".to_string()), None], US_IMAGE_REFERER);
    assert_eq!(items, vec![("u1".to_string(), Some("https://anime.uniquestream.net/".to_string()))]);
    let all = backfill_targets(&vec![a, empty], &vec![Some("u".to_string())], &vec![Some("v".to_string())]);
    assert_eq!(
        all,
        vec![
            ("small".to_string(), None),
            ("u".to_string(), Some("https://anime.uniquestream.net/".to_string())),
            ("v".to_string(), Some("https://voir-anime.to/".to_string())),
        ]
    );
}

#[test]
fn dub_and_original_flags_of_audio_locales() {
    let v = |xs: &[&str]| xs.iter().map(|s| s.to_string()).collect::<Vec<String>>();
    assert_eq!(language_flags(&v(&["ja-JP", "fr-FR"])), (true, true));
    assert_eq!(language_flags(&v(&[])), (false, true));
    assert_eq!(language_flags(&v(&["fr-FR"])), (true, false));
    assert_eq!(language_flags(&v(&[""])), (false, false));
}

fn us_episode(id: &str, title: &str, n: i64) -> UsCachedEpisode {
    UsCachedEpisode { content_id: id.to_string(), title: title.to_string(), episode_number: n, duration_ms: None, image: None }
}

#[test]
fn cached_uniquestream_list_becomes_seasons() {
    let cached = UsCachedEpisodes {
        audio_locales: vec!["ja-JP".to_string()],
        seasons: vec![UsCachedSeason {
            season_content_id: "s".to_string(),
            title: String::new(),
            season_number: 2,
            episodes: vec![us_episode("e1", "", 0), us_episode("e2", "Pilot", 3)],
        }],
        is_movie: false,
    };
    let u = us_entry_update(&cached);
    assert!(u.has_vo);
    assert!(!u.has_vf);
    assert_eq!(u.saisons.len(), 1);
    assert_eq!(u.saisons[0].title, "Saison 2");
    assert_eq!(u.saisons[0].episodes[0].title, "Épisode 1");
    assert_eq!(u.saisons[0].episodes[1].title, "Pilot");
    assert_eq!(u.saisons[0].episodes[0].lang.vo.lecteurs, vec!["uniquestream".to_string()]);
    assert!(u.saisons[0].episodes[0].lang.vf.lecteurs.is_empty());
    assert_eq!(u.episode_ids, vec![vec!["e1".to_string(), "e2".to_string()]]);
    assert_eq!(cached_episode_number(None, 4), 5);
    assert_eq!(cached_episode_number(Some(12), 4), 12);
}

#[test]
fn a_film_is_cached_as_one_episode() {
    let m = MovieDetail {
        content_id: None,
        title: String::new(),
        description: None,
        image: Some("img".to_string()),
        year: Some(2020),
        duration_ms: Some(5000),
        audio_locales: None,
        subtitle_locales: None,
    };
    let c = movie_cache("m1", &m);
    assert!(c.is_movie);
    assert_eq!(c.audio_locales, vec!["ja-JP".to_string()]);
    assert_eq!(c.seasons[0].title, "Film");
    assert_eq!(c.seasons[0].episodes[0].title, "Film");
    assert_eq!(c.seasons[0].episodes[0].content_id, "m1");
    assert_eq!(c.seasons[0].episodes[0].duration_ms, Some(5000));
    let u = us_deep_update(&ContentDetail::Movie(m));
    assert_eq!(u.content_type, "movie");
    assert_eq!(u.info, None);
    assert_eq!(u.dubbed, None);
}

fn va_episode(lang: &str, title: &str, url: &str, hosts: &[&str]) -> VaEpisode {
    VaEpisode {
        number: 1,
        url: url.to_string(),
        title: title.to_string(),
        lang: lang.to_string(),
        sources: hosts.iter().map(|h| VaSource { host: h.to_string(), iframe: format!("https://{}/e", h) }).collect(),
    }
}

#[test]
fn cached_voiranime_list_fills_the_entry() {
    let mut a = Root2::blank(va_id_from("x"), "X".to_string());
    let cached = VaCachedEpisodes {
        episodes: vec![
            va_episode("vostfr", "", "u1", &["vidmoly"]),
            va_episode("vf", "T2", "u2", &[]),
            va_episode("vostfr", "T3", "u3", &[]),
        ],
        description: "D".to_string(),
        genres: vec!["Action".to_string()],
        year: Some("2020".to_string()),
        status: None,
        score_text: Some("7.5".to_string()),
        image: Some("img".to_string()),
        title: "Other".to_string(),
    };
    let u = apply_va_cached(&mut a, &cached, Some("7.5".to_string()));
    assert_eq!(a.description, "D");
    assert_eq!(a.title, "X");
    assert_eq!(a.affiche, "img");
    assert_eq!(a.affiche_small, Some("img".to_string()));
    assert_eq!(a.start_date, "2020");
    assert_eq!(a.note, "7.5");
    assert_eq!(a.themes, vec!["Action".to_string()]);
    assert_eq!(a.saisons.len(), 1);
    assert_eq!(a.saisons[0].title, "Saison 1");
    assert_eq!(a.saisons[0].episodes.len(), 2);
    assert_eq!(a.saisons[0].episodes[0].title, "Épisode 1");
    assert_eq!(a.saisons[0].episodes[0].lang.vo.lecteurs, vec!["vidmoly".to_string()]);
    assert_eq!(a.saisons[0].episodes[1].title, "T3");
    assert_eq!(a.saisons[0].episodes[1].lang.vo.lecteurs, vec!["voiranime".to_string()]);
    assert!(u.has_vo && u.has_vf);
    assert_eq!(u.episode_urls, vec!["u1".to_string(), "u3".to_string()]);
    assert_eq!(u.episode_sources[0].len(), 1);
    assert!(u.episode_sources[1].is_empty());
}

#[test]
fn a_french_only_voiranime_list_keeps_every_episode() {
    let mut a = Root2::blank(1, String::new());
    let cached = VaCachedEpisodes {
        episodes: vec![va_episode("vf", "", "u1", &[])],
        description: String::new(),
        genres: Vec::new(),
        year: None,
        status: None,
        score_text: None,
        image: None,
        title: "Title".to_string(),
    };
    let u = apply_va_cached(&mut a, &cached, None);
    assert_eq!(a.title, "Title");
    assert!(!u.has_vo && u.has_vf);
    assert_eq!(a.saisons[0].episodes[0].lang.vf.lecteurs, vec!["voiranime".to_string()]);
    assert!(a.saisons[0].episodes[0].lang.vo.lecteurs.is_empty());
}

#[test]
fn a_series_page_is_cached_without_its_slug() {
    let detail = animedl::voiranime::VaDetail {
        slug: "07-ghost".to_string(),
        title: "07-Ghost".to_string(),
        description: "Desc".to_string(),
        image: Some("https://img/p.jpg".to_string()),
        genres: vec!["Action".to_string()],
        year: Some("2009".to_string()),
        status: Some("Terminé".to_string()),
        score_text: Some("8.1".to_string()),
        episodes: vec![va_episode("vostfr", "Épisode 1", "https://v/1", &["sibnet"])],
    };
    let c = animedl::sync::cached_from_detail(detail);
    assert_eq!(c.title, "07-Ghost");
    assert_eq!(c.description, "Desc");
    assert_eq!(c.genres, vec!["Action".to_string()]);
    assert_eq!(c.year.as_deref(), Some("2009"));
    assert_eq!(c.status.as_deref(), Some("Terminé"));
    assert_eq!(c.score_text.as_deref(), Some("8.1"));
    assert_eq!(c.image.as_deref(), Some("https://img/p.jpg"));
    assert_eq!(c.episodes.len(), 1);
    assert_eq!(c.episodes[0].url, "https://v/1");
}

#[test]
fn cookie_jar_keeps_its_user_agent() {
    let mut jar = CookieJar::new("c");
    assert!(jar.user_agent().contains("Chrome/131.0.0.0"));
    jar.set_user_agent("UA/2".to_string());
    jar.set("a", "1");
    assert_eq!(jar.user_agent(), "UA/2");
    assert_eq!(jar.get(), "c");
    assert_eq!(jar.cookie_header(), "cf_clearance=c; a=1");
}
