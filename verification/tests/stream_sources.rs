use animedl::anikuro::{referer_of, select_stream, url_encode, AnikuroError, SourceEntry, SourcesRaw, SubObj};
use animedl::applog::LogLevel;
use animedl::consumet::{
    choose_episode, choose_source, consumet_base, search_url, urlencoding, watch_url, ConsumetError, ConsumetTitle,
    EpisodeInfo, SearchResult, StreamSource,
};
use animedl::sidecar::{
    iframe_outcome, refresh_outcome, reply_of, result_payload, stderr_level, video_outcome, RefreshOutcome,
    RequestOutcome, Response, SidecarError, SidecarMetrics, SidecarReply,
};
use animedl::uniquestream::{
    browse_url, check_content_type, episodes_url, hls_attempt_order, media_requests, pick_audio_locale, prefers_dub,
    EpisodeMedia, EpisodePager, HlsBlock, HlsVersion, MediaVersions, PagerStep, UsError,
};
use animedl::ytdlp::{first_line, non_zero, url_from_output, ytdlp_args, YtDlpError};

fn strings(v: &[&str]) -> Vec<String> {
    v.iter().map(|s| s.to_string()).collect()
}

fn media(hls: Option<(&str, &str)>, versions: &[(&str, &str)]) -> EpisodeMedia {
    EpisodeMedia {
        title: None,
        content_id: None,
        hls: hls.map(|(l, p)| HlsBlock { locale: l.to_string(), playlist: p.to_string(), hard_subs: None }),
        versions: Some(MediaVersions {
            hls: versions
                .iter()
                .map(|(l, p)| HlsVersion { locale: l.to_string(), playlist: p.to_string() })
                .collect(),
        }),
    }
}

#[test]
fn audio_locale_prefers_first_listed_dub() {
    let offered = Some(strings(&["ja-JP", "en-US", "fr-FR"]));
    assert_eq!(pick_audio_locale(&offered, true), "fr-FR");
    assert_eq!(pick_audio_locale(&offered, false), "ja-JP");
    assert_eq!(pick_audio_locale(&Some(strings(&["ko-KR"])), false), "ko-KR");
    assert_eq!(pick_audio_locale(&Some(strings(&["ko-KR"])), true), "ko-KR");
    assert_eq!(pick_audio_locale(&None, true), "ja-JP");
}

#[test]
fn hls_candidates_put_desired_dub_first_and_drop_empty_playlists() {
    let answers = vec![
        media(Some(("ja-JP", "p2")), &[]),
        media(None, &[("fr-FR", "p1"), ("en-US", "p2"), ("de-DE", "")]),
    ];
    let order = hls_attempt_order(&answers, "fr-FR", true).ok().unwrap();
    let got: Vec<(String, String)> = order;
    assert_eq!(got, vec![("fr-FR".to_string(), "p1".to_string()), ("ja-JP".to_string(), "p2".to_string())]);
}

#[test]
fn hls_without_playlists_is_no_hls() {
    let answers = vec![media(None, &[("de-DE", "")])];
    assert!(matches!(hls_attempt_order(&answers, "ja-JP", false), Err(UsError::NoHls)));
    assert_eq!(UsError::NoHls.message(), "Pas de média HLS");
    assert_eq!(UsError::Http("boom".to_string()).message(), "HTTP: boom");
}

#[test]
fn uniquestream_request_urls() {
    let (first, all) = media_requests("episode", "abc", "fr-FR");
    assert_eq!(first, "https://anime.uniquestream.net/api/v1/episode/abc/media/hls/fr-FR");
    assert_eq!(all, "https://anime.uniquestream.net/api/v1/episode/abc/media/hls/zz-ZZ");
    assert_eq!(
        episodes_url("s1", 3, 20),
        "https://anime.uniquestream.net/api/v1/season/s1/episodes?page=3&limit=20"
    );
    assert_eq!(browse_url(40, 20), "https://anime.uniquestream.net/api/v1/videos/browse?offset=40&limit=20");
    assert!(prefers_dub("fr-FR"));
    assert!(!prefers_dub("ja-JP"));
    assert!(check_content_type("movie").is_ok());
    match check_content_type("special") {
        Err(e) => assert_eq!(e.message(), "API: content_type inconnu: special"),
        Ok(()) => panic!("a special is not a film"),
    }
}

#[test]
fn episode_pager_stops_on_short_page() {
    let mut p = EpisodePager::new();
    assert!(matches!(p.on_batch(20), PagerStep::Fetch(2)));
    assert!(matches!(p.on_batch(20), PagerStep::Fetch(3)));
    assert!(matches!(p.on_batch(7), PagerStep::Finished));
    assert_eq!(p.collected, 47);
    assert!(p.done);
    let mut q = EpisodePager::new();
    assert!(matches!(q.on_batch(0), PagerStep::Finished));
    assert_eq!(q.collected, 0);
}

fn response() -> Response {
    Response {
        id: Some(1),
        iframe_src: None,
        video_url: None,
        error: None,
        cf_clearance: None,
        user_agent: None,
        all_cookies: None,
        msg_type: None,
        pong: None,
        ok: None,
    }
}

#[test]
fn sidecar_lines_and_levels() {
    assert_eq!(result_payload("__FRANIME_RESULT__{\"id\":1}"), Some("{\"id\":1}".to_string()));
    assert_eq!(result_payload("plain log line"), None);
    assert_eq!(stderr_level("Traceback (most recent call last)"), LogLevel::Error);
    assert_eq!(stderr_level("request skipped"), LogLevel::Warn);
    assert_eq!(stderr_level("all good"), LogLevel::Info);
}

#[test]
fn sidecar_replies_are_classified() {
    let mut r = response();
    r.error = Some("oops".to_string());
    r.iframe_src = Some("https://x".to_string());
    assert!(matches!(reply_of(r), SidecarReply::Error(ref e) if e == "oops"));

    let mut r = response();
    r.iframe_src = Some("https://x".to_string());
    assert!(matches!(iframe_outcome(reply_of(r)), RequestOutcome::Found(ref u) if u == "https://x"));

    let mut r = response();
    r.iframe_src = Some(String::new());
    assert!(matches!(iframe_outcome(reply_of(r)), RequestOutcome::Failed(ref m) if m == "iframe src vide"));

    let mut r = response();
    r.video_url = Some(String::new());
    assert!(matches!(video_outcome(reply_of(r)), RequestOutcome::Failed(ref m) if m == "video url vide"));

    let mut r = response();
    r.cf_clearance = Some("token".to_string());
    r.user_agent = Some("UA".to_string());
    r.all_cookies = Some(vec![("a".to_string(), "1".to_string())]);
    match refresh_outcome(reply_of(r)) {
        RefreshOutcome::Refreshed(ready) => {
            assert_eq!(ready.user_agent, "UA");
            assert_eq!(ready.all_cookies, vec![("a".to_string(), "1".to_string())]);
        }
        _ => panic!("a clearance is a refresh"),
    }

    assert!(matches!(video_outcome(reply_of(response())), RequestOutcome::Unexpected));
    assert_eq!(SidecarError::ProcessDead(Some(3)).message(), "Sidecar process mort (code Some(3))");
    assert_eq!(SidecarError::ProcessDead(None).message(), "Sidecar process mort (code None)");
}

#[test]
fn sidecar_metrics_count_fetches() {
    let mut m = SidecarMetrics::new();
    m.record_fetch(true);
    m.record_fetch(false);
    m.record_fetch(true);
    assert_eq!(m.fetch_ok, 2);
    assert_eq!(m.fetch_err, 1);
    assert_eq!(m.cf_solves, 0);
}

#[test]
fn ytdlp_arguments() {
    assert_eq!(
        ytdlp_args("https://v/e", "https://ref/"),
        strings(&[
            "--no-warnings",
            "--quiet",
            "--get-url",
            "--no-playlist",
            "--no-check-certificate",
            "--referer",
            "https://ref/",
            "https://v/e"
        ])
    );
    assert_eq!(ytdlp_args("https://v/e", "").len(), 6);
}

#[test]
fn ytdlp_output_reading() {
    assert_eq!(url_from_output("noise\nhttps://a/1\nhttps://b/2  \nend\n").ok().unwrap(), "https://b/2");
    assert!(matches!(url_from_output("nothing here"), Err(YtDlpError::Empty)));
    assert!(matches!(url_from_output(""), Err(YtDlpError::Empty)));
    assert_eq!(first_line("boom\r\nsecond"), "boom");
    assert_eq!(first_line(""), "");
    assert_eq!(non_zero(Some(1), "boom\nmore").message(), "yt-dlp a renvoyé code Some(1) — boom");
    assert_eq!(YtDlpError::Timeout(30).message(), "Timeout yt-dlp après 30s");
    assert_eq!(YtDlpError::Empty.message(), "yt-dlp n'a rien retourné");
}

#[test]
fn consumet_base_and_endpoints() {
    assert!(matches!(consumet_base("   "), Err(ConsumetError::NoUrl)));
    let base = consumet_base("https://api.example//").ok().unwrap();
    assert_eq!(base, "https://api.example");
    assert_eq!(search_url(&base, "gogo", "One Piece"), "https://api.example/anime/gogo/One%20Piece");
    assert_eq!(watch_url(&base, "gogo", "ep-1"), "https://api.example/anime/gogo/watch/ep-1");
    assert_eq!(urlencoding("é a~b"), "%C3%A9%20a~b");
    assert_eq!(url_encode("x&y"), "x%26y");
}

#[test]
fn consumet_episode_and_source_choice() {
    let ep = |id: &str, n: Option<usize>| EpisodeInfo { id: id.to_string(), number: n, url: None, title: None };
    let eps = vec![ep("a", Some(2)), ep("b", Some(5)), ep("c", None)];
    assert_eq!(choose_episode(&eps, 5).ok(), Some(1));
    assert_eq!(choose_episode(&eps, 3).ok(), Some(2));
    assert_eq!(choose_episode(&eps, 0).ok(), Some(0));
    assert!(matches!(choose_episode(&eps, 9), Err(ConsumetError::NoEpisode(9))));

    let src = |q: Option<&str>| StreamSource { url: "u".to_string(), is_m3u8: true, quality: q.map(|s| s.to_string()) };
    let sources = vec![src(Some("backup")), src(Some("720p")), src(Some("1080p")), src(Some("360p"))];
    assert_eq!(choose_source(&sources).ok(), Some(2));
    assert!(matches!(choose_source(&Vec::new()), Err(ConsumetError::NoStream)));

    let r = SearchResult {
        id: "x".to_string(),
        title: ConsumetTitle::Object { english: None, romaji: Some(Some("Romaji".to_string())), native: None },
        image: None,
        sub_or_dub: None,
    };
    assert_eq!(r.title_str(), "Romaji");
}

fn track(default: Option<&str>, sources: Vec<(Option<&str>, Option<&str>)>, referer: Option<&str>) -> SubObj {
    SubObj {
        default: default.map(|s| s.to_string()),
        headers: referer.map(|r| vec![("Referer".to_string(), Some(r.to_string()))]),
        sources: Some(
            sources
                .into_iter()
                .map(|(u, q)| SourceEntry { url: u.map(|s| s.to_string()), quality: q.map(|s| s.to_string()) })
                .collect(),
        ),
    }
}

#[test]
fn anikuro_stream_selection() {
    let raw = SourcesRaw {
        sub: Some(track(None, vec![(Some("sub480"), Some("480p")), (Some("sub1080"), Some("1080p"))], Some("https://r/"))),
        dub: Some(track(Some("dubdefault"), vec![], None)),
    };
    let (url, referer) = select_stream(Some(raw), false).ok().unwrap();
    assert_eq!(url, "sub1080");
    assert_eq!(referer, Some("https://r/".to_string()));

    let raw = SourcesRaw {
        sub: Some(track(None, vec![(Some("sub480"), Some("480p"))], None)),
        dub: Some(track(Some("dubdefault"), vec![], None)),
    };
    let (url, referer) = select_stream(Some(raw), true).ok().unwrap();
    assert_eq!(url, "dubdefault");
    assert_eq!(referer, None);

    assert!(matches!(select_stream(None, true), Err(AnikuroError::NoStream)));
    let raw = SourcesRaw { sub: Some(track(None, vec![(None, Some("720p"))], None)), dub: None };
    assert!(matches!(select_stream(Some(raw), true), Err(AnikuroError::NoStream)));

    let headers = Some(vec![("referer".to_string(), Some("low".to_string()))]);
    assert_eq!(referer_of(&headers), Some("low".to_string()));
    assert_eq!(referer_of(&None), None);
}

#[test]
fn alternative_source_endpoints_and_messages() {
    assert_eq!(
        animedl::anikuro::sources_url("animepahe", 21, 7),
        "https://anikuro.to/api/v1/sources/animepahe/21:7"
    );
    assert_eq!(
        animedl::anikuro::search_url("Frieren"),
        "https://anikuro.to/api/v1/discovery/search?q=Frieren"
    );
    assert_eq!(AnikuroError::NoMatch("X".to_string()).message(), "Aucun résultat pour « X »");
    assert_eq!(AnikuroError::NoStream.message(), "Pas de source streaming");
    assert_eq!(ConsumetError::NoEpisode(12).message(), "Pas d'épisode 12 dans les résultats");
    assert_eq!(ConsumetError::NoUrl.message(), "URL Consumet vide");
}

#[test]
fn uniquestream_playlist_readiness() {
    assert_eq!(animedl::uniquestream::index_url(), "https://anime.uniquestream.net/api/v1/videos/index");
    assert!(animedl::uniquestream::playlist_ready(200, "#EXTM3U\n#EXT-X-VERSION:3"));
    assert!(!animedl::uniquestream::playlist_ready(200, "<html>"));
    assert!(!animedl::uniquestream::playlist_ready(403, "#EXTM3U"));
}

#[test]
fn helper_uptime_text() {
    assert_eq!(animedl::sidecar::uptime_text(true, 100, 3700), "1h00");
    assert_eq!(animedl::sidecar::uptime_text(true, 100, 145), "45s");
    assert_eq!(animedl::sidecar::uptime_text(true, 100, 50), "—");
    assert_eq!(animedl::sidecar::uptime_text(false, 100, 3700), "—");
    assert_eq!(animedl::sidecar::uptime_text(true, 0, 3700), "—");
}

#[test]
fn uniquestream_page_statuses() {
    assert!(matches!(animedl::uniquestream::page_status(404, "nope"), Err(UsError::NotASeries)));
    assert!(animedl::uniquestream::page_status(200, "{}").is_ok());
    match animedl::uniquestream::page_status(500, "oops") {
        Err(UsError::Api(m)) => assert_eq!(m, "HTTP 500 Internal Server Error body[:200]=oops"),
        _ => panic!("a server error is reported"),
    }
    let long = "a".repeat(300);
    match animedl::uniquestream::page_status(503, &long) {
        Err(e) => assert_eq!(e.message(), format!("API: HTTP 503 Service Unavailable body[:200]={}", "a".repeat(200))),
        Ok(()) => panic!("a server error is reported"),
    }
}
