use animedl::providers::{
    classify_provider, embed_reader, is_cloudflare_challenge, is_known_video_host, normalize_scheme, page_attempt,
    readers_for, scraped_video_url, sec_ch_ua_for, sendvid_video_url, sibnet_absolute, sibnet_video_url,
    vidmoly_video_url, HttpAttempt, PageReader, ScraperError, VideoProvider,
};
use animedl::tasks::{
    capped_delay, check_content_type, check_written_size, eta_seconds, should_retry, DownloadStatus, TaskList,
};

#[test]
fn players_are_classified_by_their_address() {
    assert_eq!(classify_provider("https://video.sibnet.ru/shell.php?videoid=1"), VideoProvider::Sibnet);
    assert_eq!(classify_provider("https://sendvid.com/embed/x"), VideoProvider::Sendvid);
    assert_eq!(classify_provider("https://filemoon.sx/e/x"), VideoProvider::FileMoon);
    assert_eq!(classify_provider("https://vidmoly.to/embed-x.html"), VideoProvider::Vidmoly);
    assert_eq!(classify_provider("https://example.com/x"), VideoProvider::Unknown);
    assert_eq!(readers_for(VideoProvider::Sibnet), vec![PageReader::Sibnet, PageReader::Vidmoly]);
    assert_eq!(readers_for(VideoProvider::Unknown), Vec::<PageReader>::new());
    assert_eq!(embed_reader("https://UQLOAD.io/embed"), Some(PageReader::Scrape));
    assert_eq!(embed_reader("https://sendvid.com/x"), Some(PageReader::Sendvid));
    assert_eq!(embed_reader("https://nowhere/x"), None);
}

#[test]
fn known_hosts_and_challenges() {
    assert!(is_known_video_host("https://VIDMOLY.to/x"));
    assert!(is_known_video_host("https://ok.ru/videoembed/1"));
    assert!(!is_known_video_host("https://franime.fr/x"));
    assert!(is_cloudflare_challenge("<title>Just a moment...</title>"));
    assert!(!is_cloudflare_challenge("<html>ok</html>"));
}

#[test]
fn client_hints_follow_the_chrome_version() {
    assert_eq!(
        sec_ch_ua_for("Mozilla/5.0 Chrome/131.0.0.0 Safari/537.36"),
        "\"Google Chrome\";v=\"131\", \"Chromium\";v=\"131\", \"Not_A Brand\";v=\"24\""
    );
    assert_eq!(
        sec_ch_ua_for("curl/8"),
        "\"Google Chrome\";v=\"148\", \"Chromium\";v=\"148\", \"Not_A Brand\";v=\"24\""
    );
}

#[test]
fn episode_pages_give_an_iframe_a_challenge_or_nothing() {
    let page = "<iframe src=\"https://ads.example/x\"></iframe><iframe src=\"https://video.sibnet.ru/shell.php?videoid=7\"></iframe>";
    match page_attempt(page, 200, false) {
        HttpAttempt::Found(s) => assert_eq!(s, "https://video.sibnet.ru/shell.php?videoid=7"),
        _ => panic!("iframe not found"),
    }
    assert!(matches!(page_attempt(page, 503, true), HttpAttempt::Challenge));
    assert!(matches!(page_attempt("Just a moment", 200, false), HttpAttempt::Challenge));
    assert!(matches!(page_attempt(page, 404, false), HttpAttempt::Miss));
    assert!(matches!(page_attempt("<p>none</p>", 200, false), HttpAttempt::Miss));
}

#[test]
fn player_pages_give_the_video_address() {
    assert_eq!(sibnet_absolute("/v/abc.mp4"), "https://video.sibnet.ru/v/abc.mp4");
    assert_eq!(sibnet_absolute("//cdn/x.mp4"), "https://cdn/x.mp4");
    assert_eq!(sibnet_absolute("http://a/x.mp4"), "http://a/x.mp4");
    assert_eq!(
        sibnet_video_url("player.src([{src: \"/v/ab12.mp4\", type: \"video/mp4\"}])"),
        Some("https://video.sibnet.ru/v/ab12.mp4".to_string())
    );
    assert_eq!(sibnet_video_url("nothing here"), None);
    assert_eq!(
        vidmoly_video_url("sources: [{file:\"https://v/master.m3u8\"}]"),
        Some("https://v/master.m3u8".to_string())
    );
    assert_eq!(scraped_video_url("var a = {file: \"//cdn/v.mp4\"}"), Some("https://cdn/v.mp4".to_string()));
    assert_eq!(normalize_scheme("  //a/b "), "https://a/b");
    assert_eq!(normalize_scheme("http://a"), "http://a");
    assert_eq!(
        sendvid_video_url("<video id=\"video_source\" src=\"https://s/v.mp4\"></video>"),
        Some("https://s/v.mp4".to_string())
    );
    assert_eq!(sendvid_video_url("<video id=\"video_source\" src=\"undefined\"></video>"), None);
}

#[test]
fn scraper_errors_have_their_messages() {
    assert_eq!(ScraperError::VideoSourceNotFound.message(), "Source vidéo non trouvée");
    assert_eq!(ScraperError::Timeout("10s".to_string()).message(), "Timeout: 10s");
    assert_eq!(ScraperError::NetworkError("x".to_string()).message(), "Erreur réseau: x");
}

#[test]
fn download_figures_and_checks() {
    assert_eq!(eta_seconds(1000, 400, 100), 6);
    assert_eq!(eta_seconds(1000, 400, 0), 0);
    assert!(check_content_type("video/mp4").is_ok());
    assert!(check_content_type("text/html; charset=utf-8").is_err());
    assert!(check_written_size(100_000).is_ok());
    match check_written_size(10) {
        Err(ScraperError::NetworkError(m)) => assert_eq!(m, "fichier trop petit (10 octets), source probablement invalide"),
        _ => panic!("small file accepted"),
    }
    assert!(should_retry(1, 3));
    assert!(!should_retry(3, 3));
    assert_eq!(capped_delay(5000, 30000), 5000);
    assert_eq!(capped_delay(50000, 30000), 30000);
}

#[test]
fn task_list_follows_a_download() {
    let mut list = TaskList::new();
    let id = list.add_pending("/tmp/a.mp4".to_string());
    assert!(list.find(&id).is_some());
    let other = list.add_pending("/tmp/b.mp4".to_string());
    assert_ne!(id, other);
    assert_eq!(id.len(), 36);
    list.forget(&other);
    assert_eq!(list.find("nope"), None);
    assert!(list.set_task_host(&id, Some("sibnet".to_string())).is_some());
    assert!(list.add_attempted_lecteur(&id, 2).is_some());
    assert!(list.add_attempted_lecteur(&id, 2).is_some());
    assert!(list.begin(&id, "https://v/x.mp4".to_string(), DownloadStatus::Queued).is_ok());
    assert!(list.begin("nope", "u".to_string(), DownloadStatus::Queued).is_err());
    match list.output_path_of(&id) {
        Ok(p) => assert_eq!(p, "/tmp/a.mp4"),
        Err(_) => panic!("task lost"),
    }
    assert!(!list.is_cancelled(&id));
    assert!(list.complete_unless_cancelled(&id).is_some());
    list.cancel(&id);
    assert!(list.is_cancelled(&id));
    list.forget(&id);
    assert_eq!(list.find(&id), None);
}
