use animedl::voiranime::{
    anime_detail_url, browse_page_url, episode_iframe_from_page, episode_sources_from_page, extract_video_frame_block,
    is_blacklisted_iframe, is_whitelisted_video_host, parse_chapter_sources, parse_detail, parse_episodes, parse_iframe,
    parse_list, VaError,
};

#[test]
fn list_and_detail_addresses() {
    assert_eq!(browse_page_url(1), "https://voir-anime.to/liste-danimes/");
    assert_eq!(browse_page_url(0), "https://voir-anime.to/liste-danimes/");
    assert_eq!(browse_page_url(3), "https://voir-anime.to/liste-danimes/page/3/");
    assert_eq!(anime_detail_url("07-ghost"), "https://voir-anime.to/anime/07-ghost/");
    assert_eq!(VaError::NoIframe.message(), "Pas d'iframe trouvée");
    assert_eq!(VaError::Status(503).message(), "HTTP status 503");
}

#[test]
fn frames_are_sorted_into_players_and_ads() {
    assert!(is_blacklisted_iframe("https://googleads.g.DOUBLECLICK.net/x"));
    assert!(is_blacklisted_iframe("https://voir-anime.to/x"));
    assert!(is_blacklisted_iframe(""));
    assert!(!is_blacklisted_iframe("https://vidmoly.to/embed-1.html"));
    assert!(is_whitelisted_video_host("https://VIDMOLY.to/x"));
    assert!(!is_whitelisted_video_host("https://example.com/x"));
}

#[test]
fn episode_pages_give_their_player() {
    let page = r#"<div class="chapter-video-frame"><iframe src="https://doubleclick.net/ad"></iframe><iframe src='https://vidmoly.to/e/1'></iframe></div>"#;
    assert_eq!(extract_video_frame_block(page).map(|b| b.starts_with("chapter-video-frame")), Some(true));
    assert_eq!(parse_iframe(page), Some("https://vidmoly.to/e/1".to_string()));
    let loose = r#"<iframe src="https://example.com/x"></iframe><iframe src="https://sendvid.com/embed/2"></iframe>"#;
    assert_eq!(parse_iframe(loose), Some("https://sendvid.com/embed/2".to_string()));
    assert_eq!(parse_iframe("<p>no frame</p>"), None);
    match episode_iframe_from_page(loose) {
        Ok(s) => assert_eq!(s, "https://sendvid.com/embed/2"),
        Err(_) => panic!("frame not found"),
    }
    assert!(matches!(episode_iframe_from_page("<p></p>"), Err(VaError::NoIframe)));
}

#[test]
fn chapter_sources_name_their_hosts() {
    let page = r#"<script>var thisChapterSources = {"LECTEUR Vidmoly": "<iframe src=\"https://vidmoly.to/e/1\"></iframe>", "Ads": "<iframe src=\"https://doubleclick.net/x\"></iframe>", "Num": 5};</script>"#;
    let s = parse_chapter_sources(page);
    assert_eq!(s.len(), 1);
    assert_eq!(s[0].host, "Vidmoly");
    assert_eq!(s[0].iframe, "https://vidmoly.to/e/1");
    assert!(parse_chapter_sources("<p>nothing</p>").is_empty());
    match episode_sources_from_page(r#"<iframe src="https://sendvid.com/embed/2"></iframe>"#) {
        Ok(v) => {
            assert_eq!(v.len(), 1);
            assert_eq!(v[0].host, "default");
        },
        Err(_) => panic!("fallback frame not used"),
    }
    assert!(matches!(episode_sources_from_page("<p></p>"), Err(VaError::NoIframe)));
}

#[test]
fn the_list_page_gives_each_series_once() {
    let html = r#"<div id="manga-item-1"><a href="https://voir-anime.to/anime/07-ghost/" title="07-Ghost">x</a>
<div class="post-title font-title"><h3><a href="https://voir-anime.to/anime/07-ghost/">07-Ghost &amp; Co</a></h3></div><img data-src="https://img/1.jpg"></div>
<div id="manga-item-2"><a href="https://voir-anime.to/anime/naruto-vf/" title="Naruto VF">y</a></div>
<div id="manga-item-3"><a href="https://voir-anime.to/anime/07-ghost/" title="dup">z</a></div>"#;
    let list = parse_list(html);
    assert_eq!(list.len(), 2);
    assert_eq!(list[0].slug, "07-ghost");
    assert_eq!(list[0].title, "07-Ghost & Co");
    assert_eq!(list[0].url, "https://voir-anime.to/anime/07-ghost/");
    assert_eq!(list[0].image, Some("https://img/1.jpg".to_string()));
    assert_eq!(list[1].slug, "naruto-vf");
    assert_eq!(list[1].title, "Naruto VF");
    assert_eq!(list[1].image, None);
    assert!(parse_list("<p>empty</p>").is_empty());
}

#[test]
fn episodes_are_numbered_and_kept_once_each() {
    let html = r#"<a href="https://voir-anime.to/anime/07-ghost/07-ghost-02-vostfr/">2</a>
<a class="x" href="https://voir-anime.to/anime/07-ghost/07-ghost-01-vostfr/">1</a>
<a href="https://voir-anime.to/anime/07-ghost/07-ghost-01-vf/">1 vf</a>
<a href="https://voir-anime.to/anime/other/other-01-vostfr/">o</a>"#;
    let eps = parse_episodes("07-ghost", html);
    assert_eq!(eps.len(), 2);
    assert_eq!(eps[0].number, 1);
    assert_eq!(eps[0].url, "https://voir-anime.to/anime/07-ghost/07-ghost-01-vostfr/");
    assert_eq!(eps[0].lang, "vostfr");
    assert_eq!(eps[0].title, "Épisode 1");
    assert_eq!(eps[1].number, 2);
    let unnumbered = r#"<a href="https://voir-anime.to/anime/x/special-vf/">s</a><a href="https://voir-anime.to/anime/x/special-vf/">s</a>"#;
    let eps = parse_episodes("x", unnumbered);
    assert_eq!(eps.len(), 1);
    assert_eq!(eps[0].number, 0);
    assert_eq!(eps[0].lang, "vf");
}

#[test]
fn series_pages_give_their_details() {
    let html = r##"<div class="post-title"><h1>07-<b>Ghost</b></h1></div>
<div class="summary__content show-more"><p>A story &amp; more.</p></div>
<div class="summary_image"><a href="#"><img class="img" data-src="https://img/p.jpg"></a></div>
<div class="genres-content"><a href="#">Action</a>, <a href="#"> Drama </a></div>
<span id="averagerate" class="score"> 8.5 </span>
<div class="post-content_item"> <div class="summary-heading"> <h5> Status </h5> </div> <div class="summary-content"> Terminé </div>"##;
    match parse_detail("07-ghost", html) {
        Ok(d) => {
            assert_eq!(d.slug, "07-ghost");
            assert_eq!(d.title, "07- Ghost");
            assert_eq!(d.description, "A story & more.");
            assert_eq!(d.image, Some("https://img/p.jpg".to_string()));
            assert_eq!(d.genres, vec!["Action".to_string(), "Drama".to_string()]);
            assert_eq!(d.score_text, Some("8.5".to_string()));
            assert_eq!(d.status, Some("Terminé".to_string()));
            assert_eq!(d.year, None);
            assert!(d.episodes.is_empty());
        },
        Err(_) => panic!("detail refused"),
    }
    match parse_detail("slug-only", "<p></p>") {
        Ok(d) => assert_eq!(d.title, "slug-only"),
        Err(_) => panic!("detail refused"),
    }
}

#[test]
fn episode_links_match_the_slug_literally() {
    let html = r#"<a href="https://voir-anime.to/anime/axb/axb-01-vf/">1</a>"#;
    assert!(parse_episodes("a.b", html).is_empty());
    let html = r#"<a href="https://voir-anime.to/anime/a.b/a.b-01-vf/">1</a>"#;
    assert_eq!(parse_episodes("a.b", html).len(), 1);
}

#[test]
fn episodes_of_a_series_page_start_without_players() {
    let html = r#"<a href="https://voir-anime.to/anime/x/x-01-vf/">1</a><a href="https://voir-anime.to/anime/x/x-02-vf/">2</a>"#;
    match parse_detail("x", html) {
        Ok(d) => {
            assert_eq!(d.episodes.len(), 2);
            assert!(d.episodes.iter().all(|e| e.sources.is_empty()));
        },
        Err(_) => panic!("detail refused"),
    }
}
