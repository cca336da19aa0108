use animedl::animesama::{
    catalogue_url, clean_title, detail_header, episodes_js_url, finish_detail, host_of, match_bracket,
    meta_content, offers_lang, parse_episodes_js, parse_genres, parse_sections, parse_sitemap,
    pretty_section_name, season_from_lists, section_bases, sitemap_url, slug_from_catalogue_url,
    transpose_players, AsError, AsSource,
};

fn src(url: &str) -> AsSource {
    AsSource { host: host_of(url), iframe: url.to_string() }
}

#[test]
fn catalogue_addresses_and_slugs() {
    assert_eq!(sitemap_url(), "https://anime-sama.to/sitemap.xml");
    assert_eq!(catalogue_url("one-piece"), "https://anime-sama.to/catalogue/one-piece/");
    assert_eq!(
        episodes_js_url("one-piece", "saison1", "vostfr"),
        "https://anime-sama.to/catalogue/one-piece/saison1/vostfr/episodes.js"
    );
    assert_eq!(slug_from_catalogue_url("https://anime-sama.to/catalogue/one-piece/"), Some("one-piece".to_string()));
    assert_eq!(slug_from_catalogue_url("https://anime-sama.to/catalogue/one-piece/saison1/"), None);
    assert_eq!(slug_from_catalogue_url("https://anime-sama.to/catalogue/"), None);
    assert_eq!(slug_from_catalogue_url("https://anime-sama.to/planning/"), None);
}

#[test]
fn sitemaps_list_catalogue_entries() {
    let xml = "<url><loc> https://anime-sama.to/catalogue/naruto/ </loc><lastmod>2024-01-02</lastmod></url>\
               <url><loc>https://anime-sama.to/planning/</loc><lastmod>2024-01-03</lastmod></url>";
    assert_eq!(parse_sitemap(xml), vec![("naruto".to_string(), "2024-01-02".to_string())]);
}

#[test]
fn titles_hosts_and_section_names() {
    assert_eq!(clean_title(" Naruto | Anime-Sama "), "Naruto");
    assert_eq!(host_of("https://www.vidmoly.to/embed"), "vidmoly");
    assert_eq!(host_of("video.sibnet.ru/x"), "video");
    assert_eq!(pretty_section_name("saison2"), "Saison 2");
    assert_eq!(pretty_section_name("/film/"), "Films");
    assert_eq!(pretty_section_name("oav"), "OAV");
    assert_eq!(pretty_section_name("kai-special"), "Kai special");
    assert_eq!(pretty_section_name("saisonX"), "SaisonX");
}

#[test]
fn brackets_are_matched_outside_strings() {
    let s: Vec<char> = "[1,[2],\"]\"]".chars().collect();
    assert_eq!(match_bracket(&s, 0), Some(10));
    let t: Vec<char> = "[1,[2]".chars().collect();
    assert_eq!(match_bracket(&t, 0), None);
}

#[test]
fn episode_scripts_give_players_then_episodes() {
    let js = "var eps1 = ['https://a.com/1', 'https://vidmoly.to/2'];\nvar eps2 = [\"https://www.sib.net/x\"];\nvar other = ['https://n/1'];";
    let players = parse_episodes_js(js);
    assert_eq!(players.len(), 2);
    assert_eq!(players[0].len(), 2);
    assert_eq!(players[0][1].host, "vidmoly");
    assert_eq!(players[1][0].iframe, "https://www.sib.net/x");
    let eps = transpose_players(&players);
    assert_eq!(eps.len(), 2);
    assert_eq!(eps[0].iter().map(|s| s.iframe.clone()).collect::<Vec<_>>(), vec!["https://a.com/1", "https://www.sib.net/x"]);
    assert_eq!(eps[1].len(), 1);
}

#[test]
fn series_pages_give_sections_and_a_header() {
    let html = r#"<meta property="og:title" content="Naruto | Anime-Sama">
<meta property="og:description" content="  A ninja. ">
<meta property="og:image" content="https://img/n.jpg">
<meta name="keywords" content="Naruto, Action, anime, Drama, VOSTFR, , Comédie">
<script>panneauAnime("Saison 1", "saison1/vostfr"); panneauAnime("Saison 1", "saison1/vf");
panneauAnime("nom", "nom/vostfr"); panneauAnime("Film", "film/va"); panneauAnime("x", "bad/fr");</script>"#;
    assert_eq!(meta_content(html, "og:description"), Some("A ninja.".to_string()));
    assert_eq!(meta_content(html, "og:missing"), None);
    assert_eq!(parse_genres(html), vec!["Naruto", "Action", "Drama", "Comédie"]);
    let sections = parse_sections(html);
    let pairs: Vec<(String, String)> = sections.iter().map(|s| (s.base.clone(), s.lang.clone())).collect();
    assert_eq!(
        pairs,
        vec![
            ("saison1".to_string(), "vostfr".to_string()),
            ("saison1".to_string(), "vf".to_string()),
            ("film".to_string(), "vf".to_string()),
        ]
    );
    assert_eq!(section_bases(&sections), vec!["film".to_string(), "saison1".to_string()]);
    assert!(offers_lang(&sections, "film", "vf"));
    assert!(!offers_lang(&sections, "film", "vostfr"));
    let h = detail_header(html, "naruto");
    assert_eq!(h.title, "Naruto");
    assert_eq!(h.description, "A ninja.");
    assert_eq!(h.image, Some("https://img/n.jpg".to_string()));
    assert_eq!(h.genres, vec!["Action", "Drama", "Comédie"]);
    let bare = detail_header("<p>nothing</p>", "some-slug");
    assert_eq!(bare.title, "some-slug");
    assert_eq!(bare.description, "");
}

#[test]
fn seasons_are_built_from_both_languages() {
    let vo = vec![vec![src("https://a/1"), src("https://a/2")]];
    let vf = vec![vec![src("https://b/1")]];
    let s = season_from_lists("saison1", &vo, &vf).expect("a season");
    assert_eq!(s.title, "Saison 1");
    assert_eq!(s.episodes.len(), 2);
    assert_eq!(s.episodes[0].number, 1);
    assert_eq!(s.episodes[1].title, "Épisode 2");
    assert_eq!(s.episodes[0].vf.len(), 1);
    assert!(s.episodes[1].vf.is_empty());
    assert!(season_from_lists("saison2", &Vec::new(), &Vec::new()).is_none());
    let header = detail_header("<p></p>", "x");
    assert!(matches!(finish_detail(false, Vec::new(), header), Err(AsError::NoData)));
    let header = detail_header("<p></p>", "x");
    match finish_detail(true, Vec::new(), header) {
        Ok(c) => assert!(c.seasons.is_empty()),
        Err(_) => panic!("no section is no error"),
    }
}
