use animedl::catalog::AnimeSource;
use animedl::plan::{Action, DownloadPlan, Event, Phase, PlanContext, VA_NOT_LOADED};
use animedl::voiranime::VaSource;

fn context(source: AnimeSource) -> PlanContext {
    PlanContext {
        source,
        lecteurs: vec![0, 3],
        lecteur_names: vec!["Sibnet".to_string()],
        va_ep_url: None,
        va_sources: Vec::new(),
        us_ep_id: None,
        us_is_movie: false,
        us_locale: "fr-FR".to_string(),
        anikuro_on: true,
        anikuro_provider: "zoro".to_string(),
        consumet_on: false,
        consumet_provider: "gogo".to_string(),
    }
}

#[test]
fn players_then_alternatives_then_failure() {
    let mut p = DownloadPlan::new(context(AnimeSource::Franime));
    let a = p.step(Event::Start);
    assert_eq!(a.len(), 3);
    assert!(matches!(&a[0], Action::SetHost(h) if h == "Sibnet"));
    assert!(matches!(&a[1], Action::AddAttempted(0)));
    assert!(matches!(&a[2], Action::FetchFranimeIframe(0)));

    let a = p.step(Event::Failed("404".to_string()));
    assert_eq!(a.len(), 3);
    assert!(matches!(&a[0], Action::SetHost(h) if h == "#3"));
    assert!(matches!(&a[2], Action::FetchFranimeIframe(3)));

    let a = p.step(Event::Got("https://iframe".to_string()));
    assert_eq!(a.len(), 1);
    assert!(matches!(&a[0], Action::ExtractAndDownload(u) if u == "https://iframe"));

    let a = p.step(Event::Failed("dl err".to_string()));
    assert_eq!(a.len(), 2);
    assert!(matches!(&a[0], Action::SetHost(h) if h == "anikuro:zoro"));
    assert!(matches!(&a[1], Action::TryAnikuro));

    let a = p.step(Event::Failed("no match".to_string()));
    assert_eq!(a.len(), 1);
    assert!(matches!(&a[0], Action::MarkFailed(m)
        if m == "Tous les lecteurs ont échoué — Sibnet: API: 404 · #3: dl err"));
    assert_eq!(p.phase, Phase::Done);

    // A finished plan ignores further outcomes.
    assert!(p.step(Event::Succeeded).is_empty());
}

#[test]
fn voiranime_without_episodes_fails_at_once() {
    let mut p = DownloadPlan::new(context(AnimeSource::Voiranime));
    let a = p.step(Event::Start);
    assert_eq!(a.len(), 1);
    assert!(matches!(&a[0], Action::MarkFailed(m) if m == VA_NOT_LOADED));
}

#[test]
fn voiranime_sources_are_tried_in_player_order() {
    let mut ctx = context(AnimeSource::Voiranime);
    ctx.va_ep_url = Some("https://v/ep1".to_string());
    ctx.lecteurs = vec![5, 1, 0];
    ctx.va_sources = vec![
        VaSource { host: "vidmoly".to_string(), iframe: "https://vm/1".to_string() },
        VaSource { host: "sibnet".to_string(), iframe: "https://sn/1".to_string() },
    ];
    let mut p = DownloadPlan::new(ctx);
    let a = p.step(Event::Start);
    assert!(matches!(&a[0], Action::SetHost(h) if h == "voiranime:sibnet"));
    assert!(matches!(&a[2], Action::ExtractAndDownload(u) if u == "https://sn/1"));
    let a = p.step(Event::Failed("bad".to_string()));
    assert!(matches!(&a[0], Action::SetHost(h) if h == "voiranime:vidmoly"));
    let a = p.step(Event::Failed("worse".to_string()));
    assert_eq!(a.len(), 1);
    assert!(matches!(&a[0], Action::MarkFailed(m)
        if m == "voiranime: tous lecteurs KO — sibnet: bad · vidmoly: worse"));
}

#[test]
fn uniquestream_downloads_the_media_it_got() {
    let mut ctx = context(AnimeSource::Uniquestream);
    ctx.us_ep_id = Some("ep".to_string());
    let mut p = DownloadPlan::new(ctx);
    let a = p.step(Event::Start);
    assert!(matches!(&a[0], Action::SetHost(h) if h == "uniquestream:fr-FR"));
    assert!(matches!(&a[1], Action::FetchUsHls(k, i, l) if k == "episode" && i == "ep" && l == "fr-FR"));
    let a = p.step(Event::Got("https://m3u8".to_string()));
    assert!(matches!(&a[0], Action::DownloadDirect(u) if u == "https://m3u8"));
    let a = p.step(Event::Succeeded);
    assert!(matches!(&a[0], Action::Finish));
}

#[test]
fn a_uniquestream_film_asks_for_the_film_stream() {
    let mut ctx = context(AnimeSource::Uniquestream);
    ctx.us_ep_id = Some("film-1".to_string());
    ctx.us_is_movie = true;
    let mut p = DownloadPlan::new(ctx);
    let a = p.step(Event::Start);
    assert_eq!(a.len(), 2);
    assert!(matches!(&a[1], Action::FetchUsHls(k, i, l) if k == "movie" && i == "film-1" && l == "fr-FR"));
}
