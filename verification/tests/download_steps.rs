use animedl::browse::{filtered_view, BrowseFilter, EntryMarks, LangFilter, ThemeFilterMode};
use animedl::catalog::Root2;
use animedl::hls::{after_variant, ffmpeg_outcome, ffmpeg_progress, VariantStep};
use animedl::plan::{start_decision, StartDecision};
use animedl::providers::ScraperError;
use animedl::sidecar::{
    settle_iframe_fetch, settle_video_fetch, FetchSettled, SidecarError, SidecarMetrics, SidecarReply,
};
use animedl::tasks::{DownloadProgress, DownloadStatus, RetryRun, RetryStep, TaskList};

#[test]
fn existing_files_are_recorded_and_skipped() {
    assert_eq!(start_decision(true, true, 3), StartDecision::RecordAndSkip);
    assert_eq!(start_decision(true, true, 0), StartDecision::RecordAndSkip);
    assert_eq!(start_decision(false, true, 3), StartDecision::Enqueue);
    assert_eq!(start_decision(true, false, 0), StartDecision::NoPlayers);
    assert_eq!(start_decision(false, false, 1), StartDecision::Enqueue);
}

#[test]
fn retries_are_counted_and_waits_capped() {
    // Two retries allowed, waits of 1 s doubled up to 3 s.
    let mut run = RetryRun::new(1000);
    let mut waits = Vec::new();
    let mut tries = 1;
    loop {
        let scaled = run.delay_ms * 2;
        match run.after_failure(2, scaled, 3000) {
            RetryStep::WaitThenRetry(w) => {
                waits.push(w);
                tries += 1;
            }
            RetryStep::GiveUp => break,
        }
    }
    assert_eq!(tries, 3);
    assert_eq!(waits, vec![1000, 2000]);
    assert_eq!(run.attempts, 2);
    assert_eq!(run.delay_ms, 3000);
    let mut none = RetryRun::new(1000);
    assert!(matches!(none.after_failure(0, 2000, 10000), RetryStep::GiveUp));
    assert_eq!(none.attempts, 0);
}

#[test]
fn ffmpeg_ends_are_checked_in_order() {
    let (r, remove) = ffmpeg_outcome(true, false, "x".to_string(), 0);
    assert!(matches!(r, Err(ScraperError::NetworkError(ref m)) if m == "Cancelled"));
    assert!(!remove);
    let (r, remove) = ffmpeg_outcome(false, false, "ffmpeg a échoué".to_string(), 500_000);
    assert!(matches!(r, Err(ScraperError::NetworkError(ref m)) if m == "ffmpeg a échoué"));
    assert!(!remove);
    let (r, remove) = ffmpeg_outcome(false, true, String::new(), 10);
    assert!(matches!(r, Err(ScraperError::NetworkError(ref m))
        if m == "HLS: fichier de sortie trop petit (10 octets), flux probablement invalide"));
    assert!(remove);
    let (r, remove) = ffmpeg_outcome(false, true, String::new(), 100_000);
    assert!(r.is_ok());
    assert!(!remove);
    let p = ffmpeg_progress(75, 2048, &Some("1920x1080".to_string()));
    assert_eq!((p.downloaded, p.total, p.speed_bytes_per_sec, p.eta_seconds), (75, 0, 2048, 0));
    assert_eq!(p.resolution.as_deref(), Some("1920x1080"));
}

#[test]
fn variants_are_tried_until_one_succeeds() {
    assert!(matches!(after_variant(0, 3, Ok(())), VariantStep::Succeeded));
    assert!(matches!(
        after_variant(0, 3, Err(ScraperError::NetworkError("a".to_string()))),
        VariantStep::TryNext(1)
    ));
    match after_variant(2, 3, Err(ScraperError::NetworkError("last".to_string()))) {
        VariantStep::Failed(ScraperError::NetworkError(m)) => assert_eq!(m, "last"),
        _ => panic!("the last failure is the result"),
    }
}

#[test]
fn helper_fetches_bump_one_counter() {
    let mut m = SidecarMetrics::new();
    assert!(matches!(
        settle_iframe_fetch(&mut m, Ok(SidecarReply::IframeSrc("https://f".to_string()))),
        FetchSettled::Found(ref u) if u == "https://f"
    ));
    assert!(matches!(
        settle_iframe_fetch(&mut m, Ok(SidecarReply::IframeSrc(String::new()))),
        FetchSettled::Failed(SidecarError::Remote(ref e)) if e == "iframe src vide"
    ));
    assert!(matches!(settle_iframe_fetch(&mut m, Ok(SidecarReply::Ack)), FetchSettled::Unexpected(SidecarReply::Ack)));
    assert!(matches!(
        settle_iframe_fetch(&mut m, Err(SidecarError::NotStarted)),
        FetchSettled::Failed(SidecarError::NotStarted)
    ));
    assert!(matches!(
        settle_video_fetch(&mut m, Ok(SidecarReply::Error("boom".to_string()))),
        FetchSettled::Failed(SidecarError::Remote(ref e)) if e == "boom"
    ));
    assert!(matches!(
        settle_video_fetch(&mut m, Ok(SidecarReply::VideoUrl("https://v".to_string()))),
        FetchSettled::Found(ref u) if u == "https://v"
    ));
    assert_eq!(m.fetch_ok, 2);
    assert_eq!(m.fetch_err, 4);
}

fn marks(vo: bool, vf: bool) -> EntryMarks {
    EntryMarks {
        has_vo: vo,
        has_vf: vf,
        is_downloaded: false,
        user_status: None,
        user_tags: Vec::new(),
        user_comment: String::new(),
    }
}

#[test]
fn the_list_holds_passing_entries_in_stable_key_order() {
    let animes = vec![
        Root2::blank(1, "Bleach".to_string()),
        Root2::blank(2, "Akira".to_string()),
        Root2::blank(3, "bleach".to_string()),
        Root2::blank(4, "Cowboy".to_string()),
    ];
    let m = vec![marks(true, false), marks(true, false), marks(true, false), marks(false, true)];
    let keys = vec![
        (0, "bleach".to_string()),
        (0, "akira".to_string()),
        (0, "bleach".to_string()),
        (0, "cowboy".to_string()),
    ];
    let f = BrowseFilter {
        lang: LangFilter::VO,
        only_downloaded: false,
        hide_nsfw: false,
        statuses: Vec::new(),
        required_tags: Vec::new(),
        themes: Vec::new(),
        theme_mode: ThemeFilterMode::Any,
        query_lower: String::new(),
    };
    let ok = vec![true, true, true, true];
    assert_eq!(filtered_view(&animes, &m, &ok, &f, &keys, false), vec![1, 0, 2]);
    assert_eq!(filtered_view(&animes, &m, &ok, &f, &keys, true), vec![0, 2, 1]);
    let ok = vec![true, false, true, true];
    assert_eq!(filtered_view(&animes, &m, &ok, &f, &keys, false), vec![0, 2]);
}

#[test]
fn download_progress_is_stored_as_given() {
    let mut list = TaskList::new();
    let id = list.add_pending("/tmp/p.mp4".to_string());
    let p = DownloadProgress {
        id: id.clone(),
        downloaded: 300,
        total: 900,
        speed_bytes_per_sec: 100,
        eta_seconds: 6,
        resolution: Some("720p".to_string()),
    };
    assert_eq!(list.update_task_status(&id, DownloadStatus::Downloading(p)), Some(0));
    match &list.tasks[0].status {
        DownloadStatus::Downloading(q) => {
            assert_eq!((q.downloaded, q.total, q.speed_bytes_per_sec, q.eta_seconds), (300, 900, 100, 6));
            assert_eq!(q.resolution.as_deref(), Some("720p"));
        }
        _ => panic!("the progress is kept"),
    }
}
