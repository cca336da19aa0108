use animedl::board::{
    board_stats, episode_slots, filtered_positions, finished_ids, host_options_for, lecteurs_to_try,
    panel_summary, row_actions, status_label, task_lines, DownloadsFilter, OriginalRequest,
};
use animedl::catalog::{AnimeSource, Episode, Lang, Root2, Saison, Vf, Vo};
use animedl::settings::AppSettings;
use animedl::tasks::{DownloadProgress, DownloadStatus, DownloadTask, TaskList};

fn progress(downloaded: u64, total: u64, speed: u64) -> DownloadProgress {
    DownloadProgress {
        id: String::new(),
        downloaded,
        total,
        speed_bytes_per_sec: speed,
        eta_seconds: 0,
        resolution: None,
    }
}

fn task(id: &str, status: DownloadStatus) -> DownloadTask {
    DownloadTask {
        id: id.to_string(),
        url: String::new(),
        output_path: format!("/tmp/dl/{}.mp4", id),
        status,
        host: None,
        attempted_lecteurs: Vec::new(),
    }
}

fn board() -> Vec<DownloadTask> {
    vec![
        task("q", DownloadStatus::Queued),
        task("d1", DownloadStatus::Downloading(progress(100, 300, 50))),
        task("ok", DownloadStatus::Completed),
        task("ko", DownloadStatus::Failed("boom".to_string())),
        task("x", DownloadStatus::Cancelled),
        task("d2", DownloadStatus::Downloading(progress(10, 0, 5))),
    ]
}

fn episode(title: &str, vo: &[&str], vf: &[&str]) -> Episode {
    Episode {
        title: title.to_string(),
        lang: Lang {
            vf: Vf { lecteurs: vf.iter().map(|s| s.to_string()).collect() },
            vo: Vo { lecteurs: vo.iter().map(|s| s.to_string()).collect() },
        },
    }
}

fn anime() -> Root2 {
    let mut a = Root2::blank(7, String::new());
    a.title_o = "Orig".to_string();
    a.saisons = vec![
        Saison {
            title: "S1".to_string(),
            episodes: vec![episode("Pilot", &["sibnet", "hd"], &["vidmoly"]), episode("Two", &[], &["sibnet"])],
        },
        Saison { title: "S2".to_string(), episodes: vec![episode("Three", &["vidmoly"], &[])] },
    ];
    a
}

#[test]
fn board_figures_count_and_sum_the_tasks() {
    let s = board_stats(&board());
    assert_eq!(s.total, 6);
    assert_eq!(s.active, 3);
    assert_eq!(s.done, 1);
    assert_eq!(s.failed, 1);
    assert_eq!(s.cancelled, 1);
    assert_eq!(s.active + s.done + s.failed + s.cancelled, s.total);
    assert_eq!(s.speed, 55);
    assert_eq!(s.received, 110);
    assert_eq!(s.remaining, 200);
    assert_eq!(s.eta, 3);
    assert_eq!(panel_summary(&s), "6 total  ·  3 actifs  ·  1 OK  ·  1 échec");
}

#[test]
fn board_figures_of_nothing() {
    let s = board_stats(&Vec::new());
    assert_eq!((s.total, s.active, s.speed, s.eta), (0, 0, 0, 0));
}

#[test]
fn downloads_filters_list_the_right_tasks() {
    let b = board();
    assert_eq!(filtered_positions(&b, DownloadsFilter::All), vec![0, 1, 2, 3, 4, 5]);
    assert_eq!(filtered_positions(&b, DownloadsFilter::Active), vec![0, 1, 5]);
    assert_eq!(filtered_positions(&b, DownloadsFilter::Failed), vec![3]);
    assert_eq!(filtered_positions(&b, DownloadsFilter::Done), vec![2]);
}

#[test]
fn clean_up_removes_the_finished_tasks() {
    assert_eq!(finished_ids(&board()), vec!["ok".to_string(), "ko".to_string(), "x".to_string()]);
    let mut list = TaskList { tasks: board() };
    for id in finished_ids(&board()) {
        list.forget(&id);
    }
    let left: Vec<&str> = list.tasks.iter().map(|t| t.id.as_str()).collect();
    assert_eq!(left, vec!["q", "d1", "d2"]);
}

#[test]
fn rows_offer_the_actions_of_their_status() {
    let settings = AppSettings::default();
    let a = row_actions(&DownloadStatus::Failed("x".to_string()), &settings);
    assert!(a.retry && a.anikuro && !a.consumet && !a.cancel && !a.next_host && a.remove);
    let a = row_actions(&DownloadStatus::Queued, &settings);
    assert!(!a.retry && !a.anikuro && a.cancel && a.next_host && !a.remove);
    let mut with_consumet = AppSettings::default();
    with_consumet.consumet_enabled = true;
    with_consumet.consumet_base_url = "http://localhost:3000".to_string();
    let a = row_actions(&DownloadStatus::Failed("x".to_string()), &with_consumet);
    assert!(a.consumet);
    let a = row_actions(&DownloadStatus::Completed, &settings);
    assert!(a.remove && !a.retry && !a.cancel);
}

#[test]
fn status_words() {
    assert_eq!(status_label(&DownloadStatus::Queued), Some("En file".to_string()));
    assert_eq!(status_label(&DownloadStatus::Extracting), Some("Extraction de l'URL vidéo…".to_string()));
    assert_eq!(status_label(&DownloadStatus::Downloading(progress(1, 2, 3))), None);
    assert_eq!(status_label(&DownloadStatus::Completed), Some("Terminé".to_string()));
    assert_eq!(status_label(&DownloadStatus::Failed("m".to_string())), Some("Échec".to_string()));
    assert_eq!(status_label(&DownloadStatus::Cancelled), Some("Annulé".to_string()));
}

#[test]
fn task_lines_describe_the_request() {
    let original = OriginalRequest {
        anime: anime(),
        season_idx: 0,
        ep_idx: 0,
        lang: "vo".to_string(),
        lecteurs_to_try: vec![0],
    };
    let mut t = task("a", DownloadStatus::Queued);
    t.host = Some("sibnet".to_string());
    let (title, sub) = task_lines(Some(&original), &t);
    assert_eq!(title, "Orig");
    assert_eq!(sub, "S1 · Ép. 1 · Pilot · VO  ·  via sibnet");
    let missing = OriginalRequest { season_idx: 5, ep_idx: 2, ..original };
    let (_, sub) = task_lines(Some(&missing), &task("b", DownloadStatus::Queued));
    assert_eq!(sub, "Saison 6 · Ép. 3 · Épisode 3 · VO");
    let (title, sub) = task_lines(None, &task("ep", DownloadStatus::Queued));
    assert_eq!(title, "ep.mp4");
    assert_eq!(sub, "");
}

#[test]
fn players_to_try_depend_on_the_source() {
    let a = anime();
    assert_eq!(lecteurs_to_try(AnimeSource::Uniquestream, &a, 0, 0, "vo", None, "", &Vec::new()), vec![0]);
    assert_eq!(lecteurs_to_try(AnimeSource::Voiranime, &a, 0, 0, "vo", None, "", &Vec::new()), vec![0]);
    let hosts = vec!["Vidmoly".to_string(), "sibnet".to_string()];
    assert_eq!(lecteurs_to_try(AnimeSource::Voiranime, &a, 0, 0, "vo", Some("SIB"), "", &hosts), vec![1, 0]);
    assert_eq!(lecteurs_to_try(AnimeSource::Franime, &a, 0, 0, "vo", None, "", &hosts), vec![0]);
    assert_eq!(lecteurs_to_try(AnimeSource::Franime, &a, 0, 0, "vf", None, "vidmoly", &hosts), vec![0]);
    assert_eq!(lecteurs_to_try(AnimeSource::Franime, &a, 9, 0, "vo", None, "", &hosts), Vec::<u64>::new());
}

#[test]
fn queued_episodes_cover_the_seasons_asked_for() {
    let a = anime();
    assert_eq!(episode_slots(&a, None), vec![(0, 0), (0, 1), (1, 0)]);
    assert_eq!(episode_slots(&a, Some(1)), vec![(1, 0)]);
    assert_eq!(episode_slots(&a, Some(4)), Vec::<(usize, usize)>::new());
}

#[test]
fn offered_hosts_are_sorted_and_unique() {
    assert_eq!(host_options_for(&anime()), vec!["sibnet".to_string(), "vidmoly".to_string()]);
}
