//! The downloads board: which tasks are active, finished or failed, the
//! figures shown over them, the actions each row offers, the lines that
//! describe a task, and what is queued when episodes are asked for.
use vstd::prelude::*;
use crate::catalog::{is_ignored_player, valid_lecteurs_spec, va_source_order_spec, valid_lecteurs_for_host, va_source_order, AnimeSource, Root2};
use crate::num::{decimal, push_decimal};
use crate::settings::AppSettings;
use crate::tasks::{DownloadStatus, DownloadTask, TaskView, task_view, tasks_view, without_task};
use crate::text::{insert_sorted_unique, owned, push_str, str_eq, strictly_sorted};

verus! {

// ---------------------------------------------------------------------------
// Classes of tasks
// ---------------------------------------------------------------------------

/// A task still under way: queued, extracting or downloading.
pub open spec fn is_active(s: DownloadStatus) -> bool {
    s is Queued || s is Extracting || s is Downloading
}

/// A task that is over: completed, failed or cancelled.
pub open spec fn is_finished(s: DownloadStatus) -> bool {
    s is Completed || s is Failed || s is Cancelled
}

/// Which tasks the downloads page lists.
#[derive(Clone, Copy, PartialEq, Eq, Structural, Debug)]
pub enum DownloadsFilter {
    All,
    Active,
    Failed,
    Done,
}

/// A task is listed under a filter: all of them, the active ones, the failed
/// ones or the completed ones.
pub open spec fn shown(f: DownloadsFilter, s: DownloadStatus) -> bool {
    match f {
        DownloadsFilter::All => true,
        DownloadsFilter::Active => is_active(s),
        DownloadsFilter::Failed => s is Failed,
        DownloadsFilter::Done => s is Completed,
    }
}

/// Whether a status is listed under a filter.
pub fn is_shown(f: DownloadsFilter, s: &DownloadStatus) -> (b: bool)
    ensures
        b == shown(f, *s),
{
    match f {
        DownloadsFilter::All => true,
        DownloadsFilter::Active => matches!(s, DownloadStatus::Queued | DownloadStatus::Extracting | DownloadStatus::Downloading(_)),
        DownloadsFilter::Failed => matches!(s, DownloadStatus::Failed(_)),
        DownloadsFilter::Done => matches!(s, DownloadStatus::Completed),
    }
}

/// The positions of the tasks listed under `f`, in order.
pub open spec fn shown_positions(ts: Seq<DownloadTask>, f: DownloadsFilter) -> Seq<usize>
    decreases ts.len(),
{
    if ts.len() == 0 {
        Seq::empty()
    } else {
        let rest = shown_positions(ts.drop_last(), f);
        if shown(f, ts.last().status) {
            rest.push((ts.len() - 1) as usize)
        } else {
            rest
        }
    }
}

/// The positions of the tasks listed under `f`, as `shown_positions` gives them.
pub fn filtered_positions(tasks: &Vec<DownloadTask>, f: DownloadsFilter) -> (r: Vec<usize>)
    ensures
        r@ == shown_positions(tasks@, f),
{
    let mut r: Vec<usize> = Vec::new();
    let mut i: usize = 0;
    while i < tasks.len()
        invariant
            i <= tasks@.len(),
            r@ == shown_positions(tasks@.take(i as int), f),
        decreases tasks@.len() - i,
    {
        assert(tasks@.take(i as int + 1).drop_last() =~= tasks@.take(i as int));
        if is_shown(f, &tasks[i].status) {
            r.push(i);
        }
        i = i + 1;
    }
    assert(tasks@.take(i as int) =~= tasks@);
    r
}

// ---------------------------------------------------------------------------
// Figures
// ---------------------------------------------------------------------------

/// How many tasks have a status that `p` holds of.
pub open spec fn count_where(ts: Seq<DownloadTask>, p: spec_fn(DownloadStatus) -> bool) -> nat
    decreases ts.len(),
{
    if ts.len() == 0 {
        0
    } else {
        count_where(ts.drop_last(), p) + if p(ts.last().status) {
            1nat
        } else {
            0nat
        }
    }
}

/// The sum over the tasks of what `f` gives their status.
pub open spec fn sum_of(ts: Seq<DownloadTask>, f: spec_fn(DownloadStatus) -> nat) -> nat
    decreases ts.len(),
{
    if ts.len() == 0 {
        0
    } else {
        sum_of(ts.drop_last(), f) + f(ts.last().status)
    }
}

/// The speed of a download under way, 0 for any other task.
pub open spec fn speed_of(s: DownloadStatus) -> nat {
    match s {
        DownloadStatus::Downloading(p) => p.speed_bytes_per_sec as nat,
        _ => 0,
    }
}

/// The bytes received by a download under way, 0 for any other task.
pub open spec fn received_of(s: DownloadStatus) -> nat {
    match s {
        DownloadStatus::Downloading(p) => p.downloaded as nat,
        _ => 0,
    }
}

/// The bytes still to come for a download under way whose size is known
/// and not reached, 0 for any other task.
pub open spec fn remaining_of(s: DownloadStatus) -> nat {
    match s {
        DownloadStatus::Downloading(p) => if p.total > p.downloaded {
            (p.total - p.downloaded) as nat
        } else {
            0
        },
        _ => 0,
    }
}

/// The figures shown over the tasks: how many there are, how many are
/// active, completed, failed and cancelled; the total speed, the bytes
/// received and still to come over the downloads under way; and the seconds
/// left at the total speed (0 when nothing moves).
pub struct BoardStats {
    pub total: usize,
    pub active: usize,
    pub done: usize,
    pub failed: usize,
    pub cancelled: usize,
    pub speed: u64,
    pub received: u64,
    pub remaining: u64,
    pub eta: u64,
}

/// The figures shown over the tasks, as `BoardStats` says; the sums must
/// fit in 64 bits.
pub fn board_stats(tasks: &Vec<DownloadTask>) -> (r: BoardStats)
    requires
        sum_of(tasks@, |s: DownloadStatus| speed_of(s)) <= u64::MAX,
        sum_of(tasks@, |s: DownloadStatus| received_of(s)) <= u64::MAX,
        sum_of(tasks@, |s: DownloadStatus| remaining_of(s)) <= u64::MAX,
    ensures
        r.total == tasks@.len(),
        r.active == count_where(tasks@, |s: DownloadStatus| is_active(s)),
        r.done == count_where(tasks@, |s: DownloadStatus| s is Completed),
        r.failed == count_where(tasks@, |s: DownloadStatus| s is Failed),
        r.cancelled == count_where(tasks@, |s: DownloadStatus| s is Cancelled),
        r.speed == sum_of(tasks@, |s: DownloadStatus| speed_of(s)),
        r.received == sum_of(tasks@, |s: DownloadStatus| received_of(s)),
        r.remaining == sum_of(tasks@, |s: DownloadStatus| remaining_of(s)),
        r.eta == (if r.speed > 0 { r.remaining / r.speed } else { 0 }),
{
    let ghost pa = |s: DownloadStatus| is_active(s);
    let ghost pd = |s: DownloadStatus| s is Completed;
    let ghost pf = |s: DownloadStatus| s is Failed;
    let ghost pc = |s: DownloadStatus| s is Cancelled;
    let ghost fs = |s: DownloadStatus| speed_of(s);
    let ghost fr = |s: DownloadStatus| received_of(s);
    let ghost fm = |s: DownloadStatus| remaining_of(s);
    let mut active: usize = 0;
    let mut done: usize = 0;
    let mut failed: usize = 0;
    let mut cancelled: usize = 0;
    let mut speed: u64 = 0;
    let mut received: u64 = 0;
    let mut remaining: u64 = 0;
    let mut i: usize = 0;
    while i < tasks.len()
        invariant
            i <= tasks@.len(),
            active == count_where(tasks@.take(i as int), pa),
            done == count_where(tasks@.take(i as int), pd),
            failed == count_where(tasks@.take(i as int), pf),
            cancelled == count_where(tasks@.take(i as int), pc),
            speed == sum_of(tasks@.take(i as int), fs),
            received == sum_of(tasks@.take(i as int), fr),
            remaining == sum_of(tasks@.take(i as int), fm),
            active <= i && done <= i && failed <= i && cancelled <= i,
            pa == (|s: DownloadStatus| is_active(s)),
            pd == (|s: DownloadStatus| s is Completed),
            pf == (|s: DownloadStatus| s is Failed),
            pc == (|s: DownloadStatus| s is Cancelled),
            fs == (|s: DownloadStatus| speed_of(s)),
            fr == (|s: DownloadStatus| received_of(s)),
            fm == (|s: DownloadStatus| remaining_of(s)),
            sum_of(tasks@, fs) <= u64::MAX,
            sum_of(tasks@, fr) <= u64::MAX,
            sum_of(tasks@, fm) <= u64::MAX,
        decreases tasks@.len() - i,
    {
        let ghost pre = tasks@.take(i as int);
        let ghost next = tasks@.take(i as int + 1);
        assert(next.drop_last() =~= pre);
        proof {
            lemma_sum_prefix(tasks@, fs, i as int + 1);
            lemma_sum_prefix(tasks@, fr, i as int + 1);
            lemma_sum_prefix(tasks@, fm, i as int + 1);
            assert(next.last() == tasks@[i as int]);
            assert(sum_of(next, fs) == sum_of(pre, fs) + speed_of(tasks@[i as int].status));
            assert(sum_of(next, fr) == sum_of(pre, fr) + received_of(tasks@[i as int].status));
            assert(sum_of(next, fm) == sum_of(pre, fm) + remaining_of(tasks@[i as int].status));
        }
        match &tasks[i].status {
            DownloadStatus::Queued | DownloadStatus::Extracting => {
                active = active + 1;
            },
            DownloadStatus::Downloading(p) => {
                active = active + 1;
                speed = speed + p.speed_bytes_per_sec;
                received = received + p.downloaded;
                if p.total > p.downloaded {
                    remaining = remaining + (p.total - p.downloaded);
                }
            },
            DownloadStatus::Completed => {
                done = done + 1;
            },
            DownloadStatus::Failed(_) => {
                failed = failed + 1;
            },
            DownloadStatus::Cancelled => {
                cancelled = cancelled + 1;
            },
        }
        i = i + 1;
    }
    assert(tasks@.take(i as int) =~= tasks@);
    let eta = if speed > 0 {
        remaining / speed
    } else {
        0
    };
    BoardStats { total: tasks.len(), active, done, failed, cancelled, speed, received, remaining, eta }
}

/// Every task is counted in exactly one class of the figures: the active,
/// completed, failed and cancelled ones add up to all the tasks.
pub proof fn lemma_classes_add_up(tasks: Seq<DownloadTask>)
    ensures
        count_where(tasks, |s: DownloadStatus| is_active(s)) + count_where(tasks, |s: DownloadStatus| s is Completed)
            + count_where(tasks, |s: DownloadStatus| s is Failed) + count_where(
            tasks,
            |s: DownloadStatus| s is Cancelled,
        ) == tasks.len(),
    decreases tasks.len(),
{
    if tasks.len() > 0 {
        lemma_classes_add_up(tasks.drop_last());
    }
}

/// A sum over a prefix is at most the sum over the whole list.
proof fn lemma_sum_prefix(ts: Seq<DownloadTask>, f: spec_fn(DownloadStatus) -> nat, n: int)
    requires
        0 <= n <= ts.len(),
    ensures
        sum_of(ts.take(n), f) <= sum_of(ts, f),
    decreases ts.len(),
{
    if n < ts.len() {
        assert(ts.drop_last().take(n) =~= ts.take(n));
        lemma_sum_prefix(ts.drop_last(), f, n);
    } else {
        assert(ts.take(n) =~= ts);
    }
}

/// The line over the downloads panel: the number of tasks, then of active,
/// completed and failed ones.
pub open spec fn panel_summary_spec(total: nat, active: nat, done: nat, failed: nat) -> Seq<char> {
    decimal(total) + " total  ·  "@ + decimal(active) + " actifs  ·  "@ + decimal(done) + " OK  ·  "@
        + decimal(failed) + " échec"@
}

/// The line over the downloads panel, as `panel_summary_spec` writes it.
pub fn panel_summary(stats: &BoardStats) -> (r: String)
    ensures
        r@ == panel_summary_spec(
            stats.total as nat,
            stats.active as nat,
            stats.done as nat,
            stats.failed as nat,
        ),
{
    let mut r = String::new();
    push_decimal(&mut r, stats.total as u64);
    push_str(&mut r, " total  ·  ");
    push_decimal(&mut r, stats.active as u64);
    push_str(&mut r, " actifs  ·  ");
    push_decimal(&mut r, stats.done as u64);
    push_str(&mut r, " OK  ·  ");
    push_decimal(&mut r, stats.failed as u64);
    push_str(&mut r, " échec");
    r
}

/// The ids of the tasks that are over, in order: those "clean up" removes.
pub open spec fn finished_ids_spec(ts: Seq<DownloadTask>) -> Seq<Seq<char>>
    decreases ts.len(),
{
    if ts.len() == 0 {
        Seq::empty()
    } else {
        let rest = finished_ids_spec(ts.drop_last());
        if is_finished(ts.last().status) {
            rest.push(ts.last().id@)
        } else {
            rest
        }
    }
}

/// The ids of the tasks that are over, as `finished_ids_spec` lists them.
pub fn finished_ids(tasks: &Vec<DownloadTask>) -> (r: Vec<String>)
    ensures
        r.deep_view() == finished_ids_spec(tasks@),
{
    let mut r: Vec<String> = Vec::new();
    let mut i: usize = 0;
    while i < tasks.len()
        invariant
            i <= tasks@.len(),
            r.deep_view() == finished_ids_spec(tasks@.take(i as int)),
        decreases tasks@.len() - i,
    {
        assert(tasks@.take(i as int + 1).drop_last() =~= tasks@.take(i as int));
        if matches!(tasks[i].status, DownloadStatus::Completed | DownloadStatus::Failed(_) | DownloadStatus::Cancelled) {
            let ghost before = r@;
            let id = owned(tasks[i].id.as_str());
            r.push(id);
            proof {
                crate::text::lemma_deep_view_push(before, r@, id);
            }
        }
        i = i + 1;
    }
    assert(tasks@.take(i as int) =~= tasks@);
    r
}

/// A task view whose status is over.
pub open spec fn view_finished(t: TaskView) -> bool {
    t.status is Completed || t.status is Failed || t.status is Cancelled
}

/// The tasks left after each id of `ids` was forgotten in turn.
pub open spec fn forget_all(ts: Seq<TaskView>, ids: Seq<Seq<char>>) -> Seq<TaskView>
    decreases ids.len(),
{
    if ids.len() == 0 {
        ts
    } else {
        without_task(forget_all(ts, ids.drop_last()), ids.last())
    }
}

proof fn lemma_without_push(s: Seq<TaskView>, x: TaskView, id: Seq<char>)
    ensures
        x.id != id ==> without_task(s.push(x), id) == without_task(s, id).push(x),
        x.id == id ==> without_task(s.push(x), id) == without_task(s, id),
{
    reveal(Seq::filter);
    assert(s.push(x).drop_last() =~= s);
}

proof fn lemma_without_absent(s: Seq<TaskView>, id: Seq<char>)
    requires
        forall|k: int| 0 <= k < s.len() ==> #[trigger] s[k].id != id,
    ensures
        without_task(s, id) == s,
    decreases s.len(),
{
    if s.len() > 0 {
        let d = s.drop_last();
        assert forall|k: int| 0 <= k < d.len() implies #[trigger] d[k].id != id by {
            assert(d[k] == s[k]);
        }
        lemma_without_absent(d, id);
        lemma_without_push(d, s.last(), id);
        assert(d.push(s.last()) =~= s);
    }
}

proof fn lemma_forget_all_push(s: Seq<TaskView>, x: TaskView, ids: Seq<Seq<char>>)
    requires
        forall|k: int| 0 <= k < ids.len() ==> #[trigger] ids[k] != x.id,
    ensures
        forget_all(s.push(x), ids) == forget_all(s, ids).push(x),
    decreases ids.len(),
{
    if ids.len() > 0 {
        let d = ids.drop_last();
        assert forall|k: int| 0 <= k < d.len() implies #[trigger] d[k] != x.id by {
            assert(d[k] == ids[k]);
        }
        lemma_forget_all_push(s, x, d);
        lemma_without_push(forget_all(s, d), x, ids.last());
    }
}

proof fn lemma_finished_ids_from(tasks: Seq<DownloadTask>)
    ensures
        forall|k: int| 0 <= k < finished_ids_spec(tasks).len() ==> exists|j: int|
            0 <= j < tasks.len() && #[trigger] finished_ids_spec(tasks)[k] == tasks[j].id@,
    decreases tasks.len(),
{
    if tasks.len() > 0 {
        let d = tasks.drop_last();
        lemma_finished_ids_from(d);
        let f = finished_ids_spec(tasks);
        let fd = finished_ids_spec(d);
        assert forall|k: int| 0 <= k < f.len() implies exists|j: int|
            0 <= j < tasks.len() && #[trigger] f[k] == tasks[j].id@ by {
            if k < fd.len() {
                assert(f[k] == fd[k]);
                let j = choose|j: int| 0 <= j < d.len() && fd[k] == d[j].id@;
                assert(tasks[j] == d[j]);
            } else {
                assert(f[k] == tasks[tasks.len() - 1].id@);
            }
        }
    }
}

/// Clean-up removes exactly the tasks that are over: when no two tasks share
/// an id, forgetting each id that `finished_ids` lists leaves the tasks
/// still under way, in their order.
pub proof fn lemma_clean_up(tasks: Seq<DownloadTask>)
    requires
        forall|i: int, j: int| 0 <= i < j < tasks.len() ==> tasks[i].id@ != tasks[j].id@,
    ensures
        forget_all(tasks_view(tasks), finished_ids_spec(tasks)) == tasks_view(tasks).filter(
            |t: TaskView| !view_finished(t),
        ),
    decreases tasks.len(),
{
    let p = |t: TaskView| !view_finished(t);
    reveal(Seq::filter);
    if tasks.len() == 0 {
        assert(tasks_view(tasks) =~= Seq::<TaskView>::empty());
    } else {
        let d = tasks.drop_last();
        let x = task_view(tasks.last());
        assert(tasks_view(tasks) =~= tasks_view(d).push(x));
        assert(tasks_view(tasks).drop_last() =~= tasks_view(d));
        lemma_clean_up(d);
        lemma_finished_ids_from(d);
        let fd = finished_ids_spec(d);
        assert forall|k: int| 0 <= k < fd.len() implies #[trigger] fd[k] != x.id by {
            let j = choose|j: int| 0 <= j < d.len() && fd[k] == d[j].id@;
            assert(d[j] == tasks[j]);
        }
        lemma_forget_all_push(tasks_view(d), x, fd);
        if is_finished(tasks.last().status) {
            assert(finished_ids_spec(tasks) == fd.push(tasks.last().id@));
            assert(finished_ids_spec(tasks).drop_last() =~= fd);
            lemma_without_push(forget_all(tasks_view(d), fd), x, x.id);
            let kept = tasks_view(d).filter(p);
            assert forall|k: int| 0 <= k < kept.len() implies #[trigger] kept[k].id != x.id by {
                assert(kept.contains(kept[k]));
                tasks_view(d).lemma_filter_contains_rev(p, kept[k]);
                let j = choose|j: int| 0 <= j < tasks_view(d).len() && tasks_view(d)[j] == kept[k];
                assert(d[j] == tasks[j]);
            }
            lemma_without_absent(kept, x.id);
        }
    }
}

// ---------------------------------------------------------------------------
// One row of the board
// ---------------------------------------------------------------------------

/// The buttons a row offers: retrying, Anikuro and Consumet for a failed
/// task; cancelling and moving to the next host for an active one; removing
/// a finished one.
pub struct RowActions {
    pub retry: bool,
    pub anikuro: bool,
    pub consumet: bool,
    pub cancel: bool,
    pub next_host: bool,
    pub remove: bool,
}

/// The buttons a row offers, as `RowActions` says; Anikuro only when it is
/// enabled, Consumet only when it is enabled and has an address.
pub fn row_actions(status: &DownloadStatus, settings: &AppSettings) -> (r: RowActions)
    ensures
        r.retry == status is Failed,
        r.anikuro == (status is Failed && settings.anikuro_enabled),
        r.consumet == (status is Failed && settings.consumet_enabled && settings.consumet_base_url@.len() > 0),
        r.cancel == is_active(*status),
        r.next_host == is_active(*status),
        r.remove == is_finished(*status),
{
    let active = matches!(status, DownloadStatus::Queued | DownloadStatus::Extracting | DownloadStatus::Downloading(_));
    let failed = matches!(status, DownloadStatus::Failed(_));
    let finished = matches!(status, DownloadStatus::Completed | DownloadStatus::Failed(_) | DownloadStatus::Cancelled);
    RowActions {
        retry: failed,
        anikuro: failed && settings.anikuro_enabled,
        consumet: failed && settings.consumet_enabled && !settings.consumet_base_url.as_str().is_empty(),
        cancel: active,
        next_host: active,
        remove: finished,
    }
}

/// The word shown for a status; a download under way shows its progress
/// instead.
pub open spec fn status_label_spec(s: DownloadStatus) -> Option<Seq<char>> {
    match s {
        DownloadStatus::Queued => Some("En file"@),
        DownloadStatus::Extracting => Some("Extraction de l'URL vidéo…"@),
        DownloadStatus::Downloading(_) => None,
        DownloadStatus::Completed => Some("Terminé"@),
        DownloadStatus::Failed(_) => Some("Échec"@),
        DownloadStatus::Cancelled => Some("Annulé"@),
    }
}

/// The word shown for a status, as `status_label_spec` gives it.
pub fn status_label(s: &DownloadStatus) -> (r: Option<String>)
    ensures
        r.deep_view() == status_label_spec(*s),
{
    match s {
        DownloadStatus::Queued => Some(owned("En file")),
        DownloadStatus::Extracting => Some(owned("Extraction de l'URL vidéo…")),
        DownloadStatus::Downloading(_) => None,
        DownloadStatus::Completed => Some(owned("Terminé")),
        DownloadStatus::Failed(_) => Some(owned("Échec")),
        DownloadStatus::Cancelled => Some(owned("Annulé")),
    }
}

/// The line under the status of a failed task: its message.
pub fn failure_detail(s: &DownloadStatus) -> (r: Option<String>)
    ensures
        match s {
            DownloadStatus::Failed(m) => r matches Some(d) && d@ == m@,
            _ => r is None,
        },
{
    match s {
        DownloadStatus::Failed(m) => Some(owned(m.as_str())),
        _ => None,
    }
}

/// What was asked for when a task was queued: the anime, the season and
/// episode, the language, and the players to try in order.
pub struct OriginalRequest {
    pub anime: Root2,
    pub season_idx: usize,
    pub ep_idx: usize,
    pub lang: String,
    pub lecteurs_to_try: Vec<u64>,
}

/// The final component of a path, as std's `Path::file_name` reads it.
pub uninterp spec fn file_name_of(path: Seq<char>) -> Option<Seq<char>>;

/// The last component of a path (`std::path::Path::file_name`).
#[verifier::external_body]
fn path_file_name(path: &str) -> (r: Option<String>)
    ensures
        r.deep_view() == file_name_of(path@),
{
    std::path::Path::new(path).file_name().and_then(|s| s.to_str()).map(|s| s.to_string())
}

/// The title line of a task: the title of the anime (its original title when
/// it has none); the file name when the request is not known.
pub open spec fn task_title_spec(original: Option<OriginalRequest>, output_path: Seq<char>) -> Seq<char> {
    match original {
        Some(o) => if o.anime.title@.len() == 0 {
            o.anime.title_o@
        } else {
            o.anime.title@
        },
        None => match file_name_of(output_path) {
            Some(n) => n,
            None => "?"@,
        },
    }
}

/// The label of the season asked for: its title, or `Saison n` when it does
/// not exist.
pub open spec fn season_label(o: OriginalRequest) -> Seq<char> {
    if o.season_idx < o.anime.saisons@.len() {
        o.anime.saisons@[o.season_idx as int].title@
    } else {
        "Saison "@ + decimal(o.season_idx as nat + 1)
    }
}

/// The label of the episode asked for: its title, or `Épisode n` when it
/// does not exist.
pub open spec fn episode_label(o: OriginalRequest) -> Seq<char> {
    if o.season_idx < o.anime.saisons@.len() && o.ep_idx < o.anime.saisons@[o.season_idx as int].episodes@.len() {
        o.anime.saisons@[o.season_idx as int].episodes@[o.ep_idx as int].title@
    } else {
        "Épisode "@ + decimal(o.ep_idx as nat + 1)
    }
}

/// The second line of a task: season, episode number and label, language in
/// capitals, and the host being tried when known; empty when the request is
/// not known.
pub open spec fn task_subtitle_spec(original: Option<OriginalRequest>, host: Option<Seq<char>>) -> Seq<char> {
    match original {
        Some(o) => season_label(o) + " · Ép. "@ + decimal(o.ep_idx as nat + 1) + " · "@ + episode_label(o) + " · "@
            + crate::naming::uppercase(o.lang@) + match host {
            Some(h) => "  ·  via "@ + h,
            None => Seq::empty(),
        },
        None => Seq::empty(),
    }
}

/// The two lines that describe a task, as `task_title_spec` and
/// `task_subtitle_spec` write them.
pub fn task_lines(original: Option<&OriginalRequest>, task: &DownloadTask) -> (r: (String, String))
    requires
        original matches Some(o) ==> o.ep_idx < u64::MAX && o.season_idx < u64::MAX,
    ensures
        r.0@ == task_title_spec(
            match original {
                Some(o) => Some(*o),
                None => None,
            },
            task.output_path@,
        ),
        r.1@ == task_subtitle_spec(
            match original {
                Some(o) => Some(*o),
                None => None,
            },
            task.host.deep_view(),
        ),
{
    match original {
        Some(o) => {
            let title = if o.anime.title.as_str().is_empty() {
                owned(o.anime.title_o.as_str())
            } else {
                owned(o.anime.title.as_str())
            };
            let mut sub = String::new();
            if o.season_idx < o.anime.saisons.len() {
                push_str(&mut sub, o.anime.saisons[o.season_idx].title.as_str());
            } else {
                push_str(&mut sub, "Saison ");
                push_decimal(&mut sub, o.season_idx as u64 + 1);
            }
            push_str(&mut sub, " · Ép. ");
            push_decimal(&mut sub, o.ep_idx as u64 + 1);
            push_str(&mut sub, " · ");
            if o.season_idx < o.anime.saisons.len() && o.ep_idx < o.anime.saisons[o.season_idx].episodes.len() {
                push_str(&mut sub, o.anime.saisons[o.season_idx].episodes[o.ep_idx].title.as_str());
            } else {
                push_str(&mut sub, "Épisode ");
                push_decimal(&mut sub, o.ep_idx as u64 + 1);
            }
            push_str(&mut sub, " · ");
            let up = crate::naming::to_uppercase(o.lang.as_str());
            push_str(&mut sub, up.as_str());
            match &task.host {
                Some(h) => {
                    push_str(&mut sub, "  ·  via ");
                    push_str(&mut sub, h.as_str());
                },
                None => {},
            }
            (title, sub)
        },
        None => {
            let name = match path_file_name(task.output_path.as_str()) {
                Some(n) => n,
                None => owned("?"),
            };
            (name, String::new())
        },
    }
}

// ---------------------------------------------------------------------------
// Queuing episodes
// ---------------------------------------------------------------------------

/// The host to prefer: the one asked for, else the one of the settings when
/// it is set.
pub open spec fn effective_host_spec(asked: Option<Seq<char>>, setting: Seq<char>) -> Option<Seq<char>> {
    match asked {
        Some(h) => Some(h),
        None => if setting.len() == 0 {
            None
        } else {
            Some(setting)
        },
    }
}

/// The players to try when an episode is queued.  A catalogue entry tries
/// its valid players, those of the preferred host first; a voiranime entry
/// tries its sources, those of the asked host first (the first alone when
/// none is known); a uniquestream entry has a single player.
pub open spec fn lecteurs_to_try_spec(
    source: AnimeSource,
    anime: Root2,
    season_idx: int,
    ep_idx: int,
    lang: Seq<char>,
    asked_host: Option<Seq<char>>,
    setting_host: Seq<char>,
    va_hosts: Seq<String>,
) -> Seq<u64> {
    match source {
        AnimeSource::Franime => valid_lecteurs_spec(
            anime,
            season_idx,
            ep_idx,
            lang,
            effective_host_spec(asked_host, setting_host),
        ),
        AnimeSource::Voiranime => va_source_order_spec(va_hosts, asked_host),
        AnimeSource::Uniquestream => seq![0u64],
    }
}

/// The players to try when an episode is queued, as `lecteurs_to_try_spec`
/// orders them; `va_hosts` are the hosts of the episode's voiranime sources.
pub fn lecteurs_to_try(
    source: AnimeSource,
    anime: &Root2,
    season_idx: usize,
    ep_idx: usize,
    lang: &str,
    asked_host: Option<&str>,
    setting_host: &str,
    va_hosts: &Vec<String>,
) -> (r: Vec<u64>)
    ensures
        r@ == lecteurs_to_try_spec(
            source,
            *anime,
            season_idx as int,
            ep_idx as int,
            lang@,
            match asked_host {
                Some(h) => Some(h@),
                None => None,
            },
            setting_host@,
            va_hosts@,
        ),
{
    match source {
        AnimeSource::Franime => {
            let host: Option<&str> = match asked_host {
                Some(h) => Some(h),
                None => if setting_host.is_empty() {
                    None
                } else {
                    Some(setting_host)
                },
            };
            valid_lecteurs_for_host(anime, season_idx, ep_idx, lang, host)
        },
        AnimeSource::Voiranime => va_source_order(va_hosts, asked_host),
        AnimeSource::Uniquestream => {
            let mut v: Vec<u64> = Vec::new();
            v.push(0);
            assert(v@ =~= seq![0u64]);
            v
        },
    }
}

/// The episodes queued for an anime, as (season, episode) places in order:
/// every episode of every season, or of the one season asked for.
pub open spec fn episode_slots_spec(saisons: Seq<crate::catalog::Saison>, only: Option<usize>, n: int) -> Seq<(usize, usize)>
    decreases n,
{
    if n <= 0 {
        Seq::empty()
    } else {
        let rest = episode_slots_spec(saisons, only, n - 1);
        let s = (n - 1) as usize;
        if only matches Some(t) && t != s {
            rest
        } else {
            rest + Seq::new(saisons[n - 1].episodes@.len(), |e: int| (s, e as usize))
        }
    }
}

/// The episodes queued for an anime, as `episode_slots_spec` lists them.
pub fn episode_slots(anime: &Root2, only_season: Option<usize>) -> (r: Vec<(usize, usize)>)
    ensures
        r@ == episode_slots_spec(anime.saisons@, only_season, anime.saisons@.len() as int),
{
    let mut r: Vec<(usize, usize)> = Vec::new();
    let mut s: usize = 0;
    while s < anime.saisons.len()
        invariant
            s <= anime.saisons@.len(),
            r@ == episode_slots_spec(anime.saisons@, only_season, s as int),
        decreases anime.saisons@.len() - s,
    {
        let skip = match only_season {
            Some(t) => t != s,
            None => false,
        };
        if !skip {
            let ghost before = r@;
            let n = anime.saisons[s].episodes.len();
            let mut e: usize = 0;
            while e < n
                invariant
                    e <= n,
                    n == anime.saisons@[s as int].episodes@.len(),
                    r@ == before + Seq::new(e as nat, |k: int| (s, k as usize)),
                decreases n - e,
            {
                r.push((s, e));
                e = e + 1;
                assert(r@ =~= before + Seq::new(e as nat, |k: int| (s, k as usize)));
            }
        }
        s = s + 1;
    }
    r
}

/// The player names of an episode: the original-version ones, then the French ones.
pub open spec fn episode_names(e: crate::catalog::Episode) -> Seq<Seq<char>> {
    e.lang.vo.lecteurs.deep_view() + e.lang.vf.lecteurs.deep_view()
}

/// The player names of the first `n` episodes of a season, in order.
pub open spec fn season_names(sa: crate::catalog::Saison, n: int) -> Seq<Seq<char>>
    decreases n,
{
    if n <= 0 {
        Seq::empty()
    } else {
        season_names(sa, n - 1) + episode_names(sa.episodes@[n - 1])
    }
}

/// The player names of the episodes of the first `n` seasons, in order.
pub open spec fn anime_names(saisons: Seq<crate::catalog::Saison>, n: int) -> Seq<Seq<char>>
    decreases n,
{
    if n <= 0 {
        Seq::empty()
    } else {
        anime_names(saisons, n - 1) + season_names(saisons[n - 1], saisons[n - 1].episodes@.len() as int)
    }
}

/// A host offered for an anime: a player name of one of its episodes, in
/// either language, that is not an ignored one.
pub open spec fn offered_host(anime: Root2, name: Seq<char>) -> bool {
    !is_ignored_player(name) && anime_names(anime.saisons@, anime.saisons@.len() as int).contains(name)
}

proof fn lemma_concat_contains(a: Seq<Seq<char>>, b: Seq<Seq<char>>, y: Seq<char>)
    ensures
        (a + b).contains(y) <==> (a.contains(y) || b.contains(y)),
{
    if a.contains(y) {
        let i = choose|i: int| 0 <= i < a.len() && a[i] == y;
        assert((a + b)[i] == y);
    }
    if b.contains(y) {
        let j = choose|j: int| 0 <= j < b.len() && b[j] == y;
        assert((a + b)[a.len() + j] == y);
    }
    if (a + b).contains(y) {
        let k = choose|k: int| 0 <= k < (a + b).len() && (a + b)[k] == y;
        if k < a.len() {
            assert(a[k] == y);
        } else {
            assert(b[k - a.len()] == y);
        }
    }
}

fn add_names(out: &mut Vec<String>, names: &Vec<String>)
    requires
        strictly_sorted(old(out).deep_view()),
    ensures
        strictly_sorted(final(out).deep_view()),
        forall|y: Seq<char>| #[trigger] final(out).deep_view().contains(y) <==> (old(out).deep_view().contains(y) || (
            !is_ignored_player(y) && names.deep_view().contains(y))),
{
    let ghost start = out.deep_view();
    let mut i: usize = 0;
    while i < names.len()
        invariant
            i <= names@.len(),
            strictly_sorted(out.deep_view()),
            forall|y: Seq<char>| #[trigger] out.deep_view().contains(y) <==> (start.contains(y) || (
                !is_ignored_player(y) && names.deep_view().take(i as int).contains(y))),
        decreases names@.len() - i,
    {
        let n = names[i].as_str();
        if !(str_eq(n, "hd") || str_eq(n, "TELECHARGEMENT UNIQUE")) {
            insert_sorted_unique(out, n);
        }
        proof {
            assert(names.deep_view().take(i as int + 1) =~= names.deep_view().take(i as int) + seq![n@]);
            assert forall|y: Seq<char>| #[trigger] out.deep_view().contains(y) <==> (start.contains(y) || (
                !is_ignored_player(y) && names.deep_view().take(i as int + 1).contains(y))) by {
                lemma_concat_contains(names.deep_view().take(i as int), seq![n@], y);
                assert(seq![n@].contains(y) <==> y == n@) by {
                    if y == n@ {
                        assert(seq![n@][0] == y);
                    }
                }
            }
        }
        i = i + 1;
    }
    assert(names.deep_view().take(i as int) =~= names.deep_view());
}

/// The hosts offered for an anime are exactly the player names of its
/// episodes, in either language, other than `hd` and `TELECHARGEMENT UNIQUE`.
pub proof fn lemma_offered_hosts(anime: Root2, name: Seq<char>)
    ensures
        offered_host(anime, name) <==> (name != "hd"@ && name != "TELECHARGEMENT UNIQUE"@ && anime_names(
            anime.saisons@,
            anime.saisons@.len() as int,
        ).contains(name)),
{
}

/// The hosts offered for an anime, sorted, each once, as `offered_host` says.
pub fn host_options_for(anime: &Root2) -> (r: Vec<String>)
    ensures
        strictly_sorted(r.deep_view()),
        forall|y: Seq<char>| #[trigger] r.deep_view().contains(y) <==> offered_host(*anime, y),
{
    let mut out: Vec<String> = Vec::new();
    assert(out.deep_view() =~= Seq::<Seq<char>>::empty());
    let mut s: usize = 0;
    while s < anime.saisons.len()
        invariant
            s <= anime.saisons@.len(),
            strictly_sorted(out.deep_view()),
            forall|y: Seq<char>| #[trigger] out.deep_view().contains(y) <==> (!is_ignored_player(y) && anime_names(
                anime.saisons@,
                s as int,
            ).contains(y)),
        decreases anime.saisons@.len() - s,
    {
        let saison = &anime.saisons[s];
        let ghost before = anime_names(anime.saisons@, s as int);
        let mut e: usize = 0;
        while e < saison.episodes.len()
            invariant
                s < anime.saisons@.len(),
                *saison == anime.saisons@[s as int],
                before == anime_names(anime.saisons@, s as int),
                e <= saison.episodes@.len(),
                strictly_sorted(out.deep_view()),
                forall|y: Seq<char>| #[trigger] out.deep_view().contains(y) <==> (!is_ignored_player(y) && (
                    before.contains(y) || season_names(*saison, e as int).contains(y))),
            decreases saison.episodes@.len() - e,
        {
            let ep = &saison.episodes[e];
            add_names(&mut out, &ep.lang.vo.lecteurs);
            add_names(&mut out, &ep.lang.vf.lecteurs);
            proof {
                assert forall|y: Seq<char>| #[trigger] out.deep_view().contains(y) <==> (!is_ignored_player(y) && (
                    before.contains(y) || season_names(*saison, e as int + 1).contains(y))) by {
                    lemma_concat_contains(season_names(*saison, e as int), episode_names(*ep), y);
                    lemma_concat_contains(ep.lang.vo.lecteurs.deep_view(), ep.lang.vf.lecteurs.deep_view(), y);
                }
            }
            e = e + 1;
        }
        proof {
            assert forall|y: Seq<char>| #[trigger] out.deep_view().contains(y) <==> (!is_ignored_player(y) && anime_names(
                anime.saisons@,
                s as int + 1,
            ).contains(y)) by {
                lemma_concat_contains(before, season_names(*saison, saison.episodes@.len() as int), y);
            }
        }
        s = s + 1;
    }
    out
}

} // verus!
