//! What is done to download one episode: the players are tried one after the
//! other, then the alternative sources, until one download succeeds or the
//! task is marked failed with an account of every attempt.  The decisions are
//! a state machine; the caller performs each action and reports its outcome.
use vstd::prelude::*;
use crate::catalog::{AnimeSource, Root2, episodes_before, players_of};
use crate::naming::{host_from_url, host_from_url_spec};
use crate::num::decimal;
use crate::text::{join, owned, push_str, str_eq};
use crate::voiranime::{VaSource, sources_view};

verus! {

// ---------------------------------------------------------------------------
// Messages
// ---------------------------------------------------------------------------

/// Failure when the Voiranime episodes of the anime were not read yet.
pub const VA_NOT_LOADED: &'static str = "voiranime: épisodes pas encore chargés (déplie l'anime d'abord)";
/// Failure when the UniqueStream episodes of the anime were not read yet.
pub const US_NOT_LOADED: &'static str = "uniquestream: épisodes pas encore chargés (déplie l'anime d'abord)";

/// One failed attempt as it is reported: `host: error`.
pub open spec fn attempt_line(a: (Seq<char>, Seq<char>)) -> Seq<char> {
    a.0 + ": "@ + a.1
}

/// The failed attempts, reported one after the other.
pub open spec fn attempts_text(attempts: Seq<(Seq<char>, Seq<char>)>) -> Seq<char> {
    join(Seq::new(attempts.len(), |i: int| attempt_line(attempts[i])), " · "@)
}

/// The failure after the Voiranime players of an episode.
pub open spec fn va_summary(attempts: Seq<(Seq<char>, Seq<char>)>) -> Seq<char> {
    if attempts.len() == 0 {
        "voiranime: aucune source utilisable"@
    } else {
        "voiranime: tous lecteurs KO — "@ + attempts_text(attempts)
    }
}

/// The failure after the catalogue's players of an episode.
pub open spec fn franime_summary(attempts: Seq<(Seq<char>, Seq<char>)>) -> Seq<char> {
    if attempts.len() == 0 {
        "Aucune tentative"@
    } else {
        "Tous les lecteurs ont échoué — "@ + attempts_text(attempts)
    }
}

fn attempts_string(attempts: &Vec<(String, String)>) -> (r: String)
    ensures
        r@ == attempts_text(attempts_view(attempts@)),
{
    let mut lines: Vec<String> = Vec::new();
    let mut i: usize = 0;
    let ghost av = attempts_view(attempts@);
    while i < attempts.len()
        invariant
            i <= attempts@.len(),
            av == attempts_view(attempts@),
            lines.deep_view() == Seq::new(i as nat, |k: int| attempt_line(av[k])),
        decreases attempts@.len() - i,
    {
        let mut l = owned(attempts[i].0.as_str());
        push_str(&mut l, ": ");
        push_str(&mut l, attempts[i].1.as_str());
        let ghost before = lines@;
        lines.push(l);
        proof {
            crate::text::lemma_deep_view_push(before, lines@, l);
        }
        i = i + 1;
        assert(lines.deep_view() =~= Seq::new(i as nat, |k: int| attempt_line(av[k])));
    }
    assert(Seq::new(i as nat, |k: int| attempt_line(av[k])) =~= Seq::new(av.len(), |k: int| attempt_line(av[k])));
    crate::text::join_strings(&lines, " · ")
}

// ---------------------------------------------------------------------------
// The state machine
// ---------------------------------------------------------------------------

/// Where the download of an episode stands.
#[derive(Clone, Copy, PartialEq, Eq, Structural, Debug)]
pub enum Phase {
    Start,
    VaSources,
    VaIframe,
    VaDownload,
    UsMedia,
    UsDownload,
    FranimeFetch,
    FranimeDownload,
    AnikuroSearch,
    AnikuroDownload,
    ConsumetSearch,
    ConsumetDownload,
    Done,
}

/// What the caller reports after performing the last action asked of it.
pub enum Event {
    /// Begin.
    Start,
    /// The download asked for succeeded.
    Succeeded,
    /// The action failed, with the message of its error.
    Failed(String),
    /// The client for the site could not be built, with the message of its error.
    ClientFailed(String),
    /// The action gave an address.
    Got(String),
}

/// What the caller is asked to do.
pub enum Action {
    /// Show the host being tried on the task.
    SetHost(String),
    /// Record that the player with this index was tried.
    AddAttempted(u64),
    /// Find the video behind a player's frame and download it.
    ExtractAndDownload(String),
    /// Read the player frame of a Voiranime episode page.
    FetchEpisodeIframe(String),
    /// Resolve the HLS playlist of a UniqueStream content: its kind
    /// (`episode` or `movie`, which names the media request), its id and the
    /// audio locale asked for.
    FetchUsHls(String, String, String),
    /// Ask the catalogue's API for the frame of the player with this index.
    FetchFranimeIframe(u64),
    /// Ask Anikuro for a stream of the episode.
    TryAnikuro,
    /// Ask Consumet for a stream of the episode.
    TryConsumet,
    /// Download a video address directly.
    DownloadDirect(String),
    /// Mark the task failed with this message; nothing more is asked.
    MarkFailed(String),
    /// The download succeeded; nothing more is asked.
    Finish,
}

/// What the machine is given about the episode and the settings.
pub struct PlanContext {
    pub source: AnimeSource,
    pub lecteurs: Vec<u64>,
    pub lecteur_names: Vec<String>,
    pub va_ep_url: Option<String>,
    pub va_sources: Vec<VaSource>,
    pub us_ep_id: Option<String>,
    pub us_is_movie: bool,
    pub us_locale: String,
    pub anikuro_on: bool,
    pub anikuro_provider: String,
    pub consumet_on: bool,
    pub consumet_provider: String,
}

/// The machine: its context, its phase, the next player to try, the failed
/// attempts so far, the host being tried and the failure that the
/// alternative sources would report.
pub struct DownloadPlan {
    pub ctx: PlanContext,
    pub phase: Phase,
    pub next: usize,
    pub attempts: Vec<(String, String)>,
    pub host: String,
    pub summary: String,
}

/// An action as plain values.
pub enum Act {
    SetHost(Seq<char>),
    AddAttempted(u64),
    ExtractAndDownload(Seq<char>),
    FetchEpisodeIframe(Seq<char>),
    FetchUsHls(Seq<char>, Seq<char>, Seq<char>),
    FetchFranimeIframe(u64),
    TryAnikuro,
    TryConsumet,
    DownloadDirect(Seq<char>),
    MarkFailed(Seq<char>),
    Finish,
}

/// An event as plain values.
pub enum Ev {
    Start,
    Succeeded,
    Failed(Seq<char>),
    ClientFailed(Seq<char>),
    Got(Seq<char>),
}

/// The context as plain values.
pub struct Ctx {
    pub source: AnimeSource,
    pub lecteurs: Seq<u64>,
    pub names: Seq<Seq<char>>,
    pub va_ep_url: Option<Seq<char>>,
    pub va_sources: Seq<(Seq<char>, Seq<char>)>,
    pub us_ep_id: Option<Seq<char>>,
    pub us_is_movie: bool,
    pub us_locale: Seq<char>,
    pub anikuro_on: bool,
    pub anikuro_provider: Seq<char>,
    pub consumet_on: bool,
    pub consumet_provider: Seq<char>,
}

/// The state as plain values.
pub struct St {
    pub phase: Phase,
    pub next: int,
    pub attempts: Seq<(Seq<char>, Seq<char>)>,
    pub host: Seq<char>,
    pub summary: Seq<char>,
}

pub open spec fn act_view(a: Action) -> Act {
    match a {
        Action::SetHost(s) => Act::SetHost(s@),
        Action::AddAttempted(l) => Act::AddAttempted(l),
        Action::ExtractAndDownload(s) => Act::ExtractAndDownload(s@),
        Action::FetchEpisodeIframe(s) => Act::FetchEpisodeIframe(s@),
        Action::FetchUsHls(k, i, l) => Act::FetchUsHls(k@, i@, l@),
        Action::FetchFranimeIframe(l) => Act::FetchFranimeIframe(l),
        Action::TryAnikuro => Act::TryAnikuro,
        Action::TryConsumet => Act::TryConsumet,
        Action::DownloadDirect(s) => Act::DownloadDirect(s@),
        Action::MarkFailed(s) => Act::MarkFailed(s@),
        Action::Finish => Act::Finish,
    }
}

pub open spec fn acts_view(s: Seq<Action>) -> Seq<Act> {
    Seq::new(s.len(), |i: int| act_view(s[i]))
}

pub open spec fn ev_view(e: Event) -> Ev {
    match e {
        Event::Start => Ev::Start,
        Event::Succeeded => Ev::Succeeded,
        Event::Failed(s) => Ev::Failed(s@),
        Event::ClientFailed(s) => Ev::ClientFailed(s@),
        Event::Got(s) => Ev::Got(s@),
    }
}

pub open spec fn attempts_view(a: Seq<(String, String)>) -> Seq<(Seq<char>, Seq<char>)> {
    Seq::new(a.len(), |i: int| (a[i].0@, a[i].1@))
}

pub open spec fn ctx_view(c: PlanContext) -> Ctx {
    Ctx {
        source: c.source,
        lecteurs: c.lecteurs@,
        names: c.lecteur_names.deep_view(),
        va_ep_url: c.va_ep_url.deep_view(),
        va_sources: sources_view(c.va_sources@),
        us_ep_id: c.us_ep_id.deep_view(),
        us_is_movie: c.us_is_movie,
        us_locale: c.us_locale@,
        anikuro_on: c.anikuro_on,
        anikuro_provider: c.anikuro_provider@,
        consumet_on: c.consumet_on,
        consumet_provider: c.consumet_provider@,
    }
}

pub open spec fn st_view(p: DownloadPlan) -> St {
    St {
        phase: p.phase,
        next: p.next as int,
        attempts: attempts_view(p.attempts@),
        host: p.host@,
        summary: p.summary@,
    }
}

/// The name shown for a player: its name in the episode, or `#` and its index.
pub open spec fn lecteur_name(c: Ctx, l: u64) -> Seq<char> {
    if l < c.names.len() {
        c.names[l as int]
    } else {
        "#"@ + decimal(l as nat)
    }
}

/// The first position at or after `k` in the players to try whose index
/// names one of the episode's Voiranime sources.
pub open spec fn next_va(c: Ctx, k: int) -> Option<int>
    decreases c.lecteurs.len() - k,
{
    if k < 0 || k >= c.lecteurs.len() {
        None
    } else if (c.lecteurs[k] as usize) < c.va_sources.len() {
        Some(k)
    } else {
        next_va(c, k + 1)
    }
}

/// The kind of UniqueStream media asked for: a film's, or an episode's.
pub open spec fn us_media_kind(is_movie: bool) -> Seq<char> {
    if is_movie {
        "movie"@
    } else {
        "episode"@
    }
}

/// A finished state.
pub open spec fn done(s: St) -> St {
    St { phase: Phase::Done, ..s }
}

/// Try the next Voiranime source from position `k`, or report them all failed.
pub open spec fn va_advance(c: Ctx, s: St, k: int, attempts: Seq<(Seq<char>, Seq<char>)>) -> (St, Seq<Act>) {
    match next_va(c, k) {
        Some(j) => {
            let l = c.lecteurs[j];
            let src = c.va_sources[l as usize as int];
            (
                St { phase: Phase::VaSources, next: j + 1, attempts, host: src.0, summary: s.summary },
                seq![Act::SetHost("voiranime:"@ + src.0), Act::AddAttempted(l), Act::ExtractAndDownload(src.1)],
            )
        },
        None => (
            St { phase: Phase::Done, next: s.next, attempts, host: s.host, summary: s.summary },
            seq![Act::MarkFailed(va_summary(attempts))],
        ),
    }
}

/// Turn to Consumet when it is on, else report `summary`.
pub open spec fn consumet_start(c: Ctx, s: St, summary: Seq<char>) -> (St, Seq<Act>) {
    if c.consumet_on {
        (
            St { phase: Phase::ConsumetSearch, summary, ..s },
            seq![Act::SetHost("consumet:"@ + c.consumet_provider), Act::TryConsumet],
        )
    } else {
        (St { phase: Phase::Done, summary, ..s }, seq![Act::MarkFailed(summary)])
    }
}

/// Turn to the alternative sources, Anikuro first, with `summary` as the failure so far.
pub open spec fn fallback_start(c: Ctx, s: St, summary: Seq<char>) -> (St, Seq<Act>) {
    if c.anikuro_on {
        (
            St { phase: Phase::AnikuroSearch, summary, ..s },
            seq![Act::SetHost("anikuro:"@ + c.anikuro_provider), Act::TryAnikuro],
        )
    } else {
        consumet_start(c, s, summary)
    }
}

/// Try the catalogue's player at position `k`, or turn to the alternative sources.
pub open spec fn franime_advance(c: Ctx, s: St, k: int, attempts: Seq<(Seq<char>, Seq<char>)>) -> (St, Seq<Act>) {
    if 0 <= k < c.lecteurs.len() {
        let l = c.lecteurs[k];
        let h = lecteur_name(c, l);
        (
            St { phase: Phase::FranimeFetch, next: k + 1, attempts, host: h, summary: s.summary },
            seq![Act::SetHost(h), Act::AddAttempted(l), Act::FetchFranimeIframe(l)],
        )
    } else {
        fallback_start(c, St { attempts, ..s }, franime_summary(attempts))
    }
}

/// One step of the machine: from the state and the outcome of the last
/// action, the next state and the actions to perform in order.  An outcome
/// that does not fit the phase changes nothing.
pub open spec fn plan_step(c: Ctx, s: St, e: Ev) -> (St, Seq<Act>) {
    match (s.phase, e) {
        (Phase::Start, Ev::Start) => {
            if c.source == AnimeSource::Voiranime && c.va_ep_url is None {
                (done(s), seq![Act::MarkFailed(VA_NOT_LOADED@)])
            } else if c.source == AnimeSource::Uniquestream && c.us_ep_id is None {
                (done(s), seq![Act::MarkFailed(US_NOT_LOADED@)])
            } else if c.source == AnimeSource::Voiranime {
                if c.va_sources.len() > 0 {
                    va_advance(c, s, 0, Seq::empty())
                } else {
                    (
                        St { phase: Phase::VaIframe, ..s },
                        seq![Act::SetHost("voiranime"@), Act::FetchEpisodeIframe(c.va_ep_url.unwrap())],
                    )
                }
            } else if c.us_ep_id is Some {
                (
                    St { phase: Phase::UsMedia, ..s },
                    seq![
                        Act::SetHost("uniquestream:"@ + c.us_locale),
                        Act::FetchUsHls(us_media_kind(c.us_is_movie), c.us_ep_id.unwrap(), c.us_locale),
                    ],
                )
            } else {
                franime_advance(c, s, 0, Seq::empty())
            }
        },
        (Phase::VaSources, Ev::Succeeded) => (done(s), seq![Act::Finish]),
        (Phase::VaSources, Ev::Failed(m)) => va_advance(c, s, s.next, s.attempts.push((s.host, m))),
        (Phase::VaIframe, Ev::ClientFailed(m)) => (done(s), seq![Act::MarkFailed("voiranime client: "@ + m)]),
        (Phase::VaIframe, Ev::Failed(m)) => (done(s), seq![Act::MarkFailed("voiranime iframe: "@ + m)]),
        (Phase::VaIframe, Ev::Got(i)) => (
            St { phase: Phase::VaDownload, ..s },
            seq![Act::SetHost("voiranime via "@ + host_from_url_spec(i)), Act::ExtractAndDownload(i)],
        ),
        (Phase::VaDownload, Ev::Succeeded) => (done(s), seq![Act::Finish]),
        (Phase::VaDownload, Ev::Failed(m)) => (done(s), seq![Act::MarkFailed("voiranime DL: "@ + m)]),
        (Phase::UsMedia, Ev::ClientFailed(m)) => (done(s), seq![Act::MarkFailed("uniquestream client: "@ + m)]),
        (Phase::UsMedia, Ev::Failed(m)) => (done(s), seq![Act::MarkFailed("uniquestream media: "@ + m)]),
        (Phase::UsMedia, Ev::Got(u)) => (St { phase: Phase::UsDownload, ..s }, seq![Act::DownloadDirect(u)]),
        (Phase::UsDownload, Ev::Succeeded) => (done(s), seq![Act::Finish]),
        (Phase::UsDownload, Ev::Failed(m)) => (done(s), seq![Act::MarkFailed("uniquestream DL: "@ + m)]),
        (Phase::FranimeFetch, Ev::Got(u)) => (
            St { phase: Phase::FranimeDownload, ..s },
            seq![Act::ExtractAndDownload(u)],
        ),
        (Phase::FranimeFetch, Ev::Failed(m)) => franime_advance(
            c,
            s,
            s.next,
            s.attempts.push((s.host, "API: "@ + m)),
        ),
        (Phase::FranimeDownload, Ev::Succeeded) => (done(s), seq![Act::Finish]),
        (Phase::FranimeDownload, Ev::Failed(m)) => franime_advance(c, s, s.next, s.attempts.push((s.host, m))),
        (Phase::AnikuroSearch, Ev::Got(u)) => (
            St { phase: Phase::AnikuroDownload, ..s },
            seq![Act::DownloadDirect(u)],
        ),
        (Phase::AnikuroSearch, Ev::Failed(_m)) => consumet_start(c, s, s.summary),
        (Phase::AnikuroDownload, Ev::Succeeded) => (done(s), seq![Act::Finish]),
        (Phase::AnikuroDownload, Ev::Failed(_m)) => consumet_start(c, s, s.summary),
        (Phase::ConsumetSearch, Ev::Got(u)) => (
            St { phase: Phase::ConsumetDownload, ..s },
            seq![Act::DownloadDirect(u)],
        ),
        (Phase::ConsumetSearch, Ev::Failed(m)) => (done(s), seq![Act::MarkFailed(s.summary + " · consumet: "@ + m)]),
        (Phase::ConsumetDownload, Ev::Succeeded) => (done(s), seq![Act::Finish]),
        (Phase::ConsumetDownload, Ev::Failed(m)) => (
            done(s),
            seq![Act::MarkFailed(s.summary + " · consumet: "@ + m)],
        ),
        _ => (s, Seq::empty()),
    }
}

/// The state is one the machine can be in.
pub open spec fn plan_wf(p: DownloadPlan) -> bool {
    &&& p.next <= p.ctx.lecteurs@.len()
    &&& p.ctx.lecteurs@.len() < usize::MAX
}

fn push_attempt(attempts: &mut Vec<(String, String)>, host: &String, msg: String)
    ensures
        attempts_view(final(attempts)@) == attempts_view(old(attempts)@).push((host@, msg@)),
{
    attempts.push((owned(host.as_str()), msg));
    assert(attempts_view(attempts@) =~= attempts_view(old(attempts)@).push((host@, msg@)));
}

fn prefixed(prefix: &str, m: &str) -> (r: String)
    ensures
        r@ == prefix@ + m@,
{
    let mut r = owned(prefix);
    push_str(&mut r, m);
    r
}

fn one(a: Action) -> (r: Vec<Action>)
    ensures
        acts_view(r@) == seq![act_view(a)],
{
    let mut v: Vec<Action> = Vec::new();
    v.push(a);
    assert(acts_view(v@) =~= seq![act_view(a)]);
    v
}

fn two(a: Action, b: Action) -> (r: Vec<Action>)
    ensures
        acts_view(r@) == seq![act_view(a), act_view(b)],
{
    let mut v: Vec<Action> = Vec::new();
    v.push(a);
    v.push(b);
    assert(acts_view(v@) =~= seq![act_view(a), act_view(b)]);
    v
}

fn three(a: Action, b: Action, c: Action) -> (r: Vec<Action>)
    ensures
        acts_view(r@) == seq![act_view(a), act_view(b), act_view(c)],
{
    let mut v: Vec<Action> = Vec::new();
    v.push(a);
    v.push(b);
    v.push(c);
    assert(acts_view(v@) =~= seq![act_view(a), act_view(b), act_view(c)]);
    v
}

impl DownloadPlan {
    /// A machine about to start.
    pub fn new(ctx: PlanContext) -> (p: Self)
        requires
            ctx.lecteurs@.len() < usize::MAX,
        ensures
            p.ctx == ctx,
            plan_wf(p),
            st_view(p) == (St {
                phase: Phase::Start,
                next: 0,
                attempts: Seq::empty(),
                host: Seq::empty(),
                summary: Seq::empty(),
            }),
    {
        let p = DownloadPlan {
            ctx,
            phase: Phase::Start,
            next: 0,
            attempts: Vec::new(),
            host: String::new(),
            summary: String::new(),
        };
        assert(attempts_view(p.attempts@) =~= Seq::empty());
        p
    }

    fn mark_done(&mut self)
        ensures
            final(self).ctx == old(self).ctx,
            st_view(*final(self)) == done(st_view(*old(self))),
            final(self).next == old(self).next,
    {
        self.phase = Phase::Done;
    }

    fn lecteur_label(&self, l: u64) -> (r: String)
        ensures
            r@ == lecteur_name(ctx_view(self.ctx), l),
    {
        if l < self.ctx.lecteur_names.len() as u64 {
            let ghost dv = self.ctx.lecteur_names.deep_view();
            assert(dv[l as int] == self.ctx.lecteur_names@[l as int]@);
            owned(self.ctx.lecteur_names[l as usize].as_str())
        } else {
            let mut r = owned("#");
            crate::num::push_decimal(&mut r, l);
            r
        }
    }

    fn va_advance_exec(&mut self, k: usize) -> (r: Vec<Action>)
        requires
            plan_wf(*old(self)),
            k <= old(self).ctx.lecteurs@.len(),
        ensures
            plan_wf(*final(self)),
            final(self).ctx == old(self).ctx,
            (st_view(*final(self)), acts_view(r@)) == va_advance(
                ctx_view(old(self).ctx),
                st_view(*old(self)),
                k as int,
                st_view(*old(self)).attempts,
            ),
    {
        let ghost c = ctx_view(self.ctx);
        let mut j = k;
        while j < self.ctx.lecteurs.len() && (self.ctx.lecteurs[j] as usize) >= self.ctx.va_sources.len()
            invariant
                k <= j <= self.ctx.lecteurs@.len(),
                c == ctx_view(self.ctx),
                next_va(c, k as int) == next_va(c, j as int),
            decreases self.ctx.lecteurs@.len() - j,
        {
            j = j + 1;
        }
        if j < self.ctx.lecteurs.len() {
            let l = self.ctx.lecteurs[j];
            let src = &self.ctx.va_sources[l as usize];
            let ghost sv = sources_view(self.ctx.va_sources@);
            assert(sv[l as usize as int] == (src.host@, src.iframe@));
            let host_label = prefixed("voiranime:", src.host.as_str());
            let iframe = owned(src.iframe.as_str());
            self.host = owned(src.host.as_str());
            self.phase = Phase::VaSources;
            self.next = j + 1;
            three(Action::SetHost(host_label), Action::AddAttempted(l), Action::ExtractAndDownload(iframe))
        } else {
            let msg = if self.attempts.len() == 0 {
                owned("voiranime: aucune source utilisable")
            } else {
                let t = attempts_string(&self.attempts);
                prefixed("voiranime: tous lecteurs KO — ", t.as_str())
            };
            self.phase = Phase::Done;
            one(Action::MarkFailed(msg))
        }
    }

    fn consumet_start_exec(&mut self, summary: String) -> (r: Vec<Action>)
        requires
            plan_wf(*old(self)),
        ensures
            plan_wf(*final(self)),
            final(self).ctx == old(self).ctx,
            (st_view(*final(self)), acts_view(r@)) == consumet_start(
                ctx_view(old(self).ctx),
                st_view(*old(self)),
                summary@,
            ),
    {
        if self.ctx.consumet_on {
            let h = prefixed("consumet:", self.ctx.consumet_provider.as_str());
            self.summary = summary;
            self.phase = Phase::ConsumetSearch;
            two(Action::SetHost(h), Action::TryConsumet)
        } else {
            let m = owned(summary.as_str());
            self.summary = summary;
            self.phase = Phase::Done;
            one(Action::MarkFailed(m))
        }
    }

    fn fallback_start_exec(&mut self, summary: String) -> (r: Vec<Action>)
        requires
            plan_wf(*old(self)),
        ensures
            plan_wf(*final(self)),
            final(self).ctx == old(self).ctx,
            (st_view(*final(self)), acts_view(r@)) == fallback_start(
                ctx_view(old(self).ctx),
                st_view(*old(self)),
                summary@,
            ),
    {
        if self.ctx.anikuro_on {
            let h = prefixed("anikuro:", self.ctx.anikuro_provider.as_str());
            self.summary = summary;
            self.phase = Phase::AnikuroSearch;
            two(Action::SetHost(h), Action::TryAnikuro)
        } else {
            self.consumet_start_exec(summary)
        }
    }

    fn franime_advance_exec(&mut self, k: usize) -> (r: Vec<Action>)
        requires
            plan_wf(*old(self)),
            k <= old(self).ctx.lecteurs@.len(),
        ensures
            plan_wf(*final(self)),
            final(self).ctx == old(self).ctx,
            (st_view(*final(self)), acts_view(r@)) == franime_advance(
                ctx_view(old(self).ctx),
                st_view(*old(self)),
                k as int,
                st_view(*old(self)).attempts,
            ),
    {
        if k < self.ctx.lecteurs.len() {
            let l = self.ctx.lecteurs[k];
            let h = self.lecteur_label(l);
            let h2 = owned(h.as_str());
            self.host = h;
            self.phase = Phase::FranimeFetch;
            self.next = k + 1;
            three(Action::SetHost(h2), Action::AddAttempted(l), Action::FetchFranimeIframe(l))
        } else {
            let summary = if self.attempts.len() == 0 {
                owned("Aucune tentative")
            } else {
                let t = attempts_string(&self.attempts);
                prefixed("Tous les lecteurs ont échoué — ", t.as_str())
            };
            let ghost s0 = st_view(*self);
            assert(s0 == St { attempts: s0.attempts, ..s0 });
            self.fallback_start_exec(summary)
        }
    }

    /// One step: the next actions for the outcome of the last one, as `plan_step` gives them.
    pub fn step(&mut self, ev: Event) -> (r: Vec<Action>)
        requires
            plan_wf(*old(self)),
        ensures
            plan_wf(*final(self)),
            final(self).ctx == old(self).ctx,
            (st_view(*final(self)), acts_view(r@)) == plan_step(
                ctx_view(old(self).ctx),
                st_view(*old(self)),
                ev_view(ev),
            ),
    {
        let ghost c = ctx_view(self.ctx);
        match (self.phase, ev) {
            (Phase::Start, Event::Start) => {
                let is_va = self.ctx.source == AnimeSource::Voiranime;
                let is_us = self.ctx.source == AnimeSource::Uniquestream;
                if is_va && self.ctx.va_ep_url.is_none() {
                    self.mark_done();
                    one(Action::MarkFailed(owned(VA_NOT_LOADED)))
                } else if is_us && self.ctx.us_ep_id.is_none() {
                    self.mark_done();
                    one(Action::MarkFailed(owned(US_NOT_LOADED)))
                } else if is_va {
                    if self.ctx.va_sources.len() > 0 {
                        assert(attempts_view(self.attempts@) =~= attempts_view(self.attempts@));
                        let r = self.va_advance_exec_fresh();
                        r
                    } else {
                        let url = match &self.ctx.va_ep_url {
                            Some(u) => owned(u.as_str()),
                            None => owned(""),
                        };
                        self.phase = Phase::VaIframe;
                        two(Action::SetHost(owned("voiranime")), Action::FetchEpisodeIframe(url))
                    }
                } else if self.ctx.us_ep_id.is_some() {
                    let h = prefixed("uniquestream:", self.ctx.us_locale.as_str());
                    let kind = if self.ctx.us_is_movie {
                        owned("movie")
                    } else {
                        owned("episode")
                    };
                    let id = match &self.ctx.us_ep_id {
                        Some(e) => owned(e.as_str()),
                        None => owned(""),
                    };
                    let locale = owned(self.ctx.us_locale.as_str());
                    self.phase = Phase::UsMedia;
                    two(Action::SetHost(h), Action::FetchUsHls(kind, id, locale))
                } else {
                    self.franime_advance_exec_fresh()
                }
            },
            (Phase::VaSources, Event::Succeeded) => {
                self.mark_done();
                one(Action::Finish)
            },
            (Phase::VaSources, Event::Failed(m)) => {
                let k = self.next;
                push_attempt(&mut self.attempts, &self.host, m);
                self.va_advance_exec(k)
            },
            (Phase::VaIframe, Event::ClientFailed(m)) => {
                self.mark_done();
                one(Action::MarkFailed(prefixed("voiranime client: ", m.as_str())))
            },
            (Phase::VaIframe, Event::Failed(m)) => {
                self.mark_done();
                one(Action::MarkFailed(prefixed("voiranime iframe: ", m.as_str())))
            },
            (Phase::VaIframe, Event::Got(i)) => {
                let h = host_from_url(i.as_str());
                self.phase = Phase::VaDownload;
                two(Action::SetHost(prefixed("voiranime via ", h.as_str())), Action::ExtractAndDownload(i))
            },
            (Phase::VaDownload, Event::Succeeded) => {
                self.mark_done();
                one(Action::Finish)
            },
            (Phase::VaDownload, Event::Failed(m)) => {
                self.mark_done();
                one(Action::MarkFailed(prefixed("voiranime DL: ", m.as_str())))
            },
            (Phase::UsMedia, Event::ClientFailed(m)) => {
                self.mark_done();
                one(Action::MarkFailed(prefixed("uniquestream client: ", m.as_str())))
            },
            (Phase::UsMedia, Event::Failed(m)) => {
                self.mark_done();
                one(Action::MarkFailed(prefixed("uniquestream media: ", m.as_str())))
            },
            (Phase::UsMedia, Event::Got(u)) => {
                self.phase = Phase::UsDownload;
                one(Action::DownloadDirect(u))
            },
            (Phase::UsDownload, Event::Succeeded) => {
                self.mark_done();
                one(Action::Finish)
            },
            (Phase::UsDownload, Event::Failed(m)) => {
                self.mark_done();
                one(Action::MarkFailed(prefixed("uniquestream DL: ", m.as_str())))
            },
            (Phase::FranimeFetch, Event::Got(u)) => {
                self.phase = Phase::FranimeDownload;
                one(Action::ExtractAndDownload(u))
            },
            (Phase::FranimeFetch, Event::Failed(m)) => {
                let k = self.next;
                let msg = prefixed("API: ", m.as_str());
                push_attempt(&mut self.attempts, &self.host, msg);
                self.franime_advance_exec(k)
            },
            (Phase::FranimeDownload, Event::Succeeded) => {
                self.mark_done();
                one(Action::Finish)
            },
            (Phase::FranimeDownload, Event::Failed(m)) => {
                let k = self.next;
                push_attempt(&mut self.attempts, &self.host, m);
                self.franime_advance_exec(k)
            },
            (Phase::AnikuroSearch, Event::Got(u)) => {
                self.phase = Phase::AnikuroDownload;
                one(Action::DownloadDirect(u))
            },
            (Phase::AnikuroSearch, Event::Failed(_m)) => {
                let s = owned(self.summary.as_str());
                self.consumet_start_exec(s)
            },
            (Phase::AnikuroDownload, Event::Succeeded) => {
                self.mark_done();
                one(Action::Finish)
            },
            (Phase::AnikuroDownload, Event::Failed(_m)) => {
                let s = owned(self.summary.as_str());
                self.consumet_start_exec(s)
            },
            (Phase::ConsumetSearch, Event::Got(u)) => {
                self.phase = Phase::ConsumetDownload;
                one(Action::DownloadDirect(u))
            },
            (Phase::ConsumetSearch, Event::Failed(m)) => {
                let mut t = owned(self.summary.as_str());
                push_str(&mut t, " · consumet: ");
                push_str(&mut t, m.as_str());
                self.mark_done();
                one(Action::MarkFailed(t))
            },
            (Phase::ConsumetDownload, Event::Succeeded) => {
                self.mark_done();
                one(Action::Finish)
            },
            (Phase::ConsumetDownload, Event::Failed(m)) => {
                let mut t = owned(self.summary.as_str());
                push_str(&mut t, " · consumet: ");
                push_str(&mut t, m.as_str());
                self.mark_done();
                one(Action::MarkFailed(t))
            },
            _ => {
                let v: Vec<Action> = Vec::new();
                assert(acts_view(v@) =~= Seq::<Act>::empty());
                v
            },
        }
    }

    /// `va_advance` from the first position with no attempt recorded.
    fn va_advance_exec_fresh(&mut self) -> (r: Vec<Action>)
        requires
            plan_wf(*old(self)),
        ensures
            plan_wf(*final(self)),
            final(self).ctx == old(self).ctx,
            (st_view(*final(self)), acts_view(r@)) == va_advance(
                ctx_view(old(self).ctx),
                st_view(*old(self)),
                0,
                Seq::empty(),
            ),
    {
        let ghost s0 = st_view(*self);
        self.attempts = Vec::new();
        assert(attempts_view(self.attempts@) =~= Seq::<(Seq<char>, Seq<char>)>::empty());
        let r = self.va_advance_exec(0);
        r
    }

    /// `franime_advance` from the first position with no attempt recorded.
    fn franime_advance_exec_fresh(&mut self) -> (r: Vec<Action>)
        requires
            plan_wf(*old(self)),
        ensures
            plan_wf(*final(self)),
            final(self).ctx == old(self).ctx,
            (st_view(*final(self)), acts_view(r@)) == franime_advance(
                ctx_view(old(self).ctx),
                st_view(*old(self)),
                0,
                Seq::empty(),
            ),
    {
        self.attempts = Vec::new();
        assert(attempts_view(self.attempts@) =~= Seq::<(Seq<char>, Seq<char>)>::empty());
        self.franime_advance_exec(0)
    }
}

// ---------------------------------------------------------------------------
// Laws
// ---------------------------------------------------------------------------

/// A finished machine stays finished and asks for nothing more.
pub proof fn lemma_done_is_final(c: Ctx, s: St, e: Ev)
    requires
        s.phase == Phase::Done,
    ensures
        plan_step(c, s, e) == (s, Seq::<Act>::empty()),
{
}

/// A step that finishes the machine ends with exactly one final action, the
/// success or the failure report, and no step that keeps it running asks
/// for either.
pub proof fn lemma_final_action(c: Ctx, s: St, e: Ev)
    requires
        s.phase != Phase::Done,
    ensures
        ({
            let (t, acts) = plan_step(c, s, e);
            &&& t.phase == Phase::Done ==> acts.len() > 0 && (acts.last() is Finish || acts.last() is MarkFailed)
            &&& forall|i: int| 0 <= i < acts.len() && (t.phase != Phase::Done || i < acts.len() - 1)
                ==> !(#[trigger] acts[i] is Finish) && !(acts[i] is MarkFailed)
        }),
{
}

/// When Anikuro fails, at its search or at its download, Consumet is tried
/// next if it is on: the step shows the Consumet host and asks for a
/// Consumet search, and the machine waits for it.  Only when Consumet is off
/// does the task fail then, with the failure of the players.
pub proof fn lemma_consumet_after_anikuro(c: Ctx, s: St, m: Seq<char>)
    requires
        s.phase == Phase::AnikuroSearch || s.phase == Phase::AnikuroDownload,
    ensures
        ({
            let (t, acts) = plan_step(c, s, Ev::Failed(m));
            &&& c.consumet_on ==> acts == seq![Act::SetHost("consumet:"@ + c.consumet_provider), Act::TryConsumet]
                && t.phase == Phase::ConsumetSearch && t.summary == s.summary
            &&& !c.consumet_on ==> acts == seq![Act::MarkFailed(s.summary)] && t.phase == Phase::Done
            &&& forall|i: int| 0 <= i < acts.len() && (#[trigger] acts[i] is MarkFailed) ==> !c.consumet_on
        }),
{
}

/// When every player of the catalogue failed, Anikuro is tried first if it
/// is on, else Consumet if it is on; the task fails only when both are off.
pub proof fn lemma_alternatives_after_players(c: Ctx, s: St, e: Ev)
    requires
        s.phase == Phase::FranimeFetch || s.phase == Phase::FranimeDownload,
        e is Failed,
        s.next == c.lecteurs.len(),
    ensures
        ({
            let (t, acts) = plan_step(c, s, e);
            &&& c.anikuro_on ==> acts == seq![Act::SetHost("anikuro:"@ + c.anikuro_provider), Act::TryAnikuro]
                && t.phase == Phase::AnikuroSearch
            &&& !c.anikuro_on && c.consumet_on ==> acts == seq![
                Act::SetHost("consumet:"@ + c.consumet_provider),
                Act::TryConsumet,
            ] && t.phase == Phase::ConsumetSearch
            &&& !c.anikuro_on && !c.consumet_on ==> acts.len() == 1 && acts[0] is MarkFailed && t.phase == Phase::Done
        }),
{
}

/// How much work the machine may still ask for: finished machines none; the
/// alternative sources a few steps each; every player still to try two
/// steps (its address, then its download).
pub open spec fn plan_measure(c: Ctx, s: St) -> int {
    let left = c.lecteurs.len() - s.next;
    match s.phase {
        Phase::Done => 0,
        Phase::ConsumetDownload => 1,
        Phase::VaDownload => 1,
        Phase::UsDownload => 1,
        Phase::ConsumetSearch => 2,
        Phase::VaIframe => 2,
        Phase::UsMedia => 2,
        Phase::AnikuroDownload => 3,
        Phase::AnikuroSearch => 4,
        Phase::VaSources => 1 + left,
        Phase::FranimeDownload => 5 + 2 * left,
        Phase::FranimeFetch => 6 + 2 * left,
        Phase::Start => 7 + 2 * (c.lecteurs.len() as int),
    }
}

proof fn lemma_next_va_range(c: Ctx, k: int)
    requires
        0 <= k,
    ensures
        next_va(c, k) matches Some(j) ==> k <= j < c.lecteurs.len(),
    decreases c.lecteurs.len() - k,
{
    if k < c.lecteurs.len() && !((c.lecteurs[k] as usize) < c.va_sources.len()) {
        lemma_next_va_range(c, k + 1);
    }
}

/// A download never goes round in circles: every outcome either is ignored
/// (nothing changes, nothing is asked) or lowers `plan_measure`, which never
/// goes below zero; so a machine reaches its end after at most
/// `7 + 2 * (players to try)` outcomes that it acts on.
pub proof fn lemma_plan_progress(c: Ctx, s: St, e: Ev)
    requires
        0 <= s.next <= c.lecteurs.len(),
    ensures
        ({
            let (t, acts) = plan_step(c, s, e);
            ||| t == s && acts.len() == 0
            ||| 0 <= plan_measure(c, t) < plan_measure(c, s) && 0 <= t.next <= c.lecteurs.len()
        }),
{
    lemma_next_va_range(c, 0);
    lemma_next_va_range(c, s.next);
}

// ---------------------------------------------------------------------------
// Preparing a download
// ---------------------------------------------------------------------------

/// The name an anime is filed under: its original title, or its title when it has none.
pub open spec fn anime_name_spec(a: Root2) -> Seq<char> {
    if a.title_o@.len() == 0 {
        a.title@
    } else {
        a.title_o@
    }
}

/// What a download needs before it starts: the three directories the file
/// goes in (by language, anime and season), its file name, the label of the
/// task, the names of the episode's players in the language, and the number
/// of the episode over all seasons.
pub struct PreparedDownload {
    pub lang_dir: String,
    pub anime_dir: String,
    pub season_dir: String,
    pub file_name: String,
    pub label: String,
    pub lecteur_names: Vec<String>,
    pub absolute_episode: usize,
}

/// What a download needs before it starts; nothing when the season or the
/// episode does not exist.
pub fn prepare_download(
    anime: &Root2,
    season_idx: usize,
    ep_idx: usize,
    lang: &str,
    naming_format: &str,
) -> (r: Option<PreparedDownload>)
    requires
        season_idx < anime.saisons@.len() ==> episodes_before(anime.saisons@, season_idx as int) + ep_idx + 2
            <= usize::MAX,
    ensures
        r is None <==> !(season_idx < anime.saisons@.len() && ep_idx < anime.saisons@[season_idx as int].episodes@.len()),
        r matches Some(p) ==> {
            let saison = anime.saisons@[season_idx as int];
            let episode = saison.episodes@[ep_idx as int];
            let name = anime_name_spec(*anime);
            &&& p.lang_dir@ == (if lang@ == "vf"@ {
                "download_VF"@
            } else {
                "download_VO"@
            })
            &&& p.anime_dir@ == crate::naming::sanitize_spec(name)
            &&& p.season_dir@ == crate::naming::sanitize_spec(saison.title@)
            &&& p.file_name@ == crate::naming::build_filename_spec(
                naming_format@,
                name,
                season_idx as nat,
                ep_idx as nat,
                episode.title@,
                lang@,
            )
            &&& p.label@ == name + " - S"@ + decimal(season_idx as nat + 1) + "E"@ + decimal(ep_idx as nat + 1)
                + " ("@ + crate::naming::uppercase(lang@) + ")"@
            &&& p.lecteur_names.deep_view() == players_of(episode, lang@).map_values(|n: String| n@)
            &&& p.absolute_episode == episodes_before(anime.saisons@, season_idx as int) + ep_idx + 1
        },
{
    if season_idx >= anime.saisons.len() {
        return None;
    }
    let saison = &anime.saisons[season_idx];
    if ep_idx >= saison.episodes.len() {
        return None;
    }
    let episode = &saison.episodes[ep_idx];
    let name = if anime.title_o.as_str().is_empty() {
        owned(anime.title.as_str())
    } else {
        owned(anime.title_o.as_str())
    };
    let lang_dir = if str_eq(lang, "vf") {
        owned("download_VF")
    } else {
        owned("download_VO")
    };
    let anime_dir = crate::naming::sanitize_path_segment(name.as_str());
    let season_dir = crate::naming::sanitize_path_segment(saison.title.as_str());
    let file_name = crate::naming::build_filename(
        naming_format,
        name.as_str(),
        season_idx,
        ep_idx,
        episode.title.as_str(),
        lang,
    );
    let mut label = owned(name.as_str());
    push_str(&mut label, " - S");
    crate::num::push_decimal(&mut label, season_idx as u64 + 1);
    push_str(&mut label, "E");
    crate::num::push_decimal(&mut label, ep_idx as u64 + 1);
    push_str(&mut label, " (");
    let up = crate::naming::to_uppercase(lang);
    push_str(&mut label, up.as_str());
    push_str(&mut label, ")");
    let names = if str_eq(lang, "vf") {
        &episode.lang.vf.lecteurs
    } else {
        &episode.lang.vo.lecteurs
    };
    let mut lecteur_names: Vec<String> = Vec::new();
    let mut i: usize = 0;
    while i < names.len()
        invariant
            i <= names@.len(),
            lecteur_names@.len() == i,
            lecteur_names.deep_view() == names@.map_values(|n: String| n@).take(i as int),
        decreases names@.len() - i,
    {
        let ghost before = lecteur_names@;
        let n = owned(names[i].as_str());
        lecteur_names.push(n);
        proof {
            crate::text::lemma_deep_view_push(before, lecteur_names@, n);
        }
        assert(lecteur_names.deep_view() =~= names@.map_values(|n: String| n@).take(i + 1));
        i = i + 1;
    }
    assert(names@.map_values(|n: String| n@).take(i as int) =~= names@.map_values(|n: String| n@));
    let absolute_episode = crate::catalog::absolute_episode_number(anime, season_idx, ep_idx);
    Some(PreparedDownload { lang_dir, anime_dir, season_dir, file_name, label, lecteur_names, absolute_episode })
}

/// What becomes of a request for an episode once its file name is known.
#[derive(Clone, Copy, PartialEq, Eq, Structural, Debug)]
pub enum StartDecision {
    /// The file is already there: the download is recorded, no task is made.
    RecordAndSkip,
    /// No player can serve the episode: nothing is done.
    NoPlayers,
    /// One task is queued for the file.
    Enqueue,
}

/// What becomes of a request: an existing file is recorded and skipped when
/// the settings say so; otherwise the episode is queued once when some
/// player can serve it, and left alone when none can.
pub fn start_decision(skip_existing: bool, file_exists: bool, lecteurs: usize) -> (d: StartDecision)
    ensures
        d == (if skip_existing && file_exists {
            StartDecision::RecordAndSkip
        } else if lecteurs == 0 {
            StartDecision::NoPlayers
        } else {
            StartDecision::Enqueue
        }),
{
    if skip_existing && file_exists {
        StartDecision::RecordAndSkip
    } else if lecteurs == 0 {
        StartDecision::NoPlayers
    } else {
        StartDecision::Enqueue
    }
}

/// The context of the machine for an episode, from what is known of it and
/// from the settings: the UniqueStream track is chosen for the language, and
/// each alternative source is on when it is enabled, set to be tried on its
/// own, and (for Consumet) has an address.
pub fn plan_context(
    source: AnimeSource,
    lecteurs: Vec<u64>,
    lecteur_names: Vec<String>,
    va_ep_url: Option<String>,
    va_sources: Vec<VaSource>,
    us_ep_id: Option<String>,
    us_is_movie: bool,
    us_audio_locales: Vec<String>,
    lang: &str,
    settings: &crate::settings::AppSettings,
) -> (c: PlanContext)
    ensures
        c.source == source,
        c.lecteurs == lecteurs,
        c.lecteur_names == lecteur_names,
        c.va_ep_url == va_ep_url,
        c.va_sources == va_sources,
        c.us_ep_id == us_ep_id,
        c.us_is_movie == us_is_movie,
        c.us_locale@ == crate::uniquestream::audio_locale_spec(us_audio_locales.deep_view(), lang@ == "vf"@),
        c.anikuro_on == (settings.anikuro_enabled && settings.anikuro_auto_fallback),
        c.anikuro_provider@ == settings.anikuro_provider@,
        c.consumet_on == (settings.consumet_auto_fallback && settings.consumet_enabled
            && settings.consumet_base_url@.len() > 0),
        c.consumet_provider@ == settings.consumet_provider@,
{
    let prefer_dub = str_eq(lang, "vf");
    let locales = Some(us_audio_locales);
    let us_locale = crate::uniquestream::pick_audio_locale(&locales, prefer_dub);
    PlanContext {
        source,
        lecteurs,
        lecteur_names,
        va_ep_url,
        va_sources,
        us_ep_id,
        us_is_movie,
        us_locale,
        anikuro_on: settings.anikuro_enabled && settings.anikuro_auto_fallback,
        anikuro_provider: owned(settings.anikuro_provider.as_str()),
        consumet_on: settings.consumet_auto_fallback && settings.consumet_enabled
            && !settings.consumet_base_url.as_str().is_empty(),
        consumet_provider: owned(settings.consumet_provider.as_str()),
    }
}

/// Anikuro is asked for a dub when the settings say so or the episode is wanted in French.
pub fn anikuro_prefers_dub(settings: &crate::settings::AppSettings, lang: &str) -> (b: bool)
    ensures
        b == (settings.anikuro_prefer_dub || lang@ == "vf"@),
{
    settings.anikuro_prefer_dub || str_eq(lang, "vf")
}

} // verus!
