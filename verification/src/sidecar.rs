//! The browser helper that solves Cloudflare challenges: how its output
//! lines are read, how its answers are classified, and what each request
//! makes of an answer.
use vstd::prelude::*;
use crate::applog::LogLevel;
use crate::num::{push_signed_decimal, signed_decimal};
use crate::text::{chars_of, contains, owned, push_str, starts_with, str_contains, str_eq, str_starts_with, string_from_range};

verus! {

/// The prefix of the lines that carry an answer.
pub const RESULT_PREFIX: &'static str = "__FRANIME_RESULT__";

/// What can go wrong with the helper.  Failures of the system carry their message.
pub enum SidecarError {
    PythonNotFound(String, String),
    ScriptNotFound(String),
    ProcessDead(Option<i32>),
    Remote(String),
    BadJson(String),
    Io(String),
    NotStarted,
}

/// How an optional exit code is written (`Some(..)` or `None`).
pub open spec fn code_text(c: Option<i32>) -> Seq<char> {
    match c {
        Some(n) => "Some("@ + signed_decimal(n as int) + ")"@,
        None => "None"@,
    }
}

pub fn push_code(out: &mut String, c: Option<i32>)
    ensures
        final(out)@ == old(out)@ + code_text(c),
{
    match c {
        Some(n) => {
            push_str(out, "Some(");
            push_signed_decimal(out, n as i64);
            push_str(out, ")");
        },
        None => push_str(out, "None"),
    }
}

impl SidecarError {
    /// The message shown for this error.
    pub fn message(&self) -> (r: String)
        ensures
            match self {
                SidecarError::PythonNotFound(p, e) => r@ == "Python introuvable ("@ + p@ + "): "@ + e@,
                SidecarError::ScriptNotFound(p) => r@ == "Script python introuvable: "@ + p@,
                SidecarError::ProcessDead(c) => r@ == "Sidecar process mort (code "@ + code_text(*c) + ")"@,
                SidecarError::Remote(m) => r@ == "Sidecar a renvoyé une erreur: "@ + m@,
                SidecarError::BadJson(m) => r@ == "JSON invalide: "@ + m@,
                SidecarError::Io(m) => r@ == "I/O: "@ + m@,
                SidecarError::NotStarted => r@ == "Sidecar non démarré"@,
            },
    {
        match self {
            SidecarError::PythonNotFound(p, e) => {
                let mut r = owned("Python introuvable (");
                push_str(&mut r, p.as_str());
                push_str(&mut r, "): ");
                push_str(&mut r, e.as_str());
                r
            },
            SidecarError::ScriptNotFound(p) => {
                let mut r = owned("Script python introuvable: ");
                push_str(&mut r, p.as_str());
                r
            },
            SidecarError::ProcessDead(c) => {
                let mut r = owned("Sidecar process mort (code ");
                push_code(&mut r, *c);
                push_str(&mut r, ")");
                r
            },
            SidecarError::Remote(m) => {
                let mut r = owned("Sidecar a renvoyé une erreur: ");
                push_str(&mut r, m.as_str());
                r
            },
            SidecarError::BadJson(m) => {
                let mut r = owned("JSON invalide: ");
                push_str(&mut r, m.as_str());
                r
            },
            SidecarError::Io(m) => {
                let mut r = owned("I/O: ");
                push_str(&mut r, m.as_str());
                r
            },
            SidecarError::NotStarted => owned("Sidecar non démarré"),
        }
    }
}

/// What the helper reports when it is ready: its user agent and its cookies.
pub struct Ready {
    pub user_agent: String,
    pub all_cookies: Vec<(String, String)>,
}

/// One answer of the helper, as it writes it.
pub struct Response {
    pub id: Option<u64>,
    pub iframe_src: Option<String>,
    pub video_url: Option<String>,
    pub error: Option<String>,
    pub cf_clearance: Option<String>,
    pub user_agent: Option<String>,
    pub all_cookies: Option<Vec<(String, String)>>,
    pub msg_type: Option<String>,
    pub pong: Option<bool>,
    pub ok: Option<bool>,
}

/// An answer of the helper, classified.
#[derive(Debug)]
pub enum SidecarReply {
    IframeSrc(String),
    VideoUrl(String),
    Refreshed { user_agent: String, cookies: Vec<(String, String)> },
    Ack,
    Error(String),
}

/// Counters of the helper's work.
#[derive(Clone, Copy)]
pub struct SidecarMetrics {
    pub started_at: i64,
    pub cf_solves: u64,
    pub fetch_ok: u64,
    pub fetch_err: u64,
    pub refresh_calls: u64,
    pub is_alive: bool,
}

/// What a line of the helper's output is: the text of an answer after the
/// prefix, or nothing for a line to be logged.
pub open spec fn payload_spec(line: Seq<char>) -> Option<Seq<char>> {
    if starts_with(line, RESULT_PREFIX@) {
        Some(line.skip(RESULT_PREFIX@.len() as int))
    } else {
        None
    }
}

/// What a line of the helper's output is, as `payload_spec` reads it.
pub fn result_payload(line: &str) -> (r: Option<String>)
    ensures
        r.deep_view() == payload_spec(line@),
{
    if str_starts_with(line, RESULT_PREFIX) {
        let v = chars_of(line);
        let p = chars_of(RESULT_PREFIX);
        let r = string_from_range(&v, p.len(), v.len());
        assert(v@.subrange(p@.len() as int, v@.len() as int) =~= v@.skip(RESULT_PREFIX@.len() as int));
        Some(r)
    } else {
        None
    }
}

/// The level of a line the helper writes on its error output: an error when
/// it mentions one, a warning when it mentions one, else information.
pub open spec fn stderr_level_spec(line: Seq<char>) -> LogLevel {
    if contains(line, "error"@) || contains(line, "Error"@) || contains(line, "Traceback"@) || contains(
        line,
        "Exception"@,
    ) {
        LogLevel::Error
    } else if contains(line, "warn"@) || contains(line, "Warning"@) || contains(line, "skipped"@)
        || contains(line, "failed"@) {
        LogLevel::Warn
    } else {
        LogLevel::Info
    }
}

/// The level of a line of the helper's error output, as `stderr_level_spec` gives it.
pub fn stderr_level(line: &str) -> (r: LogLevel)
    ensures
        r == stderr_level_spec(line@),
{
    if str_contains(line, "error") || str_contains(line, "Error") || str_contains(line, "Traceback")
        || str_contains(line, "Exception") {
        LogLevel::Error
    } else if str_contains(line, "warn") || str_contains(line, "Warning") || str_contains(line, "skipped")
        || str_contains(line, "failed") {
        LogLevel::Warn
    } else {
        LogLevel::Info
    }
}

/// The answer announces that the helper is ready.
pub fn is_ready_message(resp: &Response) -> (b: bool)
    ensures
        b == (resp.msg_type matches Some(t) && t@ == "ready"@),
{
    match &resp.msg_type {
        Some(t) => str_eq(t.as_str(), "ready"),
        None => false,
    }
}

fn copy_pairs(v: &Vec<(String, String)>) -> (r: Vec<(String, String)>)
    ensures
        r@.len() == v@.len(),
        forall|i: int| 0 <= i < v@.len() ==> (#[trigger] r@[i]).0@ == v@[i].0@ && r@[i].1@ == v@[i].1@,
{
    let mut out: Vec<(String, String)> = Vec::new();
    let mut i: usize = 0;
    while i < v.len()
        invariant
            i <= v@.len(),
            out@.len() == i,
            forall|j: int| 0 <= j < i ==> (#[trigger] out@[j]).0@ == v@[j].0@ && out@[j].1@ == v@[j].1@,
        decreases v@.len() - i,
    {
        out.push((owned(v[i].0.as_str()), owned(v[i].1.as_str())));
        i = i + 1;
    }
    out
}

fn cookies_or_none(c: &Option<Vec<(String, String)>>) -> (r: Vec<(String, String)>)
    ensures
        match c {
            Some(v) => r@.len() == v@.len() && forall|i: int|
                0 <= i < v@.len() ==> (#[trigger] r@[i]).0@ == v@[i].0@ && r@[i].1@ == v@[i].1@,
            None => r@.len() == 0,
        },
{
    match c {
        Some(v) => copy_pairs(v),
        None => Vec::new(),
    }
}

fn text_or_empty(o: &Option<String>) -> (r: String)
    ensures
        r@ == match o {
            Some(s) => s@,
            None => Seq::empty(),
        },
{
    match o {
        Some(s) => owned(s.as_str()),
        None => String::new(),
    }
}

/// What a ready message reports: its user agent and cookies, empty when absent.
pub fn ready_of(resp: &Response) -> (r: Ready)
    ensures
        r.user_agent@ == match resp.user_agent {
            Some(s) => s@,
            None => Seq::empty(),
        },
        match resp.all_cookies {
            Some(v) => r.all_cookies@.len() == v@.len() && forall|i: int|
                0 <= i < v@.len() ==> (#[trigger] r.all_cookies@[i]).0@ == v@[i].0@ && r.all_cookies@[i].1@ == v@[i].1@,
            None => r.all_cookies@.len() == 0,
        },
{
    Ready { user_agent: text_or_empty(&resp.user_agent), all_cookies: cookies_or_none(&resp.all_cookies) }
}

/// The class of an answer: an error when it reports one, else the frame it
/// found, else the video it captured, else new cookies when it carries a
/// clearance, else a plain acknowledgement.
pub open spec fn reply_kind(resp: Response) -> u8 {
    if resp.error is Some {
        0
    } else if resp.iframe_src is Some {
        1
    } else if resp.video_url is Some {
        2
    } else if resp.cf_clearance is Some {
        3
    } else {
        4
    }
}

/// An answer classified, as `reply_kind` orders the cases, with the text of its case.
pub fn reply_of(resp: Response) -> (r: SidecarReply)
    ensures
        match reply_kind(resp) {
            0 => r matches SidecarReply::Error(e) && resp.error matches Some(x) && e@ == x@,
            1 => r matches SidecarReply::IframeSrc(s) && resp.iframe_src matches Some(x) && s@ == x@,
            2 => r matches SidecarReply::VideoUrl(s) && resp.video_url matches Some(x) && s@ == x@,
            3 => r matches SidecarReply::Refreshed { user_agent, cookies } && user_agent@ == (match resp.user_agent {
                Some(s) => s@,
                None => Seq::<char>::empty(),
            }) && match resp.all_cookies {
                Some(v) => cookies@.len() == v@.len() && forall|i: int|
                    0 <= i < v@.len() ==> (#[trigger] cookies@[i]).0@ == v@[i].0@ && cookies@[i].1@ == v@[i].1@,
                None => cookies@.len() == 0,
            },
            _ => r is Ack,
        },
{
    match resp.error {
        Some(e) => SidecarReply::Error(e),
        None => match resp.iframe_src {
            Some(s) => SidecarReply::IframeSrc(s),
            None => match resp.video_url {
                Some(v) => SidecarReply::VideoUrl(v),
                None => if resp.cf_clearance.is_some() {
                    let ua = text_or_empty(&resp.user_agent);
                    let cookies = cookies_or_none(&resp.all_cookies);
                    SidecarReply::Refreshed { user_agent: ua, cookies }
                } else {
                    SidecarReply::Ack
                },
            },
        },
    }
}

/// What a request makes of the answer it got.
pub enum RequestOutcome {
    /// The address asked for.
    Found(String),
    /// A failure, with its message.
    Failed(String),
    /// An answer of another kind than the one expected.
    Unexpected,
}

/// What a request for a page's frame makes of an answer: the frame when it
/// is not empty; a failure for an empty frame or a reported error; anything else unexpected.
pub fn iframe_outcome(reply: SidecarReply) -> (r: RequestOutcome)
    ensures
        match reply {
            SidecarReply::IframeSrc(s) => if s@.len() > 0 {
                r matches RequestOutcome::Found(f) && f@ == s@
            } else {
                r matches RequestOutcome::Failed(m) && m@ == "iframe src vide"@
            },
            SidecarReply::Error(e) => r matches RequestOutcome::Failed(m) && m@ == e@,
            _ => r is Unexpected,
        },
{
    match reply {
        SidecarReply::IframeSrc(s) => if s.as_str().is_empty() {
            RequestOutcome::Failed(owned("iframe src vide"))
        } else {
            RequestOutcome::Found(s)
        },
        SidecarReply::Error(e) => RequestOutcome::Failed(e),
        _ => RequestOutcome::Unexpected,
    }
}

/// What a request for a video's address makes of an answer: the address
/// when it is not empty; a failure for an empty address or a reported
/// error; anything else unexpected.
pub fn video_outcome(reply: SidecarReply) -> (r: RequestOutcome)
    ensures
        match reply {
            SidecarReply::VideoUrl(s) => if s@.len() > 0 {
                r matches RequestOutcome::Found(f) && f@ == s@
            } else {
                r matches RequestOutcome::Failed(m) && m@ == "video url vide"@
            },
            SidecarReply::Error(e) => r matches RequestOutcome::Failed(m) && m@ == e@,
            _ => r is Unexpected,
        },
{
    match reply {
        SidecarReply::VideoUrl(s) => if s.as_str().is_empty() {
            RequestOutcome::Failed(owned("video url vide"))
        } else {
            RequestOutcome::Found(s)
        },
        SidecarReply::Error(e) => RequestOutcome::Failed(e),
        _ => RequestOutcome::Unexpected,
    }
}

/// What a request for new cookies makes of an answer.
pub enum RefreshOutcome {
    Refreshed(Ready),
    Failed(String),
    Unexpected,
}

/// What a request for new cookies makes of an answer: the new cookies, the
/// reported error, or an unexpected answer.
pub fn refresh_outcome(reply: SidecarReply) -> (r: RefreshOutcome)
    ensures
        match reply {
            SidecarReply::Refreshed { user_agent, cookies } => r matches RefreshOutcome::Refreshed(ready)
                && ready.user_agent == user_agent && ready.all_cookies == cookies,
            SidecarReply::Error(e) => r matches RefreshOutcome::Failed(m) && m == e,
            _ => r is Unexpected,
        },
{
    match reply {
        SidecarReply::Refreshed { user_agent, cookies } => RefreshOutcome::Refreshed(
            Ready { user_agent, all_cookies: cookies },
        ),
        SidecarReply::Error(e) => RefreshOutcome::Failed(e),
        _ => RefreshOutcome::Unexpected,
    }
}

/// How long the helper has been running, as the settings window shows it:
/// the time since it started when it is alive and its start is known (none
/// when the clock reads earlier), a dash otherwise.
pub fn uptime_text(is_alive: bool, started_at: i64, now: i64) -> (r: String)
    requires
        is_alive && started_at > 0 ==> i64::MIN <= now - started_at,
    ensures
        r@ == (if is_alive && started_at > 0 {
            crate::naming::format_eta_spec(if now - started_at > 0 { (now - started_at) as nat } else { 0 })
        } else {
            "—"@
        }),
{
    if is_alive && started_at > 0 {
        let d = now - started_at;
        let s: u64 = if d > 0 { d as u64 } else { 0 };
        crate::naming::format_eta(s)
    } else {
        owned("—")
    }
}

/// What a request for a frame or a video comes to, with the answer or the
/// error of the exchange.
pub enum FetchSettled {
    /// The address asked for.
    Found(String),
    /// The failure to report.
    Failed(SidecarError),
    /// An answer of another kind; it is reported with its description.
    Unexpected(SidecarReply),
}

/// The counters after one request for a frame or a video: one success more
/// when `ok`, one failure more otherwise; the rest unchanged.
pub open spec fn fetch_counted(before: SidecarMetrics, after: SidecarMetrics, ok: bool) -> bool {
    &&& ok ==> after.fetch_ok == before.fetch_ok.wrapping_add(1) && after.fetch_err == before.fetch_err
    &&& !ok ==> after.fetch_err == before.fetch_err.wrapping_add(1) && after.fetch_ok == before.fetch_ok
    &&& after.cf_solves == before.cf_solves
    &&& after.refresh_calls == before.refresh_calls
    &&& after.started_at == before.started_at
    &&& after.is_alive == before.is_alive
}

/// A request for the frame of a page, settled: a frame that is not empty is
/// found and counts as a success; an empty frame, a reported error, an answer
/// of another kind, and a failed exchange each count as a failure.
pub fn settle_iframe_fetch(metrics: &mut SidecarMetrics, reply: Result<SidecarReply, SidecarError>) -> (s: FetchSettled)
    ensures
        match reply {
            Ok(SidecarReply::IframeSrc(x)) => if x@.len() > 0 {
                s == FetchSettled::Found(x) && fetch_counted(*old(metrics), *final(metrics), true)
            } else {
                (s matches FetchSettled::Failed(SidecarError::Remote(m)) && m@ == "iframe src vide"@)
                    && fetch_counted(*old(metrics), *final(metrics), false)
            },
            Ok(SidecarReply::Error(e)) => s == FetchSettled::Failed(SidecarError::Remote(e)) && fetch_counted(
                *old(metrics),
                *final(metrics),
                false,
            ),
            Ok(other) => s == FetchSettled::Unexpected(other) && fetch_counted(*old(metrics), *final(metrics), false),
            Err(e) => s == FetchSettled::Failed(e) && fetch_counted(*old(metrics), *final(metrics), false),
        },
{
    match reply {
        Ok(SidecarReply::IframeSrc(x)) => if x.as_str().is_empty() {
            metrics.record_fetch(false);
            FetchSettled::Failed(SidecarError::Remote(owned("iframe src vide")))
        } else {
            metrics.record_fetch(true);
            FetchSettled::Found(x)
        },
        Ok(SidecarReply::Error(e)) => {
            metrics.record_fetch(false);
            FetchSettled::Failed(SidecarError::Remote(e))
        },
        Ok(other) => {
            metrics.record_fetch(false);
            FetchSettled::Unexpected(other)
        },
        Err(e) => {
            metrics.record_fetch(false);
            FetchSettled::Failed(e)
        },
    }
}

/// A request for the address of a video, settled as for a frame, with
/// `video url vide` for an empty address.
pub fn settle_video_fetch(metrics: &mut SidecarMetrics, reply: Result<SidecarReply, SidecarError>) -> (s: FetchSettled)
    ensures
        match reply {
            Ok(SidecarReply::VideoUrl(x)) => if x@.len() > 0 {
                s == FetchSettled::Found(x) && fetch_counted(*old(metrics), *final(metrics), true)
            } else {
                (s matches FetchSettled::Failed(SidecarError::Remote(m)) && m@ == "video url vide"@)
                    && fetch_counted(*old(metrics), *final(metrics), false)
            },
            Ok(SidecarReply::Error(e)) => s == FetchSettled::Failed(SidecarError::Remote(e)) && fetch_counted(
                *old(metrics),
                *final(metrics),
                false,
            ),
            Ok(other) => s == FetchSettled::Unexpected(other) && fetch_counted(*old(metrics), *final(metrics), false),
            Err(e) => s == FetchSettled::Failed(e) && fetch_counted(*old(metrics), *final(metrics), false),
        },
{
    match reply {
        Ok(SidecarReply::VideoUrl(x)) => if x.as_str().is_empty() {
            metrics.record_fetch(false);
            FetchSettled::Failed(SidecarError::Remote(owned("video url vide")))
        } else {
            metrics.record_fetch(true);
            FetchSettled::Found(x)
        },
        Ok(SidecarReply::Error(e)) => {
            metrics.record_fetch(false);
            FetchSettled::Failed(SidecarError::Remote(e))
        },
        Ok(other) => {
            metrics.record_fetch(false);
            FetchSettled::Unexpected(other)
        },
        Err(e) => {
            metrics.record_fetch(false);
            FetchSettled::Failed(e)
        },
    }
}

impl SidecarMetrics {
    /// No work done yet.
    pub fn new() -> (m: Self)
        ensures
            m.started_at == 0 && m.cf_solves == 0 && m.fetch_ok == 0 && m.fetch_err == 0 && m.refresh_calls == 0
                && !m.is_alive,
    {
        SidecarMetrics { started_at: 0, cf_solves: 0, fetch_ok: 0, fetch_err: 0, refresh_calls: 0, is_alive: false }
    }

    /// Counts the outcome of a request for a frame or a video: a success or a failure.
    pub fn record_fetch(&mut self, ok: bool)
        ensures
            ok ==> final(self).fetch_ok == old(self).fetch_ok.wrapping_add(1) && final(self).fetch_err == old(self).fetch_err,
            !ok ==> final(self).fetch_err == old(self).fetch_err.wrapping_add(1) && final(self).fetch_ok == old(self).fetch_ok,
            final(self).cf_solves == old(self).cf_solves,
            final(self).refresh_calls == old(self).refresh_calls,
            final(self).started_at == old(self).started_at,
            final(self).is_alive == old(self).is_alive,
    {
        if ok {
            self.fetch_ok = self.fetch_ok.wrapping_add(1);
        } else {
            self.fetch_err = self.fetch_err.wrapping_add(1);
        }
    }
}

} // verus!
