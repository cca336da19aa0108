//! yt-dlp as a last resort: the arguments it is called with and how its
//! output is read.
use vstd::prelude::*;
use crate::sidecar::{code_text, push_code};
use crate::text::{chars_of, ends_with, owned, push_str, split_char, starts_with, str_starts_with, trim};

verus! {

/// How long yt-dlp may run, in seconds.
pub const TIMEOUT_SECS: u64 = 30;

/// What can go wrong with yt-dlp.  Failures of the system carry their message.
pub enum YtDlpError {
    NotFound(String),
    NonZero(Option<i32>, String),
    Empty,
    Timeout(u64),
    Io(String),
}

impl YtDlpError {
    /// The message shown for this error.
    pub fn message(&self) -> (r: String)
        ensures
            match self {
                YtDlpError::NotFound(m) => r@ == "yt-dlp introuvable: "@ + m@,
                YtDlpError::NonZero(c, m) => r@ == "yt-dlp a renvoyé code "@ + code_text(*c) + " — "@ + m@,
                YtDlpError::Empty => r@ == "yt-dlp n'a rien retourné"@,
                YtDlpError::Timeout(s) => r@ == "Timeout yt-dlp après "@ + crate::num::decimal(*s as nat) + "s"@,
                YtDlpError::Io(m) => r@ == "I/O: "@ + m@,
            },
    {
        match self {
            YtDlpError::NotFound(m) => {
                let mut r = owned("yt-dlp introuvable: ");
                push_str(&mut r, m.as_str());
                r
            },
            YtDlpError::NonZero(c, m) => {
                let mut r = owned("yt-dlp a renvoyé code ");
                push_code(&mut r, *c);
                push_str(&mut r, " — ");
                push_str(&mut r, m.as_str());
                r
            },
            YtDlpError::Empty => owned("yt-dlp n'a rien retourné"),
            YtDlpError::Timeout(s) => {
                let mut r = owned("Timeout yt-dlp après ");
                crate::num::push_decimal(&mut r, *s);
                push_str(&mut r, "s");
                r
            },
            YtDlpError::Io(m) => {
                let mut r = owned("I/O: ");
                push_str(&mut r, m.as_str());
                r
            },
        }
    }
}

/// The arguments yt-dlp is called with: quiet, printing the address only, no
/// playlist, no certificate check; the referer when there is one; the address.
pub open spec fn ytdlp_args_spec(iframe_url: Seq<char>, referer: Seq<char>) -> Seq<Seq<char>> {
    let head = seq!["--no-warnings"@, "--quiet"@, "--get-url"@, "--no-playlist"@, "--no-check-certificate"@];
    let mid: Seq<Seq<char>> = if referer.len() > 0 {
        seq!["--referer"@, referer]
    } else {
        Seq::empty()
    };
    head + mid + seq![iframe_url]
}

/// The arguments yt-dlp is called with, as `ytdlp_args_spec` lists them.
pub fn ytdlp_args(iframe_url: &str, referer: &str) -> (r: Vec<String>)
    ensures
        r.deep_view() == ytdlp_args_spec(iframe_url@, referer@),
{
    let mut v: Vec<String> = Vec::new();
    v.push(owned("--no-warnings"));
    v.push(owned("--quiet"));
    v.push(owned("--get-url"));
    v.push(owned("--no-playlist"));
    v.push(owned("--no-check-certificate"));
    if !referer.is_empty() {
        v.push(owned("--referer"));
        v.push(owned(referer));
    }
    v.push(owned(iframe_url));
    assert(v.deep_view() =~= ytdlp_args_spec(iframe_url@, referer@));
    v
}

/// The last line of the output that starts with `http`, trimmed; nothing
/// when there is none or it is empty once trimmed.
pub open spec fn last_http_line(lines: Seq<Seq<char>>) -> Option<Seq<char>>
    decreases lines.len(),
{
    if lines.len() == 0 {
        None
    } else if starts_with(lines.last(), "http"@) {
        Some(trim(lines.last()))
    } else {
        last_http_line(lines.drop_last())
    }
}

/// The address yt-dlp printed: the last line of its output that starts with
/// `http`, trimmed; `Empty` when there is none or it is blank.
pub open spec fn url_from_output_spec(stdout: Seq<char>) -> Option<Seq<char>> {
    match last_http_line(split_char(stdout, '\n')) {
        Some(u) => if u.len() > 0 {
            Some(u)
        } else {
            None
        },
        None => None,
    }
}

/// The address yt-dlp printed, as `url_from_output_spec` reads it.
pub fn url_from_output(stdout: &str) -> (r: Result<String, YtDlpError>)
    ensures
        match url_from_output_spec(stdout@) {
            Some(u) => r matches Ok(s) && s@ == u,
            None => r matches Err(YtDlpError::Empty),
        },
{
    let lines = crate::text::split_at_char(stdout, '\n');
    let ghost lv = lines.deep_view();
    let mut k: usize = lines.len();
    assert(lv.take(k as int) =~= lv);
    while k > 0
        invariant
            k <= lines@.len(),
            lv == lines.deep_view(),
            lv == split_char(stdout@, '\n'),
            lv.len() == lines@.len(),
            last_http_line(lv) == last_http_line(lv.take(k as int)),
        decreases k,
    {
        assert(lv.take(k as int).drop_last() =~= lv.take(k - 1));
        assert(lv.take(k as int).last() == lines@[k - 1]@);
        if str_starts_with(lines[k - 1].as_str(), "http") {
            let u = crate::text::trim_str(lines[k - 1].as_str());
            if u.as_str().is_empty() {
                return Err(YtDlpError::Empty);
            }
            return Ok(u);
        }
        k = k - 1;
    }
    Err(YtDlpError::Empty)
}

/// The first line of an output, without the carriage return of its line end
/// (what `lines().next().unwrap_or("")` gives).
pub open spec fn first_line_spec(s: Seq<char>) -> Seq<char> {
    let parts = split_char(s, '\n');
    if parts.len() > 1 && ends_with(parts[0], "\r"@) {
        parts[0].drop_last()
    } else {
        parts[0]
    }
}

/// The first line of an output, as `first_line_spec` reads it.
pub fn first_line(s: &str) -> (r: String)
    ensures
        r@ == first_line_spec(s@),
{
    let parts = crate::text::split_at_char(s, '\n');
    proof {
        crate::text::lemma_split_char_len(s@, '\n');
    }
    assert(parts.deep_view()[0] == parts@[0]@);
    let p = chars_of(parts[0].as_str());
    if parts.len() > 1 && crate::text::str_ends_with(parts[0].as_str(), "\r") {
        proof {
            reveal_strlit("\r");
        }
        let r = crate::text::string_from_range(&p, 0, p.len() - 1);
        assert(p@.subrange(0, p@.len() - 1) =~= p@.drop_last());
        r
    } else {
        owned(parts[0].as_str())
    }
}

/// A failed run of yt-dlp: its exit code and the first line of its error output.
pub fn non_zero(code: Option<i32>, stderr: &str) -> (r: YtDlpError)
    ensures
        r matches YtDlpError::NonZero(c, m) && c == code && m@ == first_line_spec(stderr@),
{
    YtDlpError::NonZero(code, first_line(stderr))
}

} // verus!
