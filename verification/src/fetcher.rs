//! The franime video-address API: the address asked, the headers sent, and
//! how a reply is turned into text (status check, zstd, UTF-8).
use vstd::prelude::*;
use crate::num::{decimal, push_decimal};
use crate::settings::{eq_ignore_ascii_case, str_eq_ignore_ascii_case};
use crate::text::{owned, push_str};

verus! {

/// What can go wrong while fetching a video address.  Failures of the
/// network, of the decoder and of the task runner carry their message.
pub enum FetchError {
    Http(String),
    Status(u16),
    Decompress(String),
    Utf8(String),
    Join(String),
}

/// The reason phrase that the HTTP status registry gives a status code.
pub uninterp spec fn status_reason(code: u16) -> Option<Seq<char>>;

/// The canonical reason phrase of a status code (`http::StatusCode::canonical_reason`),
/// `None` where the code has none or is out of range.
#[verifier::external_body]
fn canonical_reason(code: u16) -> (r: Option<String>)
    ensures
        r.deep_view() == status_reason(code),
{
    match reqwest::StatusCode::from_u16(code) {
        Ok(s) => s.canonical_reason().map(|p| p.to_string()),
        Err(_) => None,
    }
}

/// How a status code is printed: the number, then its reason phrase.
pub open spec fn status_text(code: u16) -> Seq<char> {
    decimal(code as nat) + " "@ + match status_reason(code) {
        Some(p) => p,
        None => "<unknown status code>"@,
    }
}

/// How a status code is printed, as `status_text` says.
pub(crate) fn push_status_text(out: &mut String, code: u16)
    ensures
        final(out)@ == old(out)@ + status_text(code),
{
    push_decimal(out, code as u64);
    push_str(out, " ");
    match canonical_reason(code) {
        Some(p) => push_str(out, p.as_str()),
        None => push_str(out, "<unknown status code>"),
    }
}

impl FetchError {
    /// The message shown for this error.
    pub fn message(&self) -> (r: String)
        ensures
            match self {
                FetchError::Http(m) => r@ == "HTTP error: "@ + m@,
                FetchError::Status(c) => r@ == "Server returned status "@ + status_text(*c),
                FetchError::Decompress(m) => r@ == "Decompression error: "@ + m@,
                FetchError::Utf8(m) => r@ == "Invalid UTF-8 in response: "@ + m@,
                FetchError::Join(m) => r@ == "Task join error: "@ + m@,
            },
    {
        match self {
            FetchError::Http(m) => {
                let mut r = owned("HTTP error: ");
                push_str(&mut r, m.as_str());
                r
            },
            FetchError::Status(c) => {
                let mut r = owned("Server returned status ");
                push_status_text(&mut r, *c);
                r
            },
            FetchError::Decompress(m) => {
                let mut r = owned("Decompression error: ");
                push_str(&mut r, m.as_str());
                r
            },
            FetchError::Utf8(m) => {
                let mut r = owned("Invalid UTF-8 in response: ");
                push_str(&mut r, m.as_str());
                r
            },
            FetchError::Join(m) => {
                let mut r = owned("Task join error: ");
                push_str(&mut r, m.as_str());
                r
            },
        }
    }
}

/// The API address of one player of one episode.
pub open spec fn api_url_spec(anime_id: u64, season: u64, episode: u64, lang: Seq<char>, lecteur: u64) -> Seq<char> {
    "https://api.franime.fr/api/anime/"@ + decimal(anime_id as nat) + "/"@ + decimal(season as nat) + "/"@
        + decimal(episode as nat) + "/"@ + lang + "/"@ + decimal(lecteur as nat)
}

/// The API address of one player of one episode.
pub fn api_url(anime_id: u64, season: u64, episode: u64, lang: &str, lecteur: u64) -> (r: String)
    ensures
        r@ == api_url_spec(anime_id, season, episode, lang@, lecteur),
{
    let mut r = owned("https://api.franime.fr/api/anime/");
    push_decimal(&mut r, anime_id);
    push_str(&mut r, "/");
    push_decimal(&mut r, season);
    push_str(&mut r, "/");
    push_decimal(&mut r, episode);
    push_str(&mut r, "/");
    push_str(&mut r, lang);
    push_str(&mut r, "/");
    push_decimal(&mut r, lecteur);
    r
}

/// The headers sent with an API request, name then value, in order.
pub open spec fn api_headers_spec() -> Seq<(Seq<char>, Seq<char>)> {
    seq![
        ("Accept"@, "*/*"@),
        ("Accept-Encoding"@, "zstd"@),
        ("Accept-Language"@, "en-US,en;q=0.9"@),
        ("Content-Type"@, "application/json"@),
        ("Origin"@, "https://franime.fr"@),
        ("Priority"@, "u=3, i"@),
        ("Referer"@, "https://franime.fr/"@),
        ("Sec-Fetch-Dest"@, "empty"@),
        ("Sec-Fetch-Mode"@, "cors"@),
        ("Sec-Fetch-Site"@, "same-site"@),
        ("User-Agent"@, "Mozilla/5.0 (Macintosh; Intel Mac OS X 10_15_7) AppleWebKit/537.36 (KHTML, like Gecko) Chrome/131.0.0.0 Safari/537.36"@),
    ]
}

fn push_header(v: &mut Vec<(String, String)>, name: &str, value: &str)
    ensures
        final(v).deep_view() == old(v).deep_view().push((name@, value@)),
{
    let ghost before = v@;
    v.push((owned(name), owned(value)));
    proof {
        assert(v.deep_view() =~= old(v).deep_view().push((name@, value@))) by {
            assert forall|i: int| 0 <= i < v@.len() implies #[trigger] v.deep_view()[i] == old(v).deep_view().push((name@, value@))[i] by {
                if i < before.len() {
                    assert(v@[i] == before[i]);
                }
            }
        }
    }
}

/// The headers sent with an API request, as `api_headers_spec` lists them.
pub fn api_headers() -> (r: Vec<(String, String)>)
    ensures
        r.deep_view() == api_headers_spec(),
{
    let mut v: Vec<(String, String)> = Vec::new();
    push_header(&mut v, "Accept", "*/*");
    push_header(&mut v, "Accept-Encoding", "zstd");
    push_header(&mut v, "Accept-Language", "en-US,en;q=0.9");
    push_header(&mut v, "Content-Type", "application/json");
    push_header(&mut v, "Origin", "https://franime.fr");
    push_header(&mut v, "Priority", "u=3, i");
    push_header(&mut v, "Referer", "https://franime.fr/");
    push_header(&mut v, "Sec-Fetch-Dest", "empty");
    push_header(&mut v, "Sec-Fetch-Mode", "cors");
    push_header(&mut v, "Sec-Fetch-Site", "same-site");
    push_header(
        &mut v,
        "User-Agent",
        "Mozilla/5.0 (Macintosh; Intel Mac OS X 10_15_7) AppleWebKit/537.36 (KHTML, like Gecko) Chrome/131.0.0.0 Safari/537.36",
    );
    assert(v.deep_view() =~= api_headers_spec());
    v
}

/// A status code in the success class (200 to 299).
pub open spec fn is_success(code: u16) -> bool {
    200 <= code <= 299
}

/// The body is zstd-compressed: the `Content-Encoding` header reads `zstd`,
/// in any case of its letters.
pub open spec fn is_zstd_spec(encoding: Option<Seq<char>>) -> bool {
    match encoding {
        Some(e) => eq_ignore_ascii_case(e, "zstd"@),
        None => false,
    }
}

/// Whether the `Content-Encoding` header says zstd.
pub fn is_zstd(encoding: Option<&str>) -> (b: bool)
    ensures
        b == is_zstd_spec(match encoding { Some(e) => Some(e@), None => None }),
{
    match encoding {
        Some(e) => str_eq_ignore_ascii_case(e, "zstd"),
        None => false,
    }
}

/// What the zstd stream decoder makes of `data`: the decompressed bytes, or
/// `None` where the data is not a valid zstd stream.
pub uninterp spec fn zstd_decoded(data: Seq<u8>) -> Option<Seq<u8>>;

/// Decompresses a zstd stream (`zstd::Decoder` read to its end).
#[verifier::external_body]
fn zstd_decode(data: &Vec<u8>) -> (r: Result<Vec<u8>, String>)
    ensures
        match r {
            Ok(v) => zstd_decoded(data@) == Some(v@),
            Err(_) => zstd_decoded(data@) is None,
        },
{
    let mut decoder = match zstd::Decoder::new(&data[..]) {
        Ok(d) => d,
        Err(e) => return Err(e.to_string()),
    };
    let mut out: Vec<u8> = Vec::new();
    match std::io::Read::read_to_end(&mut decoder, &mut out) {
        Ok(_) => Ok(out),
        Err(e) => Err(e.to_string()),
    }
}

/// Reads bytes as UTF-8 text (`String::from_utf8`): the text they encode,
/// or an error where they are not valid UTF-8.
#[verifier::external_body]
fn text_from_utf8(bytes: Vec<u8>) -> (r: Result<String, String>)
    ensures
        match r {
            Ok(s) => vstd::utf8::valid_utf8(bytes@) && s@ == vstd::utf8::decode_utf8(bytes@),
            Err(_) => !vstd::utf8::valid_utf8(bytes@),
        },
{
    match String::from_utf8(bytes) {
        Ok(s) => Ok(s),
        Err(e) => Err(e.to_string()),
    }
}

/// How a reply ends: its text, or which step refused it.
pub enum ReplyOutcome {
    Text(Seq<char>),
    BadStatus(u16),
    BadCompression,
    BadUtf8,
}

/// The text of bytes, or the refusal where they are not UTF-8.
pub open spec fn utf8_outcome(bytes: Seq<u8>) -> ReplyOutcome {
    if vstd::utf8::valid_utf8(bytes) {
        ReplyOutcome::Text(vstd::utf8::decode_utf8(bytes))
    } else {
        ReplyOutcome::BadUtf8
    }
}

/// A reply with status `status`, content encoding `encoding` and body `body`:
/// refused unless the status is a success; decompressed when zstd; read as
/// UTF-8.
pub open spec fn reply_outcome(status: u16, encoding: Option<Seq<char>>, body: Seq<u8>) -> ReplyOutcome {
    if !is_success(status) {
        ReplyOutcome::BadStatus(status)
    } else if is_zstd_spec(encoding) {
        match zstd_decoded(body) {
            Some(d) => utf8_outcome(d),
            None => ReplyOutcome::BadCompression,
        }
    } else {
        utf8_outcome(body)
    }
}

/// Whether a result is the outcome `o`.
pub open spec fn result_is(r: Result<String, FetchError>, o: ReplyOutcome) -> bool {
    match o {
        ReplyOutcome::Text(t) => r matches Ok(s) && s@ == t,
        ReplyOutcome::BadStatus(c) => r matches Err(FetchError::Status(c2)) && c2 == c,
        ReplyOutcome::BadCompression => r matches Err(FetchError::Decompress(_)),
        ReplyOutcome::BadUtf8 => r matches Err(FetchError::Utf8(_)),
    }
}

/// The text of an API reply, given its status code, its `Content-Encoding`
/// header and its body.
pub fn reply_text(status: u16, encoding: Option<&str>, body: Vec<u8>) -> (r: Result<String, FetchError>)
    ensures
        result_is(r, reply_outcome(status, match encoding { Some(e) => Some(e@), None => None }, body@)),
{
    if !(200 <= status && status <= 299) {
        return Err(FetchError::Status(status));
    }
    let bytes = if is_zstd(encoding) {
        match zstd_decode(&body) {
            Ok(d) => d,
            Err(m) => return Err(FetchError::Decompress(m)),
        }
    } else {
        body
    };
    match text_from_utf8(bytes) {
        Ok(s) => Ok(s),
        Err(m) => Err(FetchError::Utf8(m)),
    }
}

} // verus!
