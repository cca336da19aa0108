//! HLS streams: recognising a playlist address, resolving the addresses a
//! master playlist lists, reading its variants and the headers a host wants.
use vstd::prelude::*;
use crate::num::{parse_u64, parse_u64_str};
use crate::text::{
    chars_of, contains, ends_with, find, index_of_from, last_index_before, lowercase, owned,
    push_range, push_str, split_char, split_at_char, starts_with, str_contains, str_ends_with,
    str_starts_with, string_from_range, to_lowercase, trim, trim_bounds, trim_char, trim_char_str,
    trim_str,
};

verus! {

// ---------------------------------------------------------------------------
// Playlist addresses
// ---------------------------------------------------------------------------

/// `s` up to its first `?` (all of it when it has none).
pub open spec fn before_query(s: Seq<char>) -> Seq<char> {
    split_char(s, '?')[0]
}

/// The address, in lower case and without its query, ends like a playlist.
pub open spec fn is_hls_spec(url: Seq<char>) -> bool {
    let path = before_query(lowercase(url));
    ends_with(path, ".m3u8"@) || ends_with(path, ".m3u"@)
}

/// The address names an HLS playlist.
pub fn is_hls_url(url: &str) -> (b: bool)
    ensures
        b == is_hls_spec(url@),
{
    let lower = to_lowercase(url);
    let pieces = split_at_char(lower.as_str(), '?');
    proof {
        crate::text::lemma_split_char_len(lower@, '?');
    }
    assert(pieces.deep_view()[0] == pieces@[0]@);
    let path = pieces[0].as_str();
    str_ends_with(path, ".m3u8") || str_ends_with(path, ".m3u")
}

/// An address of a playlist resolved against the address of the playlist
/// that lists it: absolute addresses are kept; one starting with `/` goes
/// after the scheme and host of the base; another replaces the last segment
/// of the base; when the base has no scheme and host it is kept as it is.
pub open spec fn join_url_spec(base: Seq<char>, rel: Seq<char>) -> Seq<char> {
    if starts_with(rel, "http://"@) || starts_with(rel, "https://"@) {
        rel
    } else {
        match find(base, "://"@) {
            Some(se) => match index_of_from(base, '/', se + 3) {
                Some(he) => if starts_with(rel, "/"@) {
                    base.take(he) + rel
                } else {
                    let de = match last_index_before(base, '/', base.len() as int) {
                        Some(d) => d,
                        None => base.len() as int,
                    };
                    base.take(de) + "/"@ + rel
                },
                None => rel,
            },
            None => rel,
        }
    }
}

/// An address starting with `/` is resolved after the scheme and host of the
/// base and keeps nothing of the base's path: for a base `scheme://host/path`
/// (the scheme without `:`, the host without `/`), the result is
/// `scheme://host` followed by the address.
pub proof fn lemma_join_rooted(sch: Seq<char>, host: Seq<char>, path: Seq<char>, rel: Seq<char>)
    requires
        forall|k: int| 0 <= k < sch.len() ==> sch[k] != ':',
        forall|k: int| 0 <= k < host.len() ==> host[k] != '/',
        path.len() > 0,
        path[0] == '/',
        rel.len() > 0,
        rel[0] == '/',
    ensures
        join_url_spec(sch + "://"@ + host + path, rel) == sch + "://"@ + host + rel,
{
    reveal_strlit("://");
    reveal_strlit("/");
    reveal_strlit("http://");
    reveal_strlit("https://");
    let base = sch + "://"@ + host + path;
    let se = sch.len() as int;
    let he = se + 3 + host.len();
    assert(!starts_with(rel, "http://"@)) by {
        if starts_with(rel, "http://"@) {
            assert(rel.subrange(0, 7)[0] == rel[0]);
        }
    }
    assert(!starts_with(rel, "https://"@)) by {
        if starts_with(rel, "https://"@) {
            assert(rel.subrange(0, 8)[0] == rel[0]);
        }
    }
    assert(starts_with(rel, "/"@)) by {
        assert(rel.subrange(0, 1) =~= "/"@);
    }
    assert(base.subrange(se, se + 3) =~= "://"@);
    assert(crate::text::matches_at(base, "://"@, se));
    crate::text::lemma_find_from(base, "://"@, 0);
    assert forall|k: int| 0 <= k < se implies !crate::text::matches_at(base, "://"@, k) by {
        if crate::text::matches_at(base, "://"@, k) {
            assert(base.subrange(k, k + 3)[0] == base[k]);
            assert(base[k] == sch[k]);
        }
    }
    assert(find(base, "://"@) == Some(se));
    crate::text::lemma_index_of_from(base, '/', se + 3);
    assert(base[he] == '/') by {
        assert(base[he] == path[0]);
    }
    assert forall|k: int| se + 3 <= k < he implies base[k] != '/' by {
        assert(base[k] == host[k - se - 3]);
    }
    assert(index_of_from(base, '/', se + 3) == Some(he));
    assert(base.take(he) =~= sch + "://"@ + host);
}

/// An address that is neither absolute nor starting with `/` replaces the
/// last segment of the base: for a base `scheme://host/dir/last` (the scheme
/// without `:`, the host without `/`, `dir` starting with `/`, `last`
/// without `/`), the result is `scheme://host/dir/` followed by the address.
pub proof fn lemma_join_relative(
    sch: Seq<char>,
    host: Seq<char>,
    dir: Seq<char>,
    last: Seq<char>,
    rel: Seq<char>,
)
    requires
        forall|k: int| 0 <= k < sch.len() ==> sch[k] != ':',
        forall|k: int| 0 <= k < host.len() ==> host[k] != '/',
        dir.len() > 0,
        dir[0] == '/',
        forall|k: int| 0 <= k < last.len() ==> last[k] != '/',
        !starts_with(rel, "http://"@),
        !starts_with(rel, "https://"@),
        rel.len() == 0 || rel[0] != '/',
    ensures
        join_url_spec(sch + "://"@ + host + dir + "/"@ + last, rel) == sch + "://"@ + host + dir + "/"@ + rel,
{
    reveal_strlit("://");
    reveal_strlit("/");
    let base = sch + "://"@ + host + dir + "/"@ + last;
    let se = sch.len() as int;
    let he = se + 3 + host.len();
    let de = he + dir.len();
    assert(!starts_with(rel, "/"@)) by {
        if starts_with(rel, "/"@) {
            assert(rel.subrange(0, 1)[0] == rel[0]);
        }
    }
    assert(base.subrange(se, se + 3) =~= "://"@);
    assert(crate::text::matches_at(base, "://"@, se));
    crate::text::lemma_find_from(base, "://"@, 0);
    assert forall|k: int| 0 <= k < se implies !crate::text::matches_at(base, "://"@, k) by {
        if crate::text::matches_at(base, "://"@, k) {
            assert(base.subrange(k, k + 3)[0] == base[k]);
            assert(base[k] == sch[k]);
        }
    }
    assert(find(base, "://"@) == Some(se));
    crate::text::lemma_index_of_from(base, '/', se + 3);
    assert(base[he] == dir[0]);
    assert forall|k: int| se + 3 <= k < he implies base[k] != '/' by {
        assert(base[k] == host[k - se - 3]);
    }
    assert(index_of_from(base, '/', se + 3) == Some(he));
    assert(base[de] == '/');
    assert(last_index_before(base, '/', base.len() as int) == Some(de)) by {
        lemma_last_slash(base, de);
    }
    assert(base.take(de) =~= sch + "://"@ + host + dir);
}

proof fn lemma_last_slash(s: Seq<char>, d: int)
    requires
        0 <= d < s.len(),
        s[d] == '/',
        forall|k: int| d < k < s.len() ==> s[k] != '/',
    ensures
        last_index_before(s, '/', s.len() as int) == Some(d),
    decreases s.len() - d,
{
    lemma_last_slash_from(s, d, s.len() as int);
}

proof fn lemma_last_slash_from(s: Seq<char>, d: int, hi: int)
    requires
        0 <= d < hi <= s.len(),
        s[d] == '/',
        forall|k: int| d < k < hi ==> s[k] != '/',
    ensures
        last_index_before(s, '/', hi) == Some(d),
    decreases hi,
{
    if hi - 1 > d {
        lemma_last_slash_from(s, d, hi - 1);
    }
}

/// An absolute address (`http://` or `https://`) is kept as it is, whatever the base.
pub proof fn lemma_join_absolute(base: Seq<char>, rel: Seq<char>)
    requires
        starts_with(rel, "http://"@) || starts_with(rel, "https://"@),
    ensures
        join_url_spec(base, rel) == rel,
{
}

/// An address of a playlist resolved against a base, as `join_url_spec` describes it.
pub fn join_url(base: &str, rel: &str) -> (r: String)
    ensures
        r@ == join_url_spec(base@, rel@),
{
    if str_starts_with(rel, "http://") || str_starts_with(rel, "https://") {
        return owned(rel);
    }
    let bv = chars_of(base);
    let sep = chars_of("://");
    proof {
        reveal_strlit("://");
        crate::text::lemma_find_from(bv@, sep@, 0);
    }
    match crate::text::find_chars(&bv, &sep) {
        Some(se) => {
            proof {
                crate::text::lemma_index_of_from(bv@, '/', se + 3);
            }
            match crate::text::find_char_from(&bv, '/', se + 3) {
                Some(he) => {
                    if str_starts_with(rel, "/") {
                        let mut r = string_from_range(&bv, 0, he);
                        push_str(&mut r, rel);
                        assert(bv@.subrange(0, he as int) =~= bv@.take(he as int));
                        r
                    } else {
                        proof {
                            crate::text::lemma_last_index_before(bv@, '/', bv@.len() as int);
                        }
                        let de = match crate::text::rfind_char(&bv, '/', 0, bv.len()) {
                            Some(d) => d,
                            None => bv.len(),
                        };
                        let mut r = string_from_range(&bv, 0, de);
                        push_str(&mut r, "/");
                        push_str(&mut r, rel);
                        assert(bv@.subrange(0, de as int) =~= bv@.take(de as int));
                        r
                    }
                },
                None => owned(rel),
            }
        },
        None => owned(rel),
    }
}

// ---------------------------------------------------------------------------
// Attribute lists
// ---------------------------------------------------------------------------

/// The state after reading `s` as an attribute list: the finished attributes,
/// the one being read, and whether a quoted value is open.
pub open spec fn csv_scan(s: Seq<char>) -> (Seq<Seq<char>>, Seq<char>, bool)
    decreases s.len(),
{
    if s.len() == 0 {
        (Seq::empty(), Seq::empty(), false)
    } else {
        let (out, cur, q) = csv_scan(s.drop_last());
        let c = s.last();
        if c == '"' {
            (out, cur.push(c), !q)
        } else if c == ',' && !q {
            (out.push(trim(cur)), Seq::empty(), q)
        } else {
            (out, cur.push(c), q)
        }
    }
}

/// The attributes of a comma-separated list whose quoted values may hold
/// commas, each trimmed; a last attribute that is empty before trimming is dropped.
pub open spec fn split_csv_spec(s: Seq<char>) -> Seq<Seq<char>> {
    let (out, cur, _q) = csv_scan(s);
    if cur.len() > 0 {
        out.push(trim(cur))
    } else {
        out
    }
}

fn trimmed_string(v: &Vec<char>) -> (r: String)
    ensures
        r@ == trim(v@),
{
    let (lo, hi) = trim_bounds(v, 0, v.len());
    assert(v@.subrange(0, v@.len() as int) =~= v@);
    string_from_range(v, lo, hi)
}

/// The attributes of a list, as `split_csv_spec` describes them.
pub fn split_csv_attrs(s: &str) -> (r: Vec<String>)
    ensures
        r.deep_view() == split_csv_spec(s@),
{
    let v = chars_of(s);
    let mut out: Vec<String> = Vec::new();
    let mut cur: Vec<char> = Vec::new();
    let mut in_quotes = false;
    let mut i: usize = 0;
    assert(v@.take(0) =~= Seq::<char>::empty());
    while i < v.len()
        invariant
            i <= v@.len(),
            v@ == s@,
            out.deep_view() == csv_scan(v@.take(i as int)).0,
            cur@ == csv_scan(v@.take(i as int)).1,
            in_quotes == csv_scan(v@.take(i as int)).2,
        decreases v.len() - i,
    {
        assert(v@.take(i + 1).drop_last() =~= v@.take(i as int));
        let c = v[i];
        if c == '"' {
            in_quotes = !in_quotes;
            cur.push(c);
        } else if c == ',' && !in_quotes {
            let t = trimmed_string(&cur);
            let ghost before = out@;
            out.push(t);
            proof {
                crate::text::lemma_deep_view_push(before, out@, t);
            }
            cur = Vec::new();
        } else {
            cur.push(c);
        }
        i = i + 1;
    }
    assert(v@.take(i as int) =~= v@);
    if cur.len() > 0 {
        let t = trimmed_string(&cur);
        let ghost before = out@;
        out.push(t);
        proof {
            crate::text::lemma_deep_view_push(before, out@, t);
        }
    }
    out
}

// ---------------------------------------------------------------------------
// Master playlists
// ---------------------------------------------------------------------------

/// One variant of a master playlist: its address, its bandwidth in bits per
/// second, and its resolution when the playlist gives one.
pub struct HlsVariant {
    pub url: String,
    pub bandwidth: u64,
    pub resolution: Option<String>,
}

/// What a variant holds, as plain values.
pub open spec fn variant_view(v: HlsVariant) -> (Seq<char>, u64, Option<Seq<char>>) {
    (v.url@, v.bandwidth, v.resolution.deep_view())
}

/// The views of a list of variants.
pub open spec fn variants_view(s: Seq<HlsVariant>) -> Seq<(Seq<char>, u64, Option<Seq<char>>)> {
    Seq::new(s.len(), |i: int| variant_view(s[i]))
}

/// The bandwidth and resolution that the attributes of a stream line give:
/// the last `BANDWIDTH=` (0 when it is not a number) and the last
/// `RESOLUTION=`, each value without its quotes.
pub open spec fn stream_attrs(parts: Seq<Seq<char>>) -> (u64, Option<Seq<char>>)
    decreases parts.len(),
{
    if parts.len() == 0 {
        (0, None)
    } else {
        let (bw, res) = stream_attrs(parts.drop_last());
        let p = parts.last();
        if starts_with(p, "BANDWIDTH="@) {
            (
                match parse_u64(trim_char(p.skip(10), '"')) {
                    Some(n) => n,
                    None => 0,
                },
                res,
            )
        } else if starts_with(p, "RESOLUTION="@) {
            (bw, Some(trim_char(p.skip(11), '"')))
        } else {
            (bw, res)
        }
    }
}

/// The tag that announces a variant.
pub open spec fn stream_tag() -> Seq<char> {
    "#EXT-X-STREAM-INF:"@
}

/// The state after reading `lines` of a master playlist: the variants found
/// and the attributes of an announced variant still waiting for its address.
pub open spec fn m3u8_scan(lines: Seq<Seq<char>>, base: Seq<char>) -> (
    Seq<(Seq<char>, u64, Option<Seq<char>>)>,
    Option<(u64, Option<Seq<char>>)>,
)
    decreases lines.len(),
{
    if lines.len() == 0 {
        (Seq::empty(), None)
    } else {
        let (out, pending) = m3u8_scan(lines.drop_last(), base);
        let line = trim(lines.last());
        if starts_with(line, stream_tag()) {
            (out, Some(stream_attrs(split_csv_spec(line.skip(18)))))
        } else if line.len() > 0 && line[0] != '#' {
            match pending {
                Some((bw, res)) => (out.push((join_url_spec(base, line), bw, res)), None),
                None => (out, None),
            }
        } else {
            (out, pending)
        }
    }
}

/// Index at which a variant of bandwidth `b` goes in a list sorted by
/// decreasing bandwidth, after those of equal bandwidth.
pub open spec fn insert_pos(o: Seq<(Seq<char>, u64, Option<Seq<char>>)>, b: u64) -> int
    decreases o.len(),
{
    if o.len() == 0 {
        0
    } else if o.last().1 >= b {
        o.len() as int
    } else {
        insert_pos(o.drop_last(), b)
    }
}

/// The variants sorted by decreasing bandwidth, those of equal bandwidth kept
/// in the order the playlist lists them.
pub open spec fn sort_by_bandwidth(vs: Seq<(Seq<char>, u64, Option<Seq<char>>)>) -> Seq<
    (Seq<char>, u64, Option<Seq<char>>),
>
    decreases vs.len(),
{
    if vs.len() == 0 {
        Seq::empty()
    } else {
        let o = sort_by_bandwidth(vs.drop_last());
        o.insert(insert_pos(o, vs.last().1), vs.last())
    }
}

/// The list is sorted by decreasing bandwidth.
pub open spec fn by_decreasing_bandwidth(o: Seq<(Seq<char>, u64, Option<Seq<char>>)>) -> bool {
    forall|i: int, j: int| 0 <= i < j < o.len() ==> #[trigger] o[i].1 >= #[trigger] o[j].1
}

proof fn lemma_insert_pos(o: Seq<(Seq<char>, u64, Option<Seq<char>>)>, b: u64)
    requires
        by_decreasing_bandwidth(o),
    ensures
        0 <= insert_pos(o, b) <= o.len(),
        forall|i: int| 0 <= i < insert_pos(o, b) ==> #[trigger] o[i].1 >= b,
        forall|i: int| insert_pos(o, b) <= i < o.len() ==> #[trigger] o[i].1 < b,
    decreases o.len(),
{
    if o.len() > 0 && o.last().1 < b {
        let d = o.drop_last();
        assert(by_decreasing_bandwidth(d)) by {
            assert forall|i: int, j: int| 0 <= i < j < d.len() implies #[trigger] d[i].1 >= #[trigger] d[j].1 by {
                assert(d[i] == o[i] && d[j] == o[j]);
            }
        }
        lemma_insert_pos(d, b);
        assert forall|i: int| insert_pos(o, b) <= i < o.len() implies #[trigger] o[i].1 < b by {
            if i < o.len() - 1 {
                assert(o[i] == d[i]);
            }
        }
        assert forall|i: int| 0 <= i < insert_pos(o, b) implies #[trigger] o[i].1 >= b by {
            assert(o[i] == d[i]);
        }
    }
}

/// The order of the variants is by decreasing bandwidth, and it holds the
/// same variants as the playlist.
pub proof fn lemma_sort_by_bandwidth(vs: Seq<(Seq<char>, u64, Option<Seq<char>>)>)
    ensures
        by_decreasing_bandwidth(sort_by_bandwidth(vs)),
        sort_by_bandwidth(vs).to_multiset() == vs.to_multiset(),
    decreases vs.len(),
{
    broadcast use vstd::seq_lib::group_to_multiset_ensures;
    if vs.len() > 0 {
        let o = sort_by_bandwidth(vs.drop_last());
        let x = vs.last();
        lemma_sort_by_bandwidth(vs.drop_last());
        lemma_insert_pos(o, x.1);
        let p = insert_pos(o, x.1);
        let n = o.insert(p, x);
        assert forall|i: int, j: int| 0 <= i < j < n.len() implies #[trigger] n[i].1 >= #[trigger] n[j].1 by {
            if j < p {
                assert(n[i] == o[i] && n[j] == o[j]);
            } else if j == p {
                assert(n[i] == o[i]);
            } else if i < p {
                assert(n[i] == o[i] && n[j] == o[j - 1]);
            } else if i == p {
                assert(n[j] == o[j - 1]);
            } else {
                assert(n[i] == o[i - 1] && n[j] == o[j - 1]);
            }
        }
        vstd::seq_lib::to_multiset_insert(o, p, x);
        assert(vs =~= vs.drop_last().push(x));
        vstd::seq_lib::to_multiset_build(vs.drop_last(), x);
    }
}

/// The variants of a master playlist, read line by line (each line trimmed):
/// a stream tag announces a variant with its bandwidth and resolution, the
/// next line that is neither empty nor a comment gives its address, resolved
/// against `base_url`; the variants come sorted by decreasing bandwidth.
pub open spec fn parse_master_spec(content: Seq<char>, base_url: Seq<char>) -> Seq<(Seq<char>, u64, Option<Seq<char>>)> {
    sort_by_bandwidth(m3u8_scan(split_char(content, '\n'), base_url).0)
}

fn stream_attrs_of(parts: &Vec<String>) -> (r: (u64, Option<String>))
    ensures
        (r.0, r.1.deep_view()) == stream_attrs(parts.deep_view()),
{
    let mut bw: u64 = 0;
    let mut res: Option<String> = None;
    let mut i: usize = 0;
    assert(parts.deep_view().take(0) =~= Seq::<Seq<char>>::empty());
    while i < parts.len()
        invariant
            i <= parts@.len(),
            (bw, res.deep_view()) == stream_attrs(parts.deep_view().take(i as int)),
        decreases parts.len() - i,
    {
        assert(parts.deep_view().take(i + 1).drop_last() =~= parts.deep_view().take(i as int));
        assert(parts.deep_view()[i as int] == parts@[i as int]@);
        let p = parts[i].as_str();
        let pv = chars_of(p);
        if str_starts_with(p, "BANDWIDTH=") {
            proof {
                reveal_strlit("BANDWIDTH=");
            }
            let rest = string_from_range(&pv, 10, pv.len());
            let inner = trim_char_str(rest.as_str(), '"');
            bw = match parse_u64_str(inner.as_str()) {
                Some(n) => n,
                None => 0,
            };
        } else if str_starts_with(p, "RESOLUTION=") {
            proof {
                reveal_strlit("RESOLUTION=");
            }
            let rest = string_from_range(&pv, 11, pv.len());
            res = Some(trim_char_str(rest.as_str(), '"'));
        }
        i = i + 1;
    }
    assert(parts.deep_view().take(i as int) =~= parts.deep_view());
    (bw, res)
}

fn insert_variant(out: &mut Vec<HlsVariant>, v: HlsVariant)
    ensures
        variants_view(final(out)@) == variants_view(old(out)@).insert(
            insert_pos(variants_view(old(out)@), v.bandwidth),
            variant_view(v),
        ),
{
    let ghost ov = variants_view(out@);
    let mut p: usize = out.len();
    assert(ov.take(p as int) =~= ov);
    while p > 0 && out[p - 1].bandwidth < v.bandwidth
        invariant
            p <= out@.len(),
            ov == variants_view(out@),
            insert_pos(ov, v.bandwidth) == insert_pos(ov.take(p as int), v.bandwidth),
        decreases p,
    {
        assert(ov.take(p as int).drop_last() =~= ov.take(p - 1));
        p = p - 1;
    }
    proof {
        if p > 0 {
            assert(ov.take(p as int).last() == ov[p - 1]);
        }
        assert(insert_pos(ov.take(p as int), v.bandwidth) == p);
    }
    let ghost vv = variant_view(v);
    out.insert(p, v);
    assert(variants_view(out@) =~= ov.insert(p as int, vv));
}

/// The variants of a master playlist, as `parse_master_spec` describes them.
pub fn parse_master_m3u8(content: &str, base_url: &str) -> (r: Vec<HlsVariant>)
    ensures
        variants_view(r@) == parse_master_spec(content@, base_url@),
{
    let lines = split_at_char(content, '\n');
    let ghost lv = lines.deep_view();
    let mut found: Vec<HlsVariant> = Vec::new();
    let mut pending: Option<(u64, Option<String>)> = None;
    let mut i: usize = 0;
    assert(lv.take(0) =~= Seq::<Seq<char>>::empty());
    while i < lines.len()
        invariant
            i <= lines@.len(),
            lv == lines.deep_view(),
            lv == split_char(content@, '\n'),
            variants_view(found@) == m3u8_scan(lv.take(i as int), base_url@).0,
            match pending {
                Some((bw, res)) => m3u8_scan(lv.take(i as int), base_url@).1 == Some((bw, res.deep_view())),
                None => m3u8_scan(lv.take(i as int), base_url@).1 is None,
            },
        decreases lines.len() - i,
    {
        assert(lv.take(i + 1).drop_last() =~= lv.take(i as int));
        assert(lv[i as int] == lines@[i as int]@);
        let line = trim_str(lines[i].as_str());
        let lchars = chars_of(line.as_str());
        if str_starts_with(line.as_str(), "#EXT-X-STREAM-INF:") {
            proof {
                reveal_strlit("#EXT-X-STREAM-INF:");
            }
            let attrs = string_from_range(&lchars, 18, lchars.len());
            let parts = split_csv_attrs(attrs.as_str());
            let (bw, res) = stream_attrs_of(&parts);
            pending = Some((bw, res));
        } else if lchars.len() > 0 && lchars[0] != '#' {
            match pending {
                Some((bw, res)) => {
                    let url = join_url(base_url, line.as_str());
                    let ghost before = variants_view(found@);
                    found.push(HlsVariant { url, bandwidth: bw, resolution: res });
                    assert(variants_view(found@) =~= before.push((url@, bw, res.deep_view())));
                    pending = None;
                },
                None => {},
            }
        }
        i = i + 1;
    }
    assert(lv.take(i as int) =~= lv);
    let ghost scanned = variants_view(found@);
    // Sort by decreasing bandwidth, keeping the order of equal ones.
    let mut sorted: Vec<HlsVariant> = Vec::new();
    let mut rest = found;
    let mut k: usize = 0;
    let n = rest.len();
    assert(scanned.take(0) =~= Seq::<(Seq<char>, u64, Option<Seq<char>>)>::empty());
    assert(scanned.skip(0) =~= scanned);
    while rest.len() > 0
        invariant
            k + rest@.len() == n,
            n == scanned.len(),
            variants_view(rest@) == scanned.skip(k as int),
            variants_view(sorted@) == sort_by_bandwidth(scanned.take(k as int)),
        decreases rest@.len(),
    {
        let ghost rv = variants_view(rest@);
        let v = rest.remove(0);
        assert(variant_view(v) == scanned[k as int]) by {
            assert(rv[0] == scanned.skip(k as int)[0]);
        }
        assert forall|j: int| 0 <= j < rest@.len() implies #[trigger] variants_view(rest@)[j] == scanned.skip(k + 1)[j] by {
            assert(rv[j + 1] == scanned.skip(k as int)[j + 1]);
        }
        assert(variants_view(rest@) =~= scanned.skip(k + 1));
        assert(scanned.take(k + 1).drop_last() =~= scanned.take(k as int));
        assert(scanned.take(k + 1).last() == scanned[k as int]);
        insert_variant(&mut sorted, v);
        k = k + 1;
    }
    assert(scanned.take(k as int) =~= scanned);
    sorted
}

// ---------------------------------------------------------------------------
// Headers for fetching a playlist
// ---------------------------------------------------------------------------

/// The `Referer` and `Origin` headers to send with a playlist request, chosen
/// from the markers its address holds in lower case.
pub open spec fn hls_headers_spec(lower: Seq<char>) -> (Seq<char>, Seq<char>) {
    if contains(lower, "mediacache.cc"@) || contains(lower, "uniquestream"@) {
        ("https://anime.uniquestream.net/"@, "https://anime.uniquestream.net"@)
    } else if contains(lower, "voir-anime"@) {
        ("https://voir-anime.to/"@, "https://voir-anime.to"@)
    } else if contains(lower, "vidmoly"@) || contains(lower, "vmeas"@) || contains(lower, "vmwesa"@) {
        ("https://vidmoly.biz/"@, "https://vidmoly.biz"@)
    } else if contains(lower, "sibnet"@) {
        ("https://video.sibnet.ru/"@, "https://video.sibnet.ru"@)
    } else if contains(lower, "anikuro"@) {
        ("https://anikuro.to/"@, "https://anikuro.to"@)
    } else if contains(lower, "mail.ru"@) {
        ("https://my.mail.ru/"@, "https://my.mail.ru"@)
    } else if contains(lower, "voe"@) || contains(lower, "delivery-node"@) {
        ("https://voe.sx/"@, "https://voe.sx"@)
    } else if contains(lower, "streamtape"@) || contains(lower, "streamta.pe"@) || contains(
        lower,
        "tapecontent"@,
    ) {
        ("https://streamtape.com/"@, "https://streamtape.com"@)
    } else {
        ("https://franime.fr/"@, "https://franime.fr"@)
    }
}

/// The `Referer` and `Origin` headers for a playlist request, as `hls_headers_spec` chooses them.
pub fn pick_hls_headers(url: &str) -> (r: (&'static str, &'static str))
    ensures
        (r.0@, r.1@) == hls_headers_spec(lowercase(url@)),
{
    let lower = to_lowercase(url);
    let l = lower.as_str();
    if str_contains(l, "mediacache.cc") || str_contains(l, "uniquestream") {
        ("https://anime.uniquestream.net/", "https://anime.uniquestream.net")
    } else if str_contains(l, "voir-anime") {
        ("https://voir-anime.to/", "https://voir-anime.to")
    } else if str_contains(l, "vidmoly") || str_contains(l, "vmeas") || str_contains(l, "vmwesa") {
        ("https://vidmoly.biz/", "https://vidmoly.biz")
    } else if str_contains(l, "sibnet") {
        ("https://video.sibnet.ru/", "https://video.sibnet.ru")
    } else if str_contains(l, "anikuro") {
        ("https://anikuro.to/", "https://anikuro.to")
    } else if str_contains(l, "mail.ru") {
        ("https://my.mail.ru/", "https://my.mail.ru")
    } else if str_contains(l, "voe") || str_contains(l, "delivery-node") {
        ("https://voe.sx/", "https://voe.sx")
    } else if str_contains(l, "streamtape") || str_contains(l, "streamta.pe") || str_contains(l, "tapecontent") {
        ("https://streamtape.com/", "https://streamtape.com")
    } else {
        ("https://franime.fr/", "https://franime.fr")
    }
}

/// The variants to try for a playlist: those its master lists, or the
/// playlist itself (bandwidth 0, no resolution) when it lists none.
pub fn variants_to_try(listed: Vec<HlsVariant>, url: &str) -> (r: Vec<HlsVariant>)
    ensures
        listed@.len() > 0 ==> variants_view(r@) == variants_view(listed@),
        listed@.len() == 0 ==> variants_view(r@) == seq![(url@, 0u64, None::<Seq<char>>)],
{
    if listed.len() > 0 {
        listed
    } else {
        let mut v: Vec<HlsVariant> = Vec::new();
        v.push(HlsVariant { url: owned(url), bandwidth: 0, resolution: None });
        assert(variants_view(v@) =~= seq![(url@, 0u64, None::<Seq<char>>)]);
        v
    }
}

// ---------------------------------------------------------------------------
// ffmpeg
// ---------------------------------------------------------------------------

/// The arguments ffmpeg is run with to copy a playlist into `output`: quiet
/// banner, informative log with statistics, the referer and origin headers
/// the host wants, the input, stream copy with the AAC bitstream fix, the
/// output.
pub open spec fn ffmpeg_args_spec(url: Seq<char>, output: Seq<char>) -> Seq<Seq<char>> {
    let h = hls_headers_spec(lowercase(url));
    seq![
        "-y"@,
        "-hide_banner"@,
        "-loglevel"@,
        "info"@,
        "-stats"@,
        "-headers"@,
        "Referer: "@ + h.0 + "\r\nOrigin: "@ + h.1 + "\r\n"@,
        "-i"@,
        url,
        "-c"@,
        "copy"@,
        "-bsf:a"@,
        "aac_adtstoasc"@,
        output,
    ]
}

/// The arguments ffmpeg is run with, as `ffmpeg_args_spec` lists them.
pub fn ffmpeg_args(url: &str, output: &str) -> (r: Vec<String>)
    ensures
        r.deep_view() == ffmpeg_args_spec(url@, output@),
{
    let (referer, origin) = pick_hls_headers(url);
    let mut headers = owned("Referer: ");
    push_str(&mut headers, referer);
    push_str(&mut headers, "\r\nOrigin: ");
    push_str(&mut headers, origin);
    push_str(&mut headers, "\r\n");
    let mut v: Vec<String> = Vec::new();
    v.push(owned("-y"));
    v.push(owned("-hide_banner"));
    v.push(owned("-loglevel"));
    v.push(owned("info"));
    v.push(owned("-stats"));
    v.push(owned("-headers"));
    v.push(headers);
    v.push(owned("-i"));
    v.push(owned(url));
    v.push(owned("-c"));
    v.push(owned("copy"));
    v.push(owned("-bsf:a"));
    v.push(owned("aac_adtstoasc"));
    v.push(owned(output));
    assert(v.deep_view() =~= ffmpeg_args_spec(url@, output@));
    v
}

/// The pattern of the time ffmpeg reports having processed.
pub const FFMPEG_TIME_RE: &'static str = "time=(\\d+):(\\d+):(\\d+)\\.(\\d+)";

/// A number read from an ffmpeg statistics line: its value, 0 when it does
/// not read as a `u64`.
pub open spec fn number_or_zero(g: Option<Seq<char>>) -> u64 {
    match g {
        Some(d) => match parse_u64(d) {
            Some(n) => n,
            None => 0,
        },
        None => 0,
    }
}

/// The seconds ffmpeg reports having processed in a statistics line:
/// hours, minutes and seconds of its first `time=` field (wrapping around
/// on overflow); `None` when the line has none.
pub open spec fn ffmpeg_seconds_spec(line: Seq<char>) -> Option<u64> {
    let caps = crate::rx::regex_captures(FFMPEG_TIME_RE@, line);
    if caps.len() == 0 {
        None
    } else {
        let h = number_or_zero(crate::rx::first_group(caps, 1));
        let m = number_or_zero(crate::rx::first_group(caps, 2));
        let s = number_or_zero(crate::rx::first_group(caps, 3));
        Some(vstd::wrapping::u64_specs::wrapping_add(
            vstd::wrapping::u64_specs::wrapping_add(vstd::wrapping::u64_specs::wrapping_mul(h, 3600), vstd::wrapping::u64_specs::wrapping_mul(m, 60)),
            s,
        ))
    }
}

fn number_or_zero_of(g: &Option<String>) -> (n: u64)
    ensures
        n == number_or_zero(g.deep_view()),
{
    match g {
        Some(d) => match parse_u64_str(d.as_str()) {
            Some(n) => n,
            None => 0,
        },
        None => 0,
    }
}

/// The seconds ffmpeg reports having processed, as `ffmpeg_seconds_spec` reads them.
pub fn ffmpeg_seconds(line: &str) -> (r: Option<u64>)
    ensures
        r == ffmpeg_seconds_spec(line@),
{
    let caps = crate::rx::captures_all(FFMPEG_TIME_RE, line);
    if caps.len() == 0 {
        return None;
    }
    let h = number_or_zero_of(&crate::rx::get_group(&caps, 0, 1));
    let m = number_or_zero_of(&crate::rx::get_group(&caps, 0, 2));
    let s = number_or_zero_of(&crate::rx::get_group(&caps, 0, 3));
    Some(h.wrapping_mul(3600).wrapping_add(m.wrapping_mul(60)).wrapping_add(s))
}

/// An ffmpeg line worth reporting: it speaks of an error or of invalid data.
pub fn is_ffmpeg_error_line(line: &str) -> (b: bool)
    ensures
        b == (contains(lowercase(line@), "error"@) || contains(lowercase(line@), "invalid data"@)),
{
    let lower = to_lowercase(line);
    str_contains(lower.as_str(), "error") || str_contains(lower.as_str(), "invalid data")
}

/// An ffmpeg output smaller than `MIN_VALID_DOWNLOAD_BYTES` is refused (and
/// removed by the caller).
pub fn check_hls_output_size(written: u64) -> (r: Result<(), crate::providers::ScraperError>)
    ensures
        written < crate::tasks::MIN_VALID_DOWNLOAD_BYTES <==> r is Err,
        r matches Err(e) ==> (e matches crate::providers::ScraperError::NetworkError(m) && m@
            == "HLS: fichier de sortie trop petit ("@ + crate::num::decimal(written as nat)
            + " octets), flux probablement invalide"@),
{
    if written < crate::tasks::MIN_VALID_DOWNLOAD_BYTES {
        let mut m = owned("HLS: fichier de sortie trop petit (");
        crate::num::push_decimal(&mut m, written);
        push_str(&mut m, " octets), flux probablement invalide");
        Err(crate::providers::ScraperError::NetworkError(m))
    } else {
        Ok(())
    }
}

/// What comes after one variant of a playlist was tried.
pub enum VariantStep {
    /// The download succeeded: no later variant is tried.
    Succeeded,
    /// It failed and the variant at this position is tried next.
    TryNext(usize),
    /// It failed and it was the last variant: its error is the result.
    Failed(crate::providers::ScraperError),
}

/// What comes after variant `k` of `n` was tried with `outcome`.
pub open spec fn variant_step(k: int, n: int, outcome: Result<(), crate::providers::ScraperError>) -> VariantStep {
    match outcome {
        Ok(()) => VariantStep::Succeeded,
        Err(e) => if k + 1 < n {
            VariantStep::TryNext((k + 1) as usize)
        } else {
            VariantStep::Failed(e)
        },
    }
}

/// What comes after variant `k` of `n` was tried, as `variant_step` says.
pub fn after_variant(k: usize, n: usize, outcome: Result<(), crate::providers::ScraperError>) -> (s: VariantStep)
    requires
        k < n,
    ensures
        s == variant_step(k as int, n as int, outcome),
{
    match outcome {
        Ok(()) => VariantStep::Succeeded,
        Err(e) => if k + 1 < n {
            VariantStep::TryNext(k + 1)
        } else {
            VariantStep::Failed(e)
        },
    }
}

/// The variants of a list tried in order from position `k`, each giving its
/// outcome in `outs`, stepped as `variant_step` decides: how many are tried
/// and the last step.
pub open spec fn variants_run(outs: Seq<Result<(), crate::providers::ScraperError>>, k: int) -> (int, VariantStep)
    decreases outs.len() - k,
{
    if k < 0 || k >= outs.len() {
        (0, VariantStep::Succeeded)
    } else {
        match variant_step(k, outs.len() as int, outs[k]) {
            VariantStep::TryNext(_) => {
                let (t, s) = variants_run(outs, k + 1);
                (t + 1, s)
            },
            other => (1, other),
        }
    }
}

/// The first position at or after `k` whose variant succeeded.
pub open spec fn first_success(outs: Seq<Result<(), crate::providers::ScraperError>>, k: int) -> Option<int>
    decreases outs.len() - k,
{
    if k < 0 || k >= outs.len() {
        None
    } else if outs[k] is Ok {
        Some(k)
    } else {
        first_success(outs, k + 1)
    }
}

/// The variants are tried in order until one succeeds: the download
/// succeeds after trying the variants up to the first that succeeds, and no
/// later one; when every one fails, all are tried and the result is the
/// error of the last.
pub proof fn lemma_variants_in_order(outs: Seq<Result<(), crate::providers::ScraperError>>, k: int)
    requires
        0 <= k < outs.len(),
    ensures
        match first_success(outs, k) {
            Some(f) => k <= f < outs.len() && variants_run(outs, k) == (f - k + 1, VariantStep::Succeeded),
            None => outs.last() is Err && variants_run(outs, k) == (outs.len() - k, VariantStep::Failed(
                outs.last()->Err_0,
            )),
        },
    decreases outs.len() - k,
{
    let n = outs.len() as int;
    assert(first_success(outs, k + 1) == (if k + 1 < n && outs[k + 1] is Ok {
        Some(k + 1)
    } else if k + 1 < n {
        first_success(outs, k + 2)
    } else {
        None::<int>
    }));
    if outs[k] is Ok {
        assert(first_success(outs, k) == Some(k));
        assert(variant_step(k, n, outs[k]) == VariantStep::Succeeded);
        assert(variants_run(outs, k) == (1int, VariantStep::Succeeded));
    } else if k + 1 < n {
        lemma_variants_in_order(outs, k + 1);
        assert(first_success(outs, k) == first_success(outs, k + 1));
        assert(variant_step(k, n, outs[k]) == VariantStep::TryNext((k + 1) as usize));
        let (t, st) = variants_run(outs, k + 1);
        assert(variants_run(outs, k) == (t + 1, st));
    } else {
        assert(first_success(outs, k) is None);
        assert(outs.last() == outs[k]);
        assert(variant_step(k, n, outs[k]) == VariantStep::Failed(outs[k]->Err_0));
        assert(variants_run(outs, k) == (1int, VariantStep::Failed(outs[k]->Err_0)));
    }
}

/// How an ffmpeg run ends, checked in this order: a cancelled run is
/// reported cancelled; a run that exited in failure reports `failure` (the
/// exit code and duration the caller wrote); an output too small is refused
/// and is to be removed; anything else succeeded.  The flag says whether the
/// output file is to be removed.
pub fn ffmpeg_outcome(cancelled: bool, succeeded: bool, failure: String, written: u64) -> (r: (
    Result<(), crate::providers::ScraperError>,
    bool,
))
    ensures
        cancelled ==> (r.0 matches Err(crate::providers::ScraperError::NetworkError(m)) && m@ == "Cancelled"@)
            && !r.1,
        !cancelled && !succeeded ==> (r.0 matches Err(crate::providers::ScraperError::NetworkError(m)) && m
            == failure) && !r.1,
        !cancelled && succeeded ==> r.1 == (written < crate::tasks::MIN_VALID_DOWNLOAD_BYTES) && (r.0 is Ok
            <==> written >= crate::tasks::MIN_VALID_DOWNLOAD_BYTES) && (r.0 matches Err(e) ==> (e matches crate::providers::ScraperError::NetworkError(m)
            && m@ == "HLS: fichier de sortie trop petit ("@ + crate::num::decimal(written as nat)
            + " octets), flux probablement invalide"@)),
{
    if cancelled {
        return (Err(crate::providers::ScraperError::NetworkError(owned("Cancelled"))), false);
    }
    if !succeeded {
        return (Err(crate::providers::ScraperError::NetworkError(failure)), false);
    }
    let r = check_hls_output_size(written);
    let remove = r.is_err();
    (r, remove)
}

/// The progress an ffmpeg run reports: the seconds of stream copied as the
/// amount done, no known total, the speed the caller read, the resolution
/// of the variant.
pub fn ffmpeg_progress(secs: u64, speed_bytes_per_sec: u64, resolution: &Option<String>) -> (p: crate::tasks::DownloadProgress)
    ensures
        p.id@ == Seq::<char>::empty(),
        p.downloaded == secs,
        p.total == 0,
        p.speed_bytes_per_sec == speed_bytes_per_sec,
        p.eta_seconds == 0,
        p.resolution.deep_view() == resolution.deep_view(),
{
    crate::tasks::DownloadProgress {
        id: String::new(),
        downloaded: secs,
        total: 0,
        speed_bytes_per_sec,
        eta_seconds: 0,
        resolution: match resolution {
            Some(r) => Some(owned(r.as_str())),
            None => None,
        },
    }
}

/// How a variant is named in the log: its resolution (`?` when unknown) and
/// its bandwidth in kbit/s.
pub open spec fn variant_label_spec(v: (Seq<char>, u64, Option<Seq<char>>)) -> Seq<char> {
    let res = match v.2 {
        Some(r) => r,
        None => "?"@,
    };
    res + " @ "@ + crate::num::decimal((v.1 / 1000) as nat) + "kbps"@
}

/// How a variant is named in the log, as `variant_label_spec` writes it.
pub fn variant_label(v: &HlsVariant) -> (r: String)
    ensures
        r@ == variant_label_spec(variant_view(*v)),
{
    let mut r = match &v.resolution {
        Some(res) => owned(res.as_str()),
        None => owned("?"),
    };
    push_str(&mut r, " @ ");
    crate::num::push_decimal(&mut r, v.bandwidth / 1000);
    push_str(&mut r, "kbps");
    r
}

} // verus!
