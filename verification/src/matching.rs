//! Fuzzy title matching (normalisation and edit distance) and the ranking of
//! stream qualities, used when looking an anime up on a fallback provider.
use vstd::prelude::*;
use crate::text::{
    chars_of, char_is_alphanumeric, char_is_whitespace, is_whitespace, lowercase, to_lowercase,
    unicode_alphanumeric, trim, trim_bounds, string_from_range,
};
use crate::html::collapse_from;

verus! {

// ---------------------------------------------------------------------------
// Edit distance
// ---------------------------------------------------------------------------

pub open spec fn min2(a: nat, b: nat) -> nat {
    if a <= b {
        a
    } else {
        b
    }
}

/// The Levenshtein distance: fewest single-character insertions, deletions
/// and substitutions turning `a` into `b`.
pub open spec fn lev(a: Seq<char>, b: Seq<char>) -> nat
    decreases a.len() + b.len(),
{
    if a.len() == 0 {
        b.len()
    } else if b.len() == 0 {
        a.len()
    } else {
        min2(
            min2(lev(a.drop_last(), b) + 1, lev(a, b.drop_last()) + 1),
            lev(a.drop_last(), b.drop_last()) + (if a.last() == b.last() {
                0nat
            } else {
                1nat
            }),
        )
    }
}

pub proof fn lemma_lev_bound(a: Seq<char>, b: Seq<char>)
    ensures
        lev(a, b) <= if a.len() >= b.len() {
            a.len()
        } else {
            b.len()
        },
    decreases a.len() + b.len(),
{
    if a.len() > 0 && b.len() > 0 {
        lemma_lev_bound(a.drop_last(), b.drop_last());
    }
}

/// `x + 1`, or `usize::MAX` when that does not fit.
fn inc_sat(x: usize) -> (r: usize)
    ensures
        r == if x < usize::MAX {
            x + 1
        } else {
            x as int
        },
{
    if x < usize::MAX {
        x + 1
    } else {
        x
    }
}

/// Distance between the two character sequences, by rows of the dynamic programme.
pub fn levenshtein_chars(a: &Vec<char>, b: &Vec<char>) -> (d: usize)
    ensures
        d == lev(a@, b@),
{
    let n = a.len();
    let m = b.len();
    let mut prev: Vec<usize> = Vec::new();
    let mut j: usize = 0;
    loop
        invariant_except_break
            j <= m,
            prev@.len() == j,
            forall|k: int| 0 <= k < j ==> prev@[k] == lev(a@.take(0), b@.take(k)),
        invariant
            m == b@.len(),
        ensures
            prev@.len() == m + 1,
            forall|k: int| 0 <= k <= m ==> prev@[k] == lev(a@.take(0), b@.take(k)),
        decreases m - j,
    {
        prev.push(j);
        if j == m {
            break;
        }
        j = j + 1;
    }
    let mut i: usize = 0;
    while i < n
        invariant
            i <= n,
            n == a@.len(),
            m == b@.len(),
            prev@.len() == m + 1,
            forall|k: int| 0 <= k <= m ==> prev@[k] == lev(a@.take(i as int), b@.take(k)),
        decreases n - i,
    {
        let row = i + 1;
        let mut cur: Vec<usize> = Vec::new();
        cur.push(row);
        assert(cur@[0] == lev(a@.take(row as int), b@.take(0)));
        let mut k: usize = 0;
        while k < m
            invariant
                i < n,
                row == i + 1,
                k <= m,
                n == a@.len(),
                m == b@.len(),
                prev@.len() == m + 1,
                cur@.len() == k + 1,
                forall|q: int| 0 <= q <= m ==> prev@[q] == lev(a@.take(i as int), b@.take(q)),
                forall|q: int| 0 <= q <= k ==> cur@[q] == lev(a@.take(row as int), b@.take(q)),
            decreases m - k,
        {
            let col = k + 1;
            let ai = a[i];
            let bk = b[k];
            let ghost x = a@.take(row as int);
            let ghost y = b@.take(col as int);
            proof {
                assert(x.drop_last() =~= a@.take(i as int));
                assert(y.drop_last() =~= b@.take(k as int));
                assert(x.last() == ai);
                assert(y.last() == bk);
                lemma_lev_bound(x, y);
            }
            let del = inc_sat(prev[col]);
            let ins = inc_sat(cur[k]);
            let sub = if ai == bk {
                prev[k]
            } else {
                inc_sat(prev[k])
            };
            let mut best = if del <= ins {
                del
            } else {
                ins
            };
            if sub < best {
                best = sub;
            }
            cur.push(best);
            assert(cur@[col as int] == lev(x, y));
            k = k + 1;
        }
        prev = cur;
        i = i + 1;
    }
    assert(a@.take(n as int) =~= a@);
    assert(b@.take(m as int) =~= b@);
    prev[m]
}

/// Levenshtein distance between two strings, counted in characters.
pub fn levenshtein(a: &str, b: &str) -> (d: usize)
    ensures
        d == lev(a@, b@),
{
    let av = chars_of(a);
    let bv = chars_of(b);
    levenshtein_chars(&av, &bv)
}

// ---------------------------------------------------------------------------
// Normalisation
// ---------------------------------------------------------------------------

/// A character kept by the normalisation: alphanumeric or white space.
pub open spec fn is_word_char(c: char) -> bool {
    unicode_alphanumeric(c) || is_whitespace(c)
}

/// The characters of `s` that `is_word_char` keeps, in order.
pub open spec fn keep_word_chars(s: Seq<char>) -> Seq<char>
    decreases s.len(),
{
    if s.len() == 0 {
        Seq::empty()
    } else if is_word_char(s.last()) {
        keep_word_chars(s.drop_last()).push(s.last())
    } else {
        keep_word_chars(s.drop_last())
    }
}

/// The normal form of a title: lower-cased, reduced to letters, digits and
/// spaces, with its words separated by single spaces.
pub open spec fn norm_spec(s: Seq<char>) -> Seq<char> {
    trim(collapse_from(keep_word_chars(lowercase(s)), 0, false))
}

/// The normal form of a title, as `norm_spec` describes it.
pub fn norm(s: &str) -> (r: Vec<char>)
    ensures
        r@ == norm_spec(s@),
{
    let low = to_lowercase(s);
    let lv = chars_of(low.as_str());
    let mut kept: Vec<char> = Vec::new();
    let mut i: usize = 0;
    while i < lv.len()
        invariant
            i <= lv@.len(),
            kept@ == keep_word_chars(lv@.take(i as int)),
        decreases lv.len() - i,
    {
        let c = lv[i];
        let keep = char_is_alphanumeric(c) || char_is_whitespace(c);
        assert(lv@.take(i + 1).drop_last() =~= lv@.take(i as int));
        if keep {
            kept.push(c);
        }
        i = i + 1;
    }
    assert(lv@.take(lv@.len() as int) =~= lv@);
    let mut collapsed: Vec<char> = Vec::new();
    let mut last_ws = false;
    let mut k: usize = 0;
    while k < kept.len()
        invariant
            k <= kept@.len(),
            collapsed@ + collapse_from(kept@, k as int, last_ws) == collapse_from(kept@, 0, false),
        decreases kept.len() - k,
    {
        let c = kept[k];
        let ghost before = collapsed@;
        let ghost was_ws = last_ws;
        if char_is_whitespace(c) {
            if !last_ws {
                collapsed.push(' ');
                assert(before + collapse_from(kept@, k as int, was_ws) =~= collapsed@
                    + collapse_from(kept@, k + 1, true));
            }
            last_ws = true;
        } else {
            collapsed.push(c);
            last_ws = false;
            assert(before + collapse_from(kept@, k as int, was_ws) =~= collapsed@ + collapse_from(
                kept@,
                k + 1,
                false,
            ));
        }
        k = k + 1;
    }
    let (lo, hi) = trim_bounds(&collapsed, 0, collapsed.len());
    assert(collapsed@.subrange(0, collapsed@.len() as int) =~= collapsed@);
    let mut out: Vec<char> = Vec::new();
    let mut q = lo;
    while q < hi
        invariant
            lo <= q <= hi <= collapsed@.len(),
            out@ == collapsed@.subrange(lo as int, q as int),
        decreases hi - q,
    {
        out.push(collapsed[q]);
        q = q + 1;
        assert(out@ =~= collapsed@.subrange(lo as int, q as int));
    }
    out
}


// ---------------------------------------------------------------------------
// Best match among search results
// ---------------------------------------------------------------------------

/// The normal forms of the queries, empty ones left out.
pub open spec fn needles_of(qs: Seq<Seq<char>>) -> Seq<Seq<char>>
    decreases qs.len(),
{
    if qs.len() == 0 {
        Seq::empty()
    } else {
        let r = needles_of(qs.drop_last());
        let n = norm_spec(qs.last());
        if n.len() > 0 {
            r.push(n)
        } else {
            r
        }
    }
}

/// The smallest distance from any needle to `t` (0 for no needle).
pub open spec fn min_lev(needles: Seq<Seq<char>>, t: Seq<char>) -> nat
    decreases needles.len(),
{
    if needles.len() == 0 {
        0
    } else if needles.len() == 1 {
        lev(needles[0], t)
    } else {
        min2(min_lev(needles.drop_last(), t), lev(needles.last(), t))
    }
}

/// The UTF-8 length of the shortest needle (0 for no needle).
pub open spec fn min_byte_len(needles: Seq<Seq<char>>) -> nat
    decreases needles.len(),
{
    if needles.len() == 0 {
        0
    } else if needles.len() == 1 {
        crate::text::byte_len(needles[0])
    } else {
        min2(min_byte_len(needles.drop_last()), crate::text::byte_len(needles.last()))
    }
}

/// Running best `(candidate, distance)` after looking at the titles of
/// candidate `idx`: a title with an empty normal form is skipped, and only a
/// strictly smaller distance replaces the best so far.
pub open spec fn best_in_titles(
    needles: Seq<Seq<char>>,
    titles: Seq<Seq<char>>,
    idx: int,
    acc: Option<(int, nat)>,
) -> Option<(int, nat)>
    decreases titles.len(),
{
    if titles.len() == 0 {
        acc
    } else {
        let a2 = best_in_titles(needles, titles.drop_last(), idx, acc);
        let nt = norm_spec(titles.last());
        if nt.len() == 0 {
            a2
        } else {
            let d = min_lev(needles, nt);
            if a2 is None || d < a2.unwrap().1 {
                Some((idx, d))
            } else {
                a2
            }
        }
    }
}

/// Best `(candidate, distance)` over all candidates, in order.
pub open spec fn best_in_candidates(needles: Seq<Seq<char>>, cands: Seq<Seq<Seq<char>>>) -> Option<
    (int, nat),
>
    decreases cands.len(),
{
    if cands.len() == 0 {
        None
    } else {
        best_in_titles(
            needles,
            cands.last(),
            cands.len() - 1,
            best_in_candidates(needles, cands.drop_last()),
        )
    }
}

/// The candidate that a title search picks: the one holding the title
/// closest to any of the queries, kept only when that distance is at most
/// half the byte length of the shortest query plus three.
pub open spec fn pick_best_spec(cands: Seq<Seq<Seq<char>>>, queries: Seq<Seq<char>>) -> Option<int> {
    let needles = needles_of(queries);
    if needles.len() == 0 {
        None
    } else {
        match best_in_candidates(needles, cands) {
            Some((i, d)) => if d <= min_byte_len(needles) / 2 + 3 {
                Some(i)
            } else {
                None
            },
            None => None,
        }
    }
}

fn min_usize(a: usize, b: usize) -> (r: usize)
    ensures
        r == min2(a as nat, b as nat),
{
    if a <= b {
        a
    } else {
        b
    }
}

/// Index of the candidate whose titles best match the queries, as `pick_best_spec` says.
pub fn pick_best_index(cands: &Vec<Vec<String>>, queries: &Vec<String>) -> (r: Option<usize>)
    ensures
        r matches Some(i) ==> pick_best_spec(cands.deep_view(), queries.deep_view()) == Some(
            i as int,
        ),
        r is None ==> pick_best_spec(cands.deep_view(), queries.deep_view()) is None,
        r matches Some(i) ==> i < cands@.len(),
{
    proof {
        lemma_pick_best_index(cands.deep_view(), queries.deep_view());
    }
    let ghost qv = queries.deep_view();
    let mut needles: Vec<Vec<char>> = Vec::new();
    let mut q: usize = 0;
    while q < queries.len()
        invariant
            q <= queries@.len(),
            qv == queries.deep_view(),
            needles.deep_view() == needles_of(qv.take(q as int)),
        decreases queries.len() - q,
    {
        let n = norm(queries[q].as_str());
        proof {
            assert(qv.take(q + 1).drop_last() =~= qv.take(q as int));
            assert(qv[q as int] == queries@[q as int]@);
        }
        if n.len() > 0 {
            let ghost before = needles.deep_view();
            proof {
                crate::text::lemma_chars_deep_view(&n);
            }
            needles.push(n);
            assert(needles.deep_view() =~= before.push(n@));
        }
        q = q + 1;
    }
    assert(qv.take(q as int) =~= qv);
    if needles.len() == 0 {
        return None;
    }
    let ghost nd = needles.deep_view();
    proof {
        crate::text::lemma_chars_deep_view(&needles@[0]);
    }
    // shortest needle, in bytes
    let mut min_len = crate::text::utf8_len(&needles[0]);
    assert(nd[0] == needles@[0].deep_view());
    assert(nd.take(1)[0] == nd[0]);
    let mut t: usize = 1;
    while t < needles.len()
        invariant
            1 <= t <= needles@.len(),
            nd == needles.deep_view(),
            min_len == min_byte_len(nd.take(t as int)),
        decreases needles.len() - t,
    {
        let l = crate::text::utf8_len(&needles[t]);
        assert(nd[t as int] == needles@[t as int].deep_view());
        assert(nd.take(t + 1)[t as int] == nd[t as int]);
        assert(nd.take(t + 1).drop_last() =~= nd.take(t as int));
        proof {
            crate::text::lemma_chars_deep_view(&needles@[t as int]);
        }
        min_len = min_usize(min_len, l);
        t = t + 1;
    }
    assert(nd.take(t as int) =~= nd);
    let ghost cv = cands.deep_view();
    let mut best: Option<(usize, usize)> = None;
    let mut i: usize = 0;
    while i < cands.len()
        invariant
            i <= cands@.len(),
            cv == cands.deep_view(),
            nd == needles.deep_view(),
            nd.len() > 0,
            match best {
                Some((bi, bd)) => best_in_candidates(nd, cv.take(i as int)) == Some(
                    (bi as int, bd as nat),
                ),
                None => best_in_candidates(nd, cv.take(i as int)) is None,
            },
        decreases cands.len() - i,
    {
        let ghost titles = cv[i as int];
        let ghost acc0 = best_in_candidates(nd, cv.take(i as int));
        proof {
            assert(cv.take(i + 1).drop_last() =~= cv.take(i as int));
            assert(titles == cands@[i as int].deep_view());
        }
        let mut k: usize = 0;
        while k < cands[i].len()
            invariant
                i < cands@.len(),
                k <= cands@[i as int]@.len(),
                titles == cands@[i as int].deep_view(),
                nd == needles.deep_view(),
                nd.len() > 0,
                match best {
                    Some((bi, bd)) => best_in_titles(nd, titles.take(k as int), i as int, acc0)
                        == Some((bi as int, bd as nat)),
                    None => best_in_titles(nd, titles.take(k as int), i as int, acc0) is None,
                },
            decreases cands@[i as int]@.len() - k,
        {
            let nt = norm(cands[i][k].as_str());
            proof {
                assert(titles.take(k + 1).drop_last() =~= titles.take(k as int));
                assert(titles[k as int] == cands@[i as int]@[k as int]@);
            }
            if nt.len() > 0 {
                // distance from the closest needle
                proof {
                    crate::text::lemma_chars_deep_view(&needles@[0]);
                }
                let mut d = levenshtein_chars(&needles[0], &nt);
                assert(nd.take(1).drop_last() =~= Seq::<Seq<char>>::empty());
                let mut u: usize = 1;
                while u < needles.len()
                    invariant
                        1 <= u <= needles@.len(),
                        nd == needles.deep_view(),
                        d == min_lev(nd.take(u as int), nt@),
                    decreases needles.len() - u,
                {
                    let e = levenshtein_chars(&needles[u], &nt);
                    assert(nd.take(u + 1).drop_last() =~= nd.take(u as int));
                    proof {
                        crate::text::lemma_chars_deep_view(&needles@[u as int]);
                    }
                    d = min_usize(d, e);
                    u = u + 1;
                }
                assert(nd.take(u as int) =~= nd);
                let replace = match best {
                    None => true,
                    Some((_, bd)) => d < bd,
                };
                if replace {
                    best = Some((i, d));
                }
            }
            k = k + 1;
        }
        assert(titles.take(k as int) =~= titles);
        i = i + 1;
    }
    assert(cv.take(i as int) =~= cv);
    match best {
        Some((bi, bd)) => {
            if bd <= min_len / 2 + 3 {
                Some(bi)
            } else {
                None
            }
        },
        None => None,
    }
}

// ---------------------------------------------------------------------------
// Quality ranking
// ---------------------------------------------------------------------------

/// `s` without its trailing `p` characters.
pub open spec fn trim_end_p(s: Seq<char>) -> Seq<char>
    decreases s.len(),
{
    if s.len() > 0 && s.last() == 'p' {
        trim_end_p(s.drop_last())
    } else {
        s
    }
}

/// The rank of a stream quality label; `backup_rank` gives the rank of the
/// label `backup` when the provider knows that label.
pub open spec fn quality_rank(q: Option<Seq<char>>, knows_backup: bool) -> u32 {
    match q {
        None => 50,
        Some(s) => if s == "1080p"@ {
            100
        } else if s == "720p"@ {
            80
        } else if s == "480p"@ {
            60
        } else if s == "360p"@ {
            40
        } else if s == "auto"@ || s == "default"@ {
            90
        } else if knows_backup && s == "backup"@ {
            30
        } else {
            match crate::num::parse_u32(trim_end_p(s), 10) {
                Some(n) => n,
                None => 50,
            }
        },
    }
}

/// The resolutions a quality label can name, from the lowest to the highest.
pub open spec fn resolution_labels() -> Seq<Seq<char>> {
    seq!["360p"@, "480p"@, "720p"@, "1080p"@]
}

/// A higher resolution ranks higher: 1080p over 720p over 480p over 360p,
/// whether or not the provider knows the `backup` label.
pub proof fn lemma_resolution_ranks(knows_backup: bool)
    ensures
        quality_rank(Some("1080p"@), knows_backup) > quality_rank(Some("720p"@), knows_backup),
        quality_rank(Some("720p"@), knows_backup) > quality_rank(Some("480p"@), knows_backup),
        quality_rank(Some("480p"@), knows_backup) > quality_rank(Some("360p"@), knows_backup),
        forall|a: int, b: int|
            0 <= b < a < 4 ==> quality_rank(Some(#[trigger] resolution_labels()[a]), knows_backup) > quality_rank(
                Some(#[trigger] resolution_labels()[b]),
                knows_backup,
            ),
{
    reveal_strlit("1080p");
    reveal_strlit("720p");
    reveal_strlit("480p");
    reveal_strlit("360p");
    assert("1080p"@.len() != "720p"@.len());
    assert("1080p"@.len() != "480p"@.len());
    assert("1080p"@.len() != "360p"@.len());
    assert("720p"@[0] != "480p"@[0]);
    assert("720p"@[0] != "360p"@[0]);
    assert("480p"@[0] != "360p"@[0]);
}

/// Of two streams whose labels name resolutions, the one with the lower
/// resolution is never the one picked: the best stream is never `j` when
/// stream `i` has a higher resolution.
pub proof fn lemma_higher_resolution_wins(
    qs: Seq<Option<Seq<char>>>,
    knows_backup: bool,
    i: int,
    j: int,
    a: int,
    b: int,
    best: int,
)
    requires
        0 <= i < qs.len(),
        0 <= j < qs.len(),
        0 <= b < a < 4,
        qs[i] == Some(resolution_labels()[a]),
        qs[j] == Some(resolution_labels()[b]),
        is_last_max(ranks_of(qs, knows_backup), best),
    ensures
        best != j,
{
    lemma_resolution_ranks(knows_backup);
    let ranks = ranks_of(qs, knows_backup);
    assert(ranks[i] == quality_rank(Some(resolution_labels()[a]), knows_backup));
    assert(ranks[j] == quality_rank(Some(resolution_labels()[b]), knows_backup));
    assert(ranks[i] <= ranks[best]);
}

/// The rank of a stream quality label.
pub fn rank_quality(q: &Option<String>, knows_backup: bool) -> (r: u32)
    ensures
        r == quality_rank(q.deep_view(), knows_backup),
{
    match q {
        None => {
            assert(q.deep_view() is None);
            50
        },
        Some(s) => {
            assert(q.deep_view() == Some(s@));
            let v = chars_of(s.as_str());
            let n = v.len();
            assert(v@.take(n as int) =~= v@);
            if crate::text::range_eq(&v, 0, n, "1080p") {
                100
            } else if crate::text::range_eq(&v, 0, n, "720p") {
                80
            } else if crate::text::range_eq(&v, 0, n, "480p") {
                60
            } else if crate::text::range_eq(&v, 0, n, "360p") {
                40
            } else if crate::text::range_eq(&v, 0, n, "auto") || crate::text::range_eq(
                &v,
                0,
                n,
                "default",
            ) {
                90
            } else if knows_backup && crate::text::range_eq(&v, 0, n, "backup") {
                30
            } else {
                let mut end = n;
                while end > 0 && v[end - 1] == 'p'
                    invariant
                        end <= n == v@.len(),
                        trim_end_p(v@) == trim_end_p(v@.take(end as int)),
                    decreases end,
                {
                    assert(v@.take(end as int).drop_last() =~= v@.take(end - 1));
                    end = end - 1;
                }
                assert(v@.take(end as int) =~= v@.subrange(0, end as int));
                proof {
                    assert(v@.subrange(0, n as int) =~= v@);
                    assert(v@.take(n as int) =~= v@);
                }
                match crate::num::parse_u32_range(&v, 0, end, 10) {
                    Some(x) => x,
                    None => 50,
                }
            }
        },
    }
}

/// `i` is the last index holding the largest rank (what `Iterator::max_by_key` picks).
pub open spec fn is_last_max(ranks: Seq<u32>, i: int) -> bool {
    &&& 0 <= i < ranks.len()
    &&& forall|j: int| 0 <= j < ranks.len() ==> ranks[j] <= ranks[i]
    &&& forall|j: int| i < j < ranks.len() ==> ranks[j] < ranks[i]
}

/// The ranks of a list of quality labels.
pub open spec fn ranks_of(qs: Seq<Option<Seq<char>>>, knows_backup: bool) -> Seq<u32> {
    Seq::new(qs.len(), |i: int| quality_rank(qs[i], knows_backup))
}

/// Index of the best stream: the last one holding the largest quality rank.
pub fn pick_best_quality(qualities: &Vec<Option<String>>, knows_backup: bool) -> (r: Option<usize>)
    ensures
        r is None <==> qualities@.len() == 0,
        r matches Some(i) ==> is_last_max(ranks_of(qualities.deep_view(), knows_backup), i as int),
{
    let ghost rs = ranks_of(qualities.deep_view(), knows_backup);
    if qualities.len() == 0 {
        return None;
    }
    let mut best: usize = 0;
    let mut best_rank = rank_quality(&qualities[0], knows_backup);
    proof {
        assert(qualities.deep_view()[0] == qualities@[0].deep_view());
    }
    let mut i: usize = 1;
    while i < qualities.len()
        invariant
            1 <= i <= qualities@.len(),
            rs == ranks_of(qualities.deep_view(), knows_backup),
            best < i,
            best_rank == rs[best as int],
            forall|j: int| 0 <= j < i ==> rs[j] <= best_rank,
            forall|j: int| best < j < i ==> rs[j] < best_rank,
        decreases qualities.len() - i,
    {
        let r = rank_quality(&qualities[i], knows_backup);
        proof {
            assert(qualities.deep_view()[i as int] == qualities@[i as int].deep_view());
        }
        if r >= best_rank {
            best = i;
            best_rank = r;
        }
        i = i + 1;
    }
    Some(best)
}


/// There is only one last index of the largest rank.
pub proof fn lemma_last_max_unique(ranks: Seq<u32>, i: int, j: int)
    requires
        is_last_max(ranks, i),
        is_last_max(ranks, j),
    ensures
        i == j,
{
    if i < j {
        assert(ranks[j] < ranks[i]);
        assert(ranks[i] <= ranks[j]);
    } else if j < i {
        assert(ranks[i] < ranks[j]);
        assert(ranks[j] <= ranks[i]);
    }
}

/// The running best over titles names candidate `idx` or keeps the accumulator.
pub proof fn lemma_best_in_titles_index(
    needles: Seq<Seq<char>>,
    titles: Seq<Seq<char>>,
    idx: int,
    acc: Option<(int, nat)>,
)
    ensures
        best_in_titles(needles, titles, idx, acc) matches Some((i, d)) ==> i == idx || (acc
            matches Some((j, e)) && i == j),
    decreases titles.len(),
{
    if titles.len() > 0 {
        lemma_best_in_titles_index(needles, titles.drop_last(), idx, acc);
    }
}

/// The best candidate is one of the candidates.
pub proof fn lemma_best_in_candidates_index(needles: Seq<Seq<char>>, cands: Seq<Seq<Seq<char>>>)
    ensures
        best_in_candidates(needles, cands) matches Some((i, d)) ==> 0 <= i < cands.len(),
    decreases cands.len(),
{
    if cands.len() > 0 {
        lemma_best_in_candidates_index(needles, cands.drop_last());
        lemma_best_in_titles_index(
            needles,
            cands.last(),
            cands.len() - 1,
            best_in_candidates(needles, cands.drop_last()),
        );
    }
}

/// What `pick_best_spec` picks is one of the candidates.
pub proof fn lemma_pick_best_index(cands: Seq<Seq<Seq<char>>>, queries: Seq<Seq<char>>)
    ensures
        pick_best_spec(cands, queries) matches Some(i) ==> 0 <= i < cands.len(),
{
    lemma_best_in_candidates_index(needles_of(queries), cands);
}

} // verus!
