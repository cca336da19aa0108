//! Turning HTML fragments into plain text: decoding character entities and
//! stripping tags.
use vstd::prelude::*;
use crate::num::{parse_u32, parse_u32_range};
use crate::rx::{regex_split, split_all};
use crate::text::{
    chars_of, find_char_from, index_of_from, is_whitespace, join, join_strings, push_char,
    push_range, range_eq, trim, trim_bounds, char_is_whitespace, string_from_range,
};

verus! {

/// The character with code point `v`, if `v` is a Unicode scalar value
/// (what `char::from_u32` returns).
pub open spec fn char_from_code(v: u32) -> Option<char> {
    if v <= 0x10FFFF && !(0xD800 <= v <= 0xDFFF) {
        Some(v as char)
    } else {
        None
    }
}

/// Calls std `char::from_u32`: `Some` exactly for Unicode scalar values.
#[verifier::external_body]
pub(crate) fn char_from_u32(v: u32) -> (r: Option<char>)
    ensures
        r == char_from_code(v),
{
    char::from_u32(v)
}

/// The character that a named entity stands for.
pub open spec fn named_entity(ent: Seq<char>) -> Option<char> {
    if ent == "amp"@ {
        Some('&')
    } else if ent == "lt"@ {
        Some('<')
    } else if ent == "gt"@ {
        Some('>')
    } else if ent == "quot"@ {
        Some('"')
    } else if ent == "apos"@ {
        Some('\'')
    } else if ent == "nbsp"@ {
        Some(' ')
    } else if ent == "hellip"@ {
        Some('…')
    } else if ent == "laquo"@ {
        Some('«')
    } else if ent == "raquo"@ {
        Some('»')
    } else if ent == "eacute"@ {
        Some('é')
    } else if ent == "egrave"@ {
        Some('è')
    } else if ent == "ecirc"@ {
        Some('ê')
    } else if ent == "agrave"@ {
        Some('à')
    } else if ent == "acirc"@ {
        Some('â')
    } else if ent == "ocirc"@ {
        Some('ô')
    } else if ent == "ucirc"@ {
        Some('û')
    } else if ent == "ugrave"@ {
        Some('ù')
    } else if ent == "icirc"@ {
        Some('î')
    } else if ent == "iuml"@ {
        Some('ï')
    } else if ent == "ccedil"@ {
        Some('ç')
    } else if ent == "Eacute"@ {
        Some('É')
    } else {
        None
    }
}

/// The character that a numeric entity (`#65`, `#x41`, `#X41`) stands for.
pub open spec fn numeric_entity(ent: Seq<char>) -> Option<char> {
    if ent.len() > 0 && ent[0] == '#' {
        let num = ent.drop_first();
        let code = if num.len() > 0 && (num[0] == 'x' || num[0] == 'X') {
            parse_u32(num.drop_first(), 16)
        } else {
            parse_u32(num, 10)
        };
        match code {
            Some(v) => char_from_code(v),
            None => None,
        }
    } else {
        None
    }
}

/// The character that the entity body `ent` (between `&` and `;`) stands for.
pub open spec fn entity_char(ent: Seq<char>) -> Option<char> {
    match named_entity(ent) {
        Some(c) => Some(c),
        None => numeric_entity(ent),
    }
}

/// Entities decoded in `s` from position `i` on: at each `&`, when a `;`
/// follows within ten characters and the text between them names a
/// character, the whole entity becomes that character; otherwise the `&`
/// stays as it is.
pub open spec fn decode_from(s: Seq<char>, i: int) -> Seq<char>
    decreases s.len() - i,
{
    if i < 0 || i > s.len() {
        Seq::empty()
    } else {
        match index_of_from(s, '&', i) {
            None => s.subrange(i, s.len() as int),
            Some(a) => {
                if a < i || a >= s.len() {
                    Seq::empty()
                } else {
                    let semi = index_of_from(s, ';', a + 1);
                    if semi is Some && a < semi.unwrap() < s.len() && semi.unwrap() - (a + 1) <= 10
                        && entity_char(s.subrange(a + 1, semi.unwrap())) is Some {
                        s.subrange(i, a).push(entity_char(s.subrange(a + 1, semi.unwrap())).unwrap())
                            + decode_from(s, semi.unwrap() + 1)
                    } else {
                        s.subrange(i, a).push('&') + decode_from(s, a + 1)
                    }
                }
            },
        }
    }
}

/// `s` with its character entities decoded.
pub open spec fn decode(s: Seq<char>) -> Seq<char> {
    decode_from(s, 0)
}

/// The named entity that `s[lo..hi]` spells.
fn named_entity_at(s: &Vec<char>, lo: usize, hi: usize) -> (r: Option<char>)
    requires
        lo <= hi <= s@.len(),
    ensures
        r == named_entity(s@.subrange(lo as int, hi as int)),
{
    if range_eq(s, lo, hi, "amp") {
        Some('&')
    } else if range_eq(s, lo, hi, "lt") {
        Some('<')
    } else if range_eq(s, lo, hi, "gt") {
        Some('>')
    } else if range_eq(s, lo, hi, "quot") {
        Some('"')
    } else if range_eq(s, lo, hi, "apos") {
        Some('\'')
    } else if range_eq(s, lo, hi, "nbsp") {
        Some(' ')
    } else if range_eq(s, lo, hi, "hellip") {
        Some('…')
    } else if range_eq(s, lo, hi, "laquo") {
        Some('«')
    } else if range_eq(s, lo, hi, "raquo") {
        Some('»')
    } else if range_eq(s, lo, hi, "eacute") {
        Some('é')
    } else if range_eq(s, lo, hi, "egrave") {
        Some('è')
    } else if range_eq(s, lo, hi, "ecirc") {
        Some('ê')
    } else if range_eq(s, lo, hi, "agrave") {
        Some('à')
    } else if range_eq(s, lo, hi, "acirc") {
        Some('â')
    } else if range_eq(s, lo, hi, "ocirc") {
        Some('ô')
    } else if range_eq(s, lo, hi, "ucirc") {
        Some('û')
    } else if range_eq(s, lo, hi, "ugrave") {
        Some('ù')
    } else if range_eq(s, lo, hi, "icirc") {
        Some('î')
    } else if range_eq(s, lo, hi, "iuml") {
        Some('ï')
    } else if range_eq(s, lo, hi, "ccedil") {
        Some('ç')
    } else if range_eq(s, lo, hi, "Eacute") {
        Some('É')
    } else {
        None
    }
}

/// The character that the entity body `s[lo..hi]` stands for.
fn entity_char_at(s: &Vec<char>, lo: usize, hi: usize) -> (r: Option<char>)
    requires
        lo <= hi <= s@.len(),
    ensures
        r == entity_char(s@.subrange(lo as int, hi as int)),
{
    if let Some(c) = named_entity_at(s, lo, hi) {
        return Some(c);
    }
    let ghost ent = s@.subrange(lo as int, hi as int);
    if lo < hi && s[lo] == '#' {
        let ghost num = ent.drop_first();
        assert(num =~= s@.subrange(lo + 1, hi as int));
        let code = if lo + 1 < hi && (s[lo + 1] == 'x' || s[lo + 1] == 'X') {
            assert(num.drop_first() =~= s@.subrange(lo + 2, hi as int));
            parse_u32_range(s, lo + 2, hi, 16)
        } else {
            parse_u32_range(s, lo + 1, hi, 10)
        };
        match code {
            Some(v) => char_from_u32(v),
            None => None,
        }
    } else {
        None
    }
}

/// Decodes the character entities of `s`, as listed for `decode_from`.
pub fn decode_entities(s: &str) -> (r: String)
    ensures
        r@ == decode(s@),
{
    let v = chars_of(s);
    let mut out = String::new();
    let mut i: usize = 0;
    loop
        invariant
            i <= v@.len(),
            v@ == s@,
            out@ + decode_from(v@, i as int) == decode(v@),
        decreases v@.len() - i,
    {
        proof {
            crate::text::lemma_index_of_from(v@, '&', i as int);
        }
        match find_char_from(&v, '&', i) {
            None => {
                let ghost before = out@;
                push_range(&mut out, &v, i, v.len());
                assert(out@ == before + decode_from(v@, i as int));
                return out;
            },
            Some(a) => {
                let ghost before = out@;
                push_range(&mut out, &v, i, a);
                proof {
                    crate::text::lemma_index_of_from(v@, ';', a + 1);
                }
                let semi = find_char_from(&v, ';', a + 1);
                if let Some(e) = semi {
                    if e - (a + 1) <= 10 {
                        if let Some(c) = entity_char_at(&v, a + 1, e) {
                            push_char(&mut out, c);
                            proof {
                                let rest = decode_from(v@, e + 1);
                                assert(decode_from(v@, i as int) == v@.subrange(
                                    i as int,
                                    a as int,
                                ).push(c) + rest);
                                assert(out@ + rest =~= before + (v@.subrange(
                                    i as int,
                                    a as int,
                                ).push(c) + rest));
                            }
                            i = e + 1;
                            continue ;
                        }
                    }
                }
                push_char(&mut out, '&');
                proof {
                    let rest = decode_from(v@, a + 1);
                    assert(decode_from(v@, i as int) == v@.subrange(i as int, a as int).push('&')
                        + rest);
                    assert(out@ + rest =~= before + (v@.subrange(i as int, a as int).push('&')
                        + rest));
                }
                i = a + 1;
            },
        }
    }
}

/// `s` with every run of white space replaced by one space, reading from position `i`;
/// `last_ws` tells whether the character before `i` was white space.
pub open spec fn collapse_from(s: Seq<char>, i: int, last_ws: bool) -> Seq<char>
    decreases s.len() - i,
{
    if i < 0 || i >= s.len() {
        Seq::empty()
    } else if is_whitespace(s[i]) {
        if last_ws {
            collapse_from(s, i + 1, true)
        } else {
            seq![' '] + collapse_from(s, i + 1, true)
        }
    } else {
        seq![s[i]] + collapse_from(s, i + 1, false)
    }
}

/// The pattern of one HTML tag.
pub const TAG_RE: &'static str = r"<[^>]*>";

/// The text of an HTML fragment: every tag replaced by a space, white space
/// runs collapsed to one space, and the ends trimmed.
pub open spec fn strip_tags_spec(s: Seq<char>) -> Seq<char> {
    trim(collapse_from(join(regex_split(TAG_RE@, s), " "@), 0, false))
}

/// The text of an HTML fragment, as `strip_tags_spec` describes it.
pub fn strip_tags(s: &str) -> (r: String)
    ensures
        r@ == strip_tags_spec(s@),
{
    let pieces = split_all(TAG_RE, s);
    let no_tags = join_strings(&pieces, " ");
    let v = chars_of(no_tags.as_str());
    let mut collapsed: Vec<char> = Vec::new();
    let mut last_ws = false;
    let mut i: usize = 0;
    while i < v.len()
        invariant
            i <= v@.len(),
            collapsed@ + collapse_from(v@, i as int, last_ws) == collapse_from(v@, 0, false),
        decreases v.len() - i,
    {
        let c = v[i];
        let ghost before = collapsed@;
        let ghost was_ws = last_ws;
        if char_is_whitespace(c) {
            if !last_ws {
                collapsed.push(' ');
                assert(before + collapse_from(v@, i as int, was_ws) =~= collapsed@
                    + collapse_from(v@, i + 1, true));
            }
            last_ws = true;
        } else {
            collapsed.push(c);
            last_ws = false;
            assert(before + collapse_from(v@, i as int, was_ws) =~= collapsed@ + collapse_from(
                v@,
                i + 1,
                false,
            ));
        }
        i = i + 1;
    }
    let (lo, hi) = trim_bounds(&collapsed, 0, collapsed.len());
    assert(collapsed@.subrange(0, collapsed@.len() as int) =~= collapsed@);
    string_from_range(&collapsed, lo, hi)
}

} // verus!
