//! The shortcode/numeric-id codec (a fixed-radix transform over a 64-symbol
//! alphabet) and post-id extraction from URL paths.

use vstd::prelude::*;

use crate::text::{
    chars_eq_str, chars_to_string, find_from, lemma_filter_single, lemma_find_from_bounds,
    lemma_find_shift, match_at, spec_find_from, str_eq, str_to_chars, subrange_chars,
};

verus! {

/// The 64-symbol alphabet of the shortcode encoding.
pub open spec fn spec_alphabet() -> Seq<char> {
    "ABCDEFGHIJKLMNOPQRSTUVWXYZabcdefghijklmnopqrstuvwxyz0123456789-_"@
}

/// The base-64 digits of `n` over the shortcode alphabet, most significant
/// first; zero reads as the single digit `A`.
pub open spec fn spec_code_digits(n: nat) -> Seq<char>
    decreases n,
{
    if n < 64 {
        seq![spec_alphabet()[n as int]]
    } else {
        spec_code_digits(n / 64).push(spec_alphabet()[(n % 64) as int])
    }
}

/// Converts a numeric media ID to its shortcode.
pub fn mediaid_to_code(media_id: u64) -> (r: String)
    ensures
        r@ == spec_code_digits(media_id as nat),
{
    proof {
        reveal_strlit("ABCDEFGHIJKLMNOPQRSTUVWXYZabcdefghijklmnopqrstuvwxyz0123456789-_");
    }
    let alph = str_to_chars("ABCDEFGHIJKLMNOPQRSTUVWXYZabcdefghijklmnopqrstuvwxyz0123456789-_");
    let mut v: Vec<char> = Vec::new();
    let mut m: u64 = media_id;
    loop
        invariant_except_break
            alph@ == spec_alphabet(),
            alph@.len() == 64,
            spec_code_digits(media_id as nat) == (if v@.len() == 0 {
                spec_code_digits(m as nat)
            } else {
                spec_code_digits(m as nat) + v@
            }),
        ensures
            v@ == spec_code_digits(media_id as nat),
        decreases m,
    {
        let ghost prev = v@;
        let d = (m % 64) as usize;
        v.insert(0, alph[d]);
        assert(v@ =~= seq![spec_alphabet()[(m as nat % 64) as int]] + prev);
        let next = m / 64;
        proof {
            if next == 0 {
                assert(m < 64);
                assert(spec_code_digits(m as nat) == seq![spec_alphabet()[m as int]]);
                assert(seq![spec_alphabet()[(m as nat % 64) as int]] =~= spec_code_digits(
                    m as nat,
                ));
                if prev.len() == 0 {
                    assert(spec_code_digits(m as nat) + prev =~= spec_code_digits(m as nat));
                }
            } else {
                assert(m >= 64);
                assert(spec_code_digits(m as nat) == spec_code_digits((m as nat) / 64).push(
                    spec_alphabet()[((m as nat) % 64) as int],
                ));
                assert(spec_code_digits((m as nat) / 64).push(
                    spec_alphabet()[((m as nat) % 64) as int],
                ) =~= spec_code_digits((m as nat) / 64) + seq![
                    spec_alphabet()[((m as nat) % 64) as int],
                ]);
                if prev.len() == 0 {
                    assert(spec_code_digits(next as nat) + v@ =~= spec_code_digits(m as nat));
                } else {
                    assert(spec_code_digits(next as nat) + (seq![
                        spec_alphabet()[((m as nat) % 64) as int],
                    ] + prev) =~= (spec_code_digits(next as nat) + seq![
                        spec_alphabet()[((m as nat) % 64) as int],
                    ]) + prev);
                }
            }
        }
        if next == 0 {
            assert(v@ == spec_code_digits(media_id as nat));
            break ;
        }
        m = next;
    }
    chars_to_string(&v)
}

/// The numeric media ID read back from a shortcode, processing symbols left
/// to right with the accumulator `acc`: fails on a symbol outside the
/// alphabet or when the value would exceed `u64::MAX`.
pub open spec fn spec_code_val_from(s: Seq<char>, acc: int) -> Option<int>
    decreases s.len(),
{
    if s.len() == 0 {
        Some(acc)
    } else {
        match spec_find_from(spec_alphabet(), seq![s[0]], 0) {
            None => None,
            Some(pos) => {
                let next = acc * 64 + pos;
                if next > u64::MAX as int {
                    None
                } else {
                    spec_code_val_from(s.drop_first(), next)
                }
            },
        }
    }
}

/// The numeric media ID of a shortcode.
pub open spec fn spec_code_to_mediaid(s: Seq<char>) -> Option<int> {
    spec_code_val_from(s, 0)
}

/// The alphabet holds sixty-four pairwise distinct symbols.
proof fn lemma_alphabet_distinct()
    ensures
        spec_alphabet().len() == 64,
        forall|j: int, k: int|
            0 <= j < k < 64 ==> spec_alphabet()[j] != spec_alphabet()[k],
{
    reveal_strlit("ABCDEFGHIJKLMNOPQRSTUVWXYZabcdefghijklmnopqrstuvwxyz0123456789-_");
}

/// The first occurrence of a character that appears at `d` and nowhere
/// before it is found at `d`.
proof fn lemma_find_single_from(h: Seq<char>, c: char, d: int, from: int)
    requires
        0 <= from <= d < h.len(),
        h[d] == c,
        forall|j: int| from <= j < d ==> h[j] != c,
    ensures
        spec_find_from(h, seq![c], from) == Some(d),
    decreases d - from,
{
    assert(h.subrange(from, from + 1)[0] == h[from]);
    if from == d {
        assert(h.subrange(from, from + 1) =~= seq![c]);
        assert(match_at(h, seq![c], from));
    } else {
        assert(h.subrange(from, from + 1) != seq![c]) by {
            if h.subrange(from, from + 1) == seq![c] {
                assert(h[from] == c);
            }
        }
        assert(!match_at(h, seq![c], from));
        lemma_find_single_from(h, c, d, from + 1);
    }
}

/// Reading a symbol sequence splits at any concatenation point: the left
/// part's value becomes the accumulator for the right part.
proof fn lemma_code_val_concat(s1: Seq<char>, s2: Seq<char>, acc: int)
    ensures
        spec_code_val_from(s1 + s2, acc) == (match spec_code_val_from(s1, acc) {
            Some(v) => spec_code_val_from(s2, v),
            None => None::<int>,
        }),
    decreases s1.len(),
{
    if s1.len() == 0 {
        assert(s1 + s2 =~= s2);
    } else {
        assert((s1 + s2)[0] == s1[0]);
        assert((s1 + s2).len() > 0);
        assert((s1 + s2).drop_first() =~= s1.drop_first() + s2);
        match spec_find_from(spec_alphabet(), seq![s1[0]], 0) {
            None => {},
            Some(pos) => {
                let next = acc * 64 + pos;
                if next > u64::MAX as int {
                } else {
                    lemma_code_val_concat(s1.drop_first(), s2, next);
                }
            },
        }
    }
}

/// The value of the encoding of `n`, read with accumulator zero, is `n`.
proof fn lemma_code_val_of_digits(n: nat)
    requires
        n <= u64::MAX as nat,
    ensures
        spec_code_val_from(spec_code_digits(n), 0) == Some(n as int),
    decreases n,
{
    lemma_alphabet_distinct();
    if n < 64 {
        let c = spec_alphabet()[n as int];
        assert(spec_code_digits(n) == seq![c]);
        lemma_find_single_from(spec_alphabet(), c, n as int, 0);
        assert(seq![c].drop_first() =~= Seq::<char>::empty());
        assert(spec_code_val_from(Seq::<char>::empty(), n as int) == Some(n as int));
    } else {
        let q = n / 64;
        let rem = n % 64;
        let s1 = spec_code_digits(q);
        let c = spec_alphabet()[rem as int];
        assert(spec_code_digits(n) == s1.push(c));
        assert(s1.push(c) =~= s1 + seq![c]);
        lemma_code_val_of_digits(q);
        lemma_code_val_concat(s1, seq![c], 0);
        lemma_find_single_from(spec_alphabet(), c, rem as int, 0);
        assert((q as int) * 64 + (rem as int) == n as int) by {
            vstd::arithmetic::div_mod::lemma_fundamental_div_mod(n as int, 64);
        }
        assert(seq![c].drop_first() =~= Seq::<char>::empty());
        assert(spec_code_val_from(seq![c], q as int) == Some(n as int));
    }
}

/// The codec's two directions invert each other: decoding the shortcode of
/// any media ID gives that ID back.
pub proof fn lemma_codec_roundtrip(media_id: u64)
    ensures
        spec_code_to_mediaid(spec_code_digits(media_id as nat)) == Some(media_id as int),
{
    lemma_code_val_of_digits(media_id as nat);
}

/// Converts a shortcode back to a numeric media ID; fails on symbols
/// outside the alphabet or on overflow.
pub fn code_to_mediaid(code: &str) -> (r: Option<u64>)
    ensures
        match r {
            Some(n) => spec_code_to_mediaid(code@) == Some(n as int),
            None => spec_code_to_mediaid(code@) is None,
        },
{
    proof {
        reveal_strlit("ABCDEFGHIJKLMNOPQRSTUVWXYZabcdefghijklmnopqrstuvwxyz0123456789-_");
    }
    let alph = str_to_chars("ABCDEFGHIJKLMNOPQRSTUVWXYZabcdefghijklmnopqrstuvwxyz0123456789-_");
    let cs = str_to_chars(code);
    let mut id: u64 = 0;
    let mut i: usize = 0;
    assert(cs@.skip(0) =~= cs@);
    while i < cs.len()
        invariant
            i <= cs@.len(),
            cs@ == code@,
            alph@ == spec_alphabet(),
            spec_code_to_mediaid(code@) == spec_code_val_from(cs@.skip(i as int), id as int),
        decreases cs@.len() - i,
    {
        let ghost rest = cs@.skip(i as int);
        assert(rest[0] == cs@[i as int]);
        let mut needle: Vec<char> = Vec::new();
        needle.push(cs[i]);
        assert(needle@ =~= seq![cs@[i as int]]);
        let pos = match find_from(&alph, &needle, 0) {
            Some(p) => p,
            None => {
                return None;
            },
        };
        let stepped = match id.checked_mul(64) {
            Some(t) => t.checked_add(pos as u64),
            None => None,
        };
        let next = match stepped {
            Some(n) => n,
            None => {
                assert((id as int) * 64 + pos > u64::MAX as int);
                return None;
            },
        };
        assert(rest.drop_first() =~= cs@.skip(i + 1));
        id = next;
        i += 1;
    }
    assert(cs@.skip(cs@.len() as int) =~= Seq::<char>::empty());
    Some(id)
}

/// `s` split at every occurrence of `sep`, empty pieces included.
pub open spec fn spec_split_char(s: Seq<char>, sep: char) -> Seq<Seq<char>>
    decreases s.len()
        via spec_split_char_dec
{
    match spec_find_from(s, seq![sep], 0) {
        Some(p) => seq![s.subrange(0, p)] + spec_split_char(s.skip(p + 1), sep),
        None => seq![s],
    }
}

#[via_fn]
proof fn spec_split_char_dec(s: Seq<char>, sep: char) {
    lemma_find_from_bounds(s, seq![sep], 0);
}

/// The views of a vector of character vectors.
pub open spec fn spec_seqs_of(r: Seq<Vec<char>>) -> Seq<Seq<char>> {
    Seq::new(r.len(), |i: int| r[i]@)
}

/// Splits `v` at every `sep`, dropping empty pieces.
pub fn split_nonempty(v: &Vec<char>, sep: char) -> (r: Vec<Vec<char>>)
    ensures
        spec_seqs_of(r@) == spec_split_char(v@, sep).filter(|t: Seq<char>| t.len() > 0),
{
    let ghost pred = |t: Seq<char>| t.len() > 0;
    let mut r: Vec<Vec<char>> = Vec::new();
    let mut pos: usize = 0;
    let mut sep_v: Vec<char> = Vec::new();
    sep_v.push(sep);
    assert(sep_v@ =~= seq![sep]);
    proof {
        assert(v@.skip(0) =~= v@);
        assert(spec_seqs_of(r@) =~= Seq::<Seq<char>>::empty());
        assert(Seq::<Seq<char>>::empty() + spec_split_char(v@, sep).filter(pred)
            =~= spec_split_char(v@, sep).filter(pred));
    }
    loop
        invariant
            pos <= v@.len(),
            sep_v@ == seq![sep],
            pred == (|t: Seq<char>| t.len() > 0),
            spec_seqs_of(r@) + spec_split_char(v@.skip(pos as int), sep).filter(pred)
                == spec_split_char(v@, sep).filter(pred),
        decreases v@.len() - pos,
    {
        let ghost rest = v@.skip(pos as int);
        let ghost prev = r@;
        match find_from(v, &sep_v, pos) {
            Some(p) => {
                let n_total = v.len();
                assert(p + sep_v@.len() <= n_total);
                proof {
                    lemma_find_shift(v@, seq![sep], pos as int, 0);
                    assert(spec_find_from(rest, seq![sep], 0) == Some(p - pos));
                    assert(rest.subrange(0, p - pos) =~= v@.subrange(pos as int, p as int));
                    assert(rest.skip(p - pos + 1) =~= v@.skip(p + 1));
                    assert(spec_split_char(rest, sep) == seq![v@.subrange(pos as int, p as int)]
                        + spec_split_char(v@.skip(p + 1), sep));
                    Seq::filter_distributes_over_add(
                        seq![v@.subrange(pos as int, p as int)],
                        spec_split_char(v@.skip(p + 1), sep),
                        pred,
                    );
                    lemma_filter_single(v@.subrange(pos as int, p as int), pred);
                }
                if p > pos {
                    let seg = subrange_chars(v, pos, p);
                    r.push(seg);
                    proof {
                        assert(spec_seqs_of(r@) =~= spec_seqs_of(prev).push(
                            v@.subrange(pos as int, p as int),
                        ));
                        assert(spec_seqs_of(prev).push(v@.subrange(pos as int, p as int))
                            =~= spec_seqs_of(prev) + seq![v@.subrange(pos as int, p as int)]);
                        assert((spec_seqs_of(prev) + seq![v@.subrange(pos as int, p as int)])
                            + spec_split_char(v@.skip(p + 1), sep).filter(pred) =~= spec_seqs_of(
                            prev,
                        ) + (seq![v@.subrange(pos as int, p as int)] + spec_split_char(
                            v@.skip(p + 1),
                            sep,
                        ).filter(pred)));
                    }
                } else {
                    proof {
                        assert(v@.subrange(pos as int, p as int).len() == 0);
                        assert(Seq::<Seq<char>>::empty() + spec_split_char(
                            v@.skip(p + 1),
                            sep,
                        ).filter(pred) =~= spec_split_char(v@.skip(p + 1), sep).filter(pred));
                    }
                }
                pos = p + 1;
            },
            None => {
                proof {
                    lemma_find_shift(v@, seq![sep], pos as int, 0);
                    assert(spec_find_from(rest, seq![sep], 0) is None);
                    assert(spec_split_char(rest, sep) == seq![rest]);
                    lemma_filter_single(rest, pred);
                }
                if pos < v.len() {
                    let seg = subrange_chars(v, pos, v.len());
                    assert(seg@ =~= rest);
                    r.push(seg);
                    proof {
                        assert(spec_seqs_of(r@) =~= spec_seqs_of(prev).push(rest));
                        assert(spec_seqs_of(prev).push(rest) =~= spec_seqs_of(prev) + seq![rest]);
                        assert(rest.len() > 0);
                        assert(seq![rest].filter(pred) == seq![rest]);
                    }
                } else {
                    proof {
                        assert(rest.len() == 0);
                        assert(seq![rest].filter(pred) == Seq::<Seq<char>>::empty());
                        assert(spec_seqs_of(prev) + Seq::<Seq<char>>::empty() =~= spec_seqs_of(
                            prev,
                        ));
                    }
                }
                return r;
            },
        }
    }
}

/// Whether a path segment marks the segment after it as a post id.
pub open spec fn spec_is_marker(t: Seq<char>) -> bool {
    t == "p"@ || t == "reel"@ || t == "tv"@ || t == "reels"@
}

/// The post id of a segment list: the segment after the first marker, or
/// nothing when there is no marker or the marker is last.
pub open spec fn spec_post_id_of_segments(segs: Seq<Seq<char>>) -> Option<Seq<char>>
    decreases segs.len(),
{
    if segs.len() == 0 {
        None
    } else if spec_is_marker(segs[0]) {
        if segs.len() >= 2 {
            Some(segs[1])
        } else {
            None
        }
    } else {
        spec_post_id_of_segments(segs.drop_first())
    }
}

/// The post id (shortcode) of a URL path: the non-empty segment following
/// the first `p`, `reel`, `tv` or `reels` segment.
pub open spec fn spec_extract_post_id(path: Seq<char>) -> Option<Seq<char>> {
    spec_post_id_of_segments(
        spec_split_char(path, '/').filter(|t: Seq<char>| t.len() > 0),
    )
}

fn is_marker_exec(t: &Vec<char>) -> (r: bool)
    ensures
        r == spec_is_marker(t@),
{
    chars_eq_str(t, "p") || chars_eq_str(t, "reel") || chars_eq_str(t, "tv") || chars_eq_str(
        t,
        "reels",
    )
}

/// Extracts the post ID (shortcode) from a URL path such as `/p/ABC123/`,
/// `/reel/ABC123/` or `/tv/ABC123/`, with or without trailing slashes and
/// extra path segments.
pub fn extract_post_id(path: &str) -> (r: Option<String>)
    ensures
        match r {
            Some(s) => spec_extract_post_id(path@) == Some(s@),
            None => spec_extract_post_id(path@) is None,
        },
{
    let cs = str_to_chars(path);
    let segs = split_nonempty(&cs, '/');
    let ghost all = spec_seqs_of(segs@);
    let mut i: usize = 0;
    assert(all.skip(0) =~= all);
    while i < segs.len()
        invariant
            i <= segs@.len(),
            all == spec_seqs_of(segs@),
            spec_extract_post_id(path@) == spec_post_id_of_segments(all.skip(i as int)),
        decreases segs@.len() - i,
    {
        let ghost rest = all.skip(i as int);
        assert(rest[0] == all[i as int]);
        if is_marker_exec(&segs[i]) {
            if i + 1 < segs.len() {
                assert(rest[1] == all[i + 1]);
                return Some(chars_to_string(&segs[i + 1]));
            }
            return None;
        }
        assert(rest.drop_first() =~= all.skip(i + 1));
        i += 1;
    }
    assert(all.skip(i as int) =~= Seq::<Seq<char>>::empty());
    None
}

/// Whether `c` is a decimal digit.
pub open spec fn spec_is_digit(c: char) -> bool {
    48 <= (c as u32) && (c as u32) <= 57
}

/// The decimal number read from `s` left to right with accumulator `acc`:
/// fails on a non-digit or when the value would exceed `u64::MAX`.
pub open spec fn spec_dec_val_from(s: Seq<char>, acc: int) -> Option<int>
    decreases s.len(),
{
    if s.len() == 0 {
        Some(acc)
    } else if !spec_is_digit(s[0]) {
        None
    } else {
        let next = acc * 10 + ((s[0] as u32) - 48);
        if next > u64::MAX as int {
            None
        } else {
            spec_dec_val_from(s.drop_first(), next)
        }
    }
}

/// The value of a non-empty all-digit string, within `u64` range.
pub open spec fn spec_parse_u64(s: Seq<char>) -> Option<int> {
    if s.len() == 0 {
        None
    } else {
        spec_dec_val_from(s, 0)
    }
}

/// Parses a non-empty string of decimal digits as a `u64`.
pub fn parse_u64(s: &str) -> (r: Option<u64>)
    ensures
        match r {
            Some(n) => spec_parse_u64(s@) == Some(n as int),
            None => spec_parse_u64(s@) is None,
        },
{
    let cs = str_to_chars(s);
    if cs.len() == 0 {
        return None;
    }
    let mut n: u64 = 0;
    let mut i: usize = 0;
    assert(cs@.skip(0) =~= cs@);
    while i < cs.len()
        invariant
            i <= cs@.len(),
            cs@ == s@,
            cs@.len() > 0,
            spec_parse_u64(s@) == spec_dec_val_from(cs@.skip(i as int), n as int),
        decreases cs@.len() - i,
    {
        let ghost rest = cs@.skip(i as int);
        assert(rest[0] == cs@[i as int]);
        let c = cs[i];
        let u = c as u32;
        if !(48 <= u && u <= 57) {
            return None;
        }
        let d = (u - 48) as u64;
        let stepped = match n.checked_mul(10) {
            Some(t) => t.checked_add(d),
            None => None,
        };
        let next = match stepped {
            Some(x) => x,
            None => {
                assert((n as int) * 10 + d > u64::MAX as int);
                return None;
            },
        };
        assert(rest.drop_first() =~= cs@.skip(i + 1));
        n = next;
        i += 1;
    }
    assert(cs@.skip(cs@.len() as int) =~= Seq::<char>::empty());
    Some(n)
}

/// Whether a query parameter is allowed on a CDN media URL; everything
/// else is tracking and is stripped.
pub open spec fn spec_allowed_cdn_param(k: Seq<char>) -> bool {
    k == "stp"@ || k == "dst"@ || k == "_nc_cat"@ || k == "_nc_ohc"@ || k == "ccb"@ || k == "oh"@
        || k == "oe"@ || k == "_nc_sid"@
}

fn is_allowed_cdn_param(k: &str) -> (r: bool)
    ensures
        r == spec_allowed_cdn_param(k@),
{
    str_eq(k, "stp") || str_eq(k, "dst") || str_eq(k, "_nc_cat") || str_eq(k, "_nc_ohc") || str_eq(
        k,
        "ccb",
    ) || str_eq(k, "oh") || str_eq(k, "oe") || str_eq(k, "_nc_sid")
}

/// Keeps exactly the allowlisted query parameters of a CDN URL, in their
/// original order.
pub fn keep_cdn_params(pairs: &Vec<(String, String)>) -> (r: Vec<(String, String)>)
    ensures
        crate::fetcher::spec_header_views(r@) == crate::fetcher::spec_header_views(
            pairs@,
        ).filter(|p: (Seq<char>, Seq<char>)| spec_allowed_cdn_param(p.0)),
{
    let ghost pred = |p: (Seq<char>, Seq<char>)| spec_allowed_cdn_param(p.0);
    let ghost hs = crate::fetcher::spec_header_views(pairs@);
    let mut r: Vec<(String, String)> = Vec::new();
    let mut i: usize = 0;
    proof {
        reveal_with_fuel(Seq::<_>::filter, 1);
        assert(hs.take(0) =~= Seq::<(Seq<char>, Seq<char>)>::empty());
        assert(crate::fetcher::spec_header_views(r@) =~= hs.take(0).filter(pred));
    }
    while i < pairs.len()
        invariant
            i <= pairs@.len(),
            hs == crate::fetcher::spec_header_views(pairs@),
            pred == (|p: (Seq<char>, Seq<char>)| spec_allowed_cdn_param(p.0)),
            crate::fetcher::spec_header_views(r@) == hs.take(i as int).filter(pred),
        decreases pairs@.len() - i,
    {
        let ghost prev = crate::fetcher::spec_header_views(r@);
        if is_allowed_cdn_param(pairs[i].0.as_str()) {
            r.push((pairs[i].0.clone(), pairs[i].1.clone()));
            assert(crate::fetcher::spec_header_views(r@) =~= prev.push(hs[i as int]));
        }
        proof {
            reveal_with_fuel(Seq::<_>::filter, 1);
            assert(hs.take(i + 1).drop_last() =~= hs.take(i as int));
            assert(hs.take(i + 1).last() == hs[i as int]);
            assert(hs.take(i + 1).filter(pred) == (if pred(hs[i as int]) {
                hs.take(i as int).filter(pred).push(hs[i as int])
            } else {
                hs.take(i as int).filter(pred)
            }));
        }
        i += 1;
    }
    assert(hs.take(pairs@.len() as int) =~= hs);
    r
}

/// The decoded query pairs of a URL text, in order; nothing when the text
/// does not parse as an absolute URL. The result depends on the text
/// alone.
pub uninterp spec fn spec_url_query_pairs(url: Seq<char>) -> Option<
    Seq<(Seq<char>, Seq<char>)>,
>;

/// Relies on url::Url::parse and Url::query_pairs: the decoded query pairs
/// of an absolute URL, in order, deterministically from the text; `None`
/// exactly when the text does not parse.
#[verifier::external_body]
fn url_query_pairs(url: &str) -> (r: Option<Vec<(String, String)>>)
    ensures
        match r {
            Some(ps) => spec_url_query_pairs(url@) == Some(
                crate::fetcher::spec_header_views(ps@),
            ),
            None => spec_url_query_pairs(url@) is None,
        },
{
    match url::Url::parse(url) {
        Ok(u) => Some(u.query_pairs().map(|(k, v)| (k.into_owned(), v.into_owned())).collect()),
        Err(_) => None,
    }
}

/// The URL text rebuilt with exactly the given query pairs, an empty list
/// clearing the query; nothing when the text does not parse. The result
/// depends on the arguments alone.
pub uninterp spec fn spec_url_with_query_pairs(
    url: Seq<char>,
    pairs: Seq<(Seq<char>, Seq<char>)>,
) -> Option<Seq<char>>;

/// Relies on url::Url::parse, Url::set_query and Url::query_pairs_mut: the
/// URL serialized again with exactly the given query pairs, an empty list
/// clearing the query, deterministically from the arguments; `None`
/// exactly when the text does not parse.
#[verifier::external_body]
fn url_with_query_pairs(url: &str, pairs: &Vec<(String, String)>) -> (r: Option<String>)
    ensures
        match r {
            Some(u) => spec_url_with_query_pairs(
                url@,
                crate::fetcher::spec_header_views(pairs@),
            ) == Some(u@),
            None => spec_url_with_query_pairs(
                url@,
                crate::fetcher::spec_header_views(pairs@),
            ) is None,
        },
{
    match url::Url::parse(url) {
        Ok(mut u) => {
            if pairs.is_empty() {
                u.set_query(None);
            } else {
                u.query_pairs_mut().clear().extend_pairs(
                    pairs.iter().map(|p| (p.0.as_str(), p.1.as_str())),
                );
            }
            Some(u.to_string())
        },
        Err(_) => None,
    }
}

/// A CDN media URL with only the allowlisted query parameters kept, in
/// their original order; the text unchanged when it does not parse.
pub open spec fn spec_normalize_cdn_url(url: Seq<char>) -> Seq<char> {
    match spec_url_query_pairs(url) {
        None => url,
        Some(pairs) => match spec_url_with_query_pairs(
            url,
            pairs.filter(|p: (Seq<char>, Seq<char>)| spec_allowed_cdn_param(p.0)),
        ) {
            Some(u) => u,
            None => url,
        },
    }
}

/// Strips tracking parameters from a CDN media URL, retaining only the
/// allowlisted query parameters. Returns the original URL unchanged if
/// parsing fails.
pub fn normalize_cdn_url(url_str: &str) -> (r: String)
    ensures
        r@ == spec_normalize_cdn_url(url_str@),
{
    let pairs = match url_query_pairs(url_str) {
        Some(p) => p,
        None => {
            return url_str.to_owned();
        },
    };
    let kept = keep_cdn_params(&pairs);
    match url_with_query_pairs(url_str, &kept) {
        Some(u) => u,
        None => url_str.to_owned(),
    }
}

/// A numeric story ID resolved to its shortcode, any other input unchanged.
pub open spec fn spec_resolve_post_id(s: Seq<char>) -> Seq<char> {
    match spec_parse_u64(s) {
        Some(n) => spec_code_digits(n as nat),
        None => s,
    }
}

/// Resolves a numeric story ID to a shortcode, or returns the input
/// unchanged.
pub fn resolve_post_id(raw: &str) -> (r: String)
    ensures
        r@ == spec_resolve_post_id(raw@),
{
    match parse_u64(raw) {
        Some(n) => mediaid_to_code(n),
        None => raw.to_owned(),
    }
}

} // verus!
