//! Character-level text utilities: conversions between strings and character
//! vectors, substring search, and replacement. All scanning logic in the
//! crate is built on these primitives.

use vstd::prelude::*;

verus! {

/// Relies on std's `String::push`: appends exactly one character.
#[verifier::external_body]
pub(crate) fn push_char(s: &mut String, c: char)
    ensures
        final(s)@ == old(s)@.push(c),
{
    s.push(c);
}

/// The characters of `s`, as a vector.
pub fn str_to_chars(s: &str) -> (r: Vec<char>)
    ensures
        r@ == s@,
{
    let n = s.unicode_len();
    let mut r: Vec<char> = Vec::new();
    let mut i: usize = 0;
    while i < n
        invariant
            i <= n,
            n == s@.len(),
            r@ == s@.subrange(0, i as int),
        decreases n - i,
    {
        r.push(s.get_char(i));
        assert(r@ =~= s@.subrange(0, i + 1));
        i += 1;
    }
    assert(r@ =~= s@);
    r
}

/// A string holding exactly the characters of `v`, in order.
pub fn chars_to_string(v: &Vec<char>) -> (s: String)
    ensures
        s@ == v@,
{
    let mut s = String::new();
    let mut i: usize = 0;
    while i < v.len()
        invariant
            i <= v@.len(),
            s@ == v@.subrange(0, i as int),
        decreases v@.len() - i,
    {
        push_char(&mut s, v[i]);
        assert(s@ =~= v@.subrange(0, i + 1));
        i += 1;
    }
    assert(s@ =~= v@);
    s
}

/// Character-for-character equality of two string slices.
pub fn str_eq(a: &str, b: &str) -> (r: bool)
    ensures
        r == (a@ == b@),
{
    let na = a.unicode_len();
    let nb = b.unicode_len();
    if na != nb {
        return false;
    }
    let mut i: usize = 0;
    while i < na
        invariant
            i <= na,
            na == a@.len(),
            na == b@.len(),
            forall|j: int| 0 <= j < i ==> a@[j] == b@[j],
        decreases na - i,
    {
        if a.get_char(i) != b.get_char(i) {
            return false;
        }
        i += 1;
    }
    assert(a@ =~= b@);
    true
}

/// The needle `n` occurs in `h` starting at position `i`.
pub open spec fn match_at(h: Seq<char>, n: Seq<char>, i: int) -> bool {
    0 <= i && i + n.len() <= h.len() && h.subrange(i, i + n.len() as int) == n
}

/// The needle occurs somewhere at or after position `from`.
pub open spec fn contains_from(h: Seq<char>, n: Seq<char>, from: int) -> bool {
    exists|i: int| from <= i && match_at(h, n, i)
}

/// The needle occurs somewhere in the haystack.
pub open spec fn contains_seq(h: Seq<char>, n: Seq<char>) -> bool {
    contains_from(h, n, 0)
}

/// The position of the first occurrence of `n` in `h` at or after `from`.
pub open spec fn spec_find_from(h: Seq<char>, n: Seq<char>, from: int) -> Option<int>
    decreases h.len() - from,
{
    if from < 0 || from + n.len() > h.len() {
        None
    } else if n.len() == 0 {
        Some(from)
    } else if match_at(h, n, from) {
        Some(from)
    } else {
        spec_find_from(h, n, from + 1)
    }
}

fn match_at_exec(h: &Vec<char>, n: &Vec<char>, i: usize) -> (r: bool)
    requires
        i + n@.len() <= h@.len(),
    ensures
        r == match_at(h@, n@, i as int),
{
    let hlen = h.len();
    let mut k: usize = 0;
    while k < n.len()
        invariant
            k <= n@.len(),
            i + n@.len() <= h@.len(),
            hlen == h@.len(),
            forall|j: int| 0 <= j < k ==> h@[i + j] == n@[j],
        decreases n@.len() - k,
    {
        if h[i + k] != n[k] {
            assert(h@.subrange(i as int, i + n@.len() as int)[k as int] != n@[k as int]);
            return false;
        }
        k += 1;
    }
    assert(h@.subrange(i as int, i + n@.len() as int) =~= n@);
    true
}

/// Finds the first occurrence of `n` in `h` at or after `from`.
pub fn find_from(h: &Vec<char>, n: &Vec<char>, from: usize) -> (r: Option<usize>)
    ensures
        match r {
            Some(i) => from <= i && match_at(h@, n@, i as int) && spec_find_from(
                h@,
                n@,
                from as int,
            ) == Some(i as int),
            None => spec_find_from(h@, n@, from as int) is None && forall|j: int|
                from <= j ==> !match_at(h@, n@, j),
        },
{
    if n.len() > h.len() {
        return None;
    }
    let last = h.len() - n.len();
    if from > last {
        return None;
    }
    let mut i: usize = from;
    loop
        invariant
            from <= i <= last,
            last + n@.len() == h@.len(),
            n@.len() <= h@.len(),
            spec_find_from(h@, n@, from as int) == spec_find_from(h@, n@, i as int),
            forall|j: int| from <= j < i ==> !match_at(h@, n@, j),
        decreases last - i,
    {
        if match_at_exec(h, n, i) {
            return Some(i);
        }
        proof {
            if n@.len() == 0 {
                assert(h@.subrange(i as int, i as int) =~= n@);
            }
        }
        if i == last {
            assert(forall|j: int| j > last ==> !match_at(h@, n@, j));
            return None;
        }
        i += 1;
    }
}

/// Whether `v` begins with the prefix `p`.
pub fn starts_with_chars(v: &Vec<char>, p: &Vec<char>) -> (r: bool)
    ensures
        r == (v@.len() >= p@.len() && v@.subrange(0, p@.len() as int) == p@),
{
    if p.len() > v.len() {
        return false;
    }
    match_at_exec(v, p, 0)
}

/// Whether `n` occurs anywhere in `h`.
pub fn contains_exec(h: &Vec<char>, n: &Vec<char>) -> (r: bool)
    ensures
        r == contains_seq(h@, n@),
{
    match find_from(h, n, 0) {
        Some(i) => {
            assert(contains_seq(h@, n@));
            true
        },
        None => false,
    }
}

/// Whether the string `s` contains the string `n`.
pub fn str_contains(s: &str, n: &str) -> (r: bool)
    ensures
        r == contains_seq(s@, n@),
{
    let hv = str_to_chars(s);
    let nv = str_to_chars(n);
    contains_exec(&hv, &nv)
}

/// Finding in a suffix is finding in the whole, shifted.
pub proof fn lemma_find_shift(h: Seq<char>, n: Seq<char>, k: int, from: int)
    requires
        0 <= k <= h.len(),
        0 <= from,
    ensures
        spec_find_from(h.skip(k), n, from) == (match spec_find_from(h, n, k + from) {
            Some(i) => Some(i - k),
            None => None::<int>,
        }),
    decreases h.len() - (k + from),
{
    let hs = h.skip(k);
    if from + n.len() > hs.len() {
        assert(k + from + n.len() > h.len());
    } else {
        assert(hs.subrange(from, from + n.len() as int) =~= h.subrange(
            k + from,
            k + from + n.len() as int,
        ));
        if n.len() == 0 {
        } else if match_at(hs, n, from) {
            assert(match_at(h, n, k + from));
        } else {
            assert(!match_at(h, n, k + from));
            lemma_find_shift(h, n, k, from + 1);
        }
    }
}

/// A found occurrence lies at or after `from`, fits inside the haystack,
/// and (for a non-empty needle) actually matches there.
pub proof fn lemma_find_from_bounds(h: Seq<char>, n: Seq<char>, from: int)
    ensures
        match spec_find_from(h, n, from) {
            Some(i) => from <= i && i + n.len() <= h.len() && (n.len() > 0 ==> match_at(
                h,
                n,
                i,
            )),
            None => true,
        },
    decreases h.len() - from,
{
    if from < 0 || from + n.len() > h.len() {
    } else if n.len() == 0 {
    } else if match_at(h, n, from) {
    } else {
        lemma_find_from_bounds(h, n, from + 1);
    }
}

/// Filtering a singleton keeps or drops its one element.
pub proof fn lemma_filter_single(x: Seq<char>, pred: spec_fn(Seq<char>) -> bool)
    ensures
        seq![x].filter(pred) == (if pred(x) {
            seq![x]
        } else {
            Seq::<Seq<char>>::empty()
        }),
{
    reveal_with_fuel(Seq::<_>::filter, 2);
    assert(seq![x].drop_last() =~= Seq::<Seq<char>>::empty());
    if pred(x) {
        assert(Seq::<Seq<char>>::empty().push(x) =~= seq![x]);
        assert(seq![x].filter(pred) =~= seq![x]);
    } else {
        assert(seq![x].filter(pred) =~= Seq::<Seq<char>>::empty());
    }
}

/// Equality of a character vector with the characters of a string slice.
pub fn chars_eq_str(v: &Vec<char>, s: &str) -> (r: bool)
    ensures
        r == (v@ == s@),
{
    let n = s.unicode_len();
    if v.len() != n {
        return false;
    }
    let mut i: usize = 0;
    while i < n
        invariant
            i <= n,
            n == s@.len(),
            n == v@.len(),
            forall|j: int| 0 <= j < i ==> v@[j] == s@[j],
        decreases n - i,
    {
        if v[i] != s.get_char(i) {
            return false;
        }
        i += 1;
    }
    assert(v@ =~= s@);
    true
}

/// The position of the last occurrence of `c` in `h` strictly before `end`.
pub open spec fn spec_rfind_before(h: Seq<char>, c: char, end: int) -> Option<int>
    decreases end,
{
    if end <= 0 || end > h.len() {
        None
    } else if h[end - 1] == c {
        Some(end - 1)
    } else {
        spec_rfind_before(h, c, end - 1)
    }
}

/// Finds the last occurrence of `c` in `h` strictly before `end`.
pub fn rfind_before(h: &Vec<char>, c: char, end: usize) -> (r: Option<usize>)
    requires
        end <= h@.len(),
    ensures
        match r {
            Some(i) => i < end && h@[i as int] == c && spec_rfind_before(h@, c, end as int)
                == Some(i as int),
            None => spec_rfind_before(h@, c, end as int) is None,
        },
{
    let mut e = end;
    while e > 0
        invariant
            e <= end <= h@.len(),
            spec_rfind_before(h@, c, end as int) == spec_rfind_before(h@, c, e as int),
        decreases e,
    {
        if h[e - 1] == c {
            return Some(e - 1);
        }
        e -= 1;
    }
    None
}

/// Whether a character counts as trimmable whitespace: the characters with
/// the Unicode white-space property (tab through carriage return, space,
/// next line, no-break space, ogham space mark, the typographic spaces,
/// the line and paragraph separators, and the narrow, medium and
/// ideographic spaces).
pub open spec fn spec_is_space(c: char) -> bool {
    let u = c as u32;
    (9 <= u && u <= 13) || u == 0x20 || u == 0x85 || u == 0xA0 || u == 0x1680 || (0x2000 <= u
        && u <= 0x200A) || u == 0x2028 || u == 0x2029 || u == 0x202F || u == 0x205F || u == 0x3000
}

/// `s` with its leading whitespace removed.
pub open spec fn spec_trim_start(s: Seq<char>) -> Seq<char>
    decreases s.len(),
{
    if s.len() > 0 && spec_is_space(s[0]) {
        spec_trim_start(s.drop_first())
    } else {
        s
    }
}

/// `s` with its trailing whitespace removed.
pub open spec fn spec_trim_end(s: Seq<char>) -> Seq<char>
    decreases s.len(),
{
    if s.len() > 0 && spec_is_space(s[s.len() - 1]) {
        spec_trim_end(s.drop_last())
    } else {
        s
    }
}

/// `s` with whitespace removed from both ends.
pub open spec fn spec_trim(s: Seq<char>) -> Seq<char> {
    spec_trim_end(spec_trim_start(s))
}

proof fn lemma_trim_start_skip(s: Seq<char>, k: int)
    requires
        0 <= k <= s.len(),
        forall|j: int| 0 <= j < k ==> spec_is_space(s[j]),
    ensures
        spec_trim_start(s) == spec_trim_start(s.skip(k)),
    decreases k,
{
    if k > 0 {
        assert(spec_is_space(s[0]));
        assert(s.drop_first() =~= s.skip(1));
        lemma_trim_start_skip(s.skip(1), k - 1);
        assert(s.skip(1).skip(k - 1) =~= s.skip(k));
    } else {
        assert(s.skip(0) =~= s);
    }
}

proof fn lemma_trim_end_take(s: Seq<char>, k: int)
    requires
        0 <= k <= s.len(),
        forall|j: int| k <= j < s.len() ==> spec_is_space(s[j]),
    ensures
        spec_trim_end(s) == spec_trim_end(s.take(k)),
    decreases s.len() - k,
{
    if k < s.len() {
        assert(spec_is_space(s[s.len() - 1]));
        assert(s.drop_last() =~= s.take(s.len() - 1));
        lemma_trim_end_take(s.take(s.len() - 1), k);
        assert(s.take(s.len() - 1).take(k) =~= s.take(k));
    } else {
        assert(s.take(k) =~= s);
    }
}

fn is_space_exec(c: char) -> (r: bool)
    ensures
        r == spec_is_space(c),
{
    let u = c as u32;
    (9 <= u && u <= 13) || u == 0x20 || u == 0x85 || u == 0xA0 || u == 0x1680 || (0x2000 <= u
        && u <= 0x200A) || u == 0x2028 || u == 0x2029 || u == 0x202F || u == 0x205F || u == 0x3000
}

/// A copy of the characters of `v` between `from` and `to`.
pub fn subrange_chars(v: &Vec<char>, from: usize, to: usize) -> (r: Vec<char>)
    requires
        from <= to <= v@.len(),
    ensures
        r@ == v@.subrange(from as int, to as int),
{
    let mut r: Vec<char> = Vec::new();
    let mut i = from;
    while i < to
        invariant
            from <= i <= to <= v@.len(),
            r@ == v@.subrange(from as int, i as int),
        decreases to - i,
    {
        r.push(v[i]);
        assert(r@ =~= v@.subrange(from as int, i + 1));
        i += 1;
    }
    r
}

/// The characters of `v` with whitespace removed from both ends.
pub fn trim_chars(v: &Vec<char>) -> (r: Vec<char>)
    ensures
        r@ == spec_trim(v@),
{
    let n = v.len();
    let mut lo: usize = 0;
    while lo < n && is_space_exec(v[lo])
        invariant
            lo <= n,
            n == v@.len(),
            forall|j: int| 0 <= j < lo ==> spec_is_space(v@[j]),
        decreases n - lo,
    {
        lo += 1;
    }
    if lo == n {
        proof {
            lemma_trim_start_skip(v@, n as int);
            assert(v@.skip(n as int) =~= Seq::<char>::empty());
        }
        return Vec::new();
    }
    let mut hi: usize = n;
    while hi > lo + 1 && is_space_exec(v[hi - 1])
        invariant
            lo < hi <= n,
            n == v@.len(),
            !spec_is_space(v@[lo as int]),
            forall|j: int| hi <= j < n ==> spec_is_space(v@[j]),
        decreases hi,
    {
        hi -= 1;
    }
    proof {
        lemma_trim_start_skip(v@, lo as int);
        let t = v@.skip(lo as int);
        assert(t[0] == v@[lo as int]);
        assert(spec_trim_start(t) == t);
        assert(forall|j: int| hi - lo <= j < t.len() ==> spec_is_space(t[j]));
        lemma_trim_end_take(t, hi - lo);
        assert(t.take(hi - lo)[hi - lo - 1] == v@[hi - 1]);
        assert(spec_trim_end(t.take(hi - lo)) == t.take(hi - lo));
        assert(t.take(hi - lo) =~= v@.subrange(lo as int, hi as int));
    }
    subrange_chars(v, lo, hi)
}

/// Every occurrence of `pat` (leftmost first, non-overlapping) replaced by `to`.
pub open spec fn spec_replace(s: Seq<char>, pat: Seq<char>, to: Seq<char>) -> Seq<char>
    decreases s.len(),
{
    if pat.len() == 0 || s.len() < pat.len() {
        s
    } else if s.subrange(0, pat.len() as int) == pat {
        to + spec_replace(s.skip(pat.len() as int), pat, to)
    } else {
        seq![s[0]] + spec_replace(s.skip(1), pat, to)
    }
}

/// Replaces every non-overlapping occurrence of `pat` in `s` by `to`,
/// scanning left to right.
pub fn replace_chars(s: &Vec<char>, pat: &Vec<char>, to: &Vec<char>) -> (r: Vec<char>)
    requires
        pat@.len() > 0,
    ensures
        r@ == spec_replace(s@, pat@, to@),
{
    let mut r: Vec<char> = Vec::new();
    proof {
        assert(s@.skip(0) =~= s@);
        assert(Seq::<char>::empty() + spec_replace(s@, pat@, to@) =~= spec_replace(
            s@,
            pat@,
            to@,
        ));
    }
    let mut i: usize = 0;
    while i < s.len()
        invariant
            i <= s@.len(),
            pat@.len() > 0,
            spec_replace(s@, pat@, to@) == r@ + spec_replace(s@.skip(i as int), pat@, to@),
        decreases s@.len() - i,
    {
        let ghost prev = r@;
        let ghost rest = s@.skip(i as int);
        if pat.len() <= s.len() - i && match_at_exec(s, pat, i) {
            let mut k: usize = 0;
            while k < to.len()
                invariant
                    k <= to@.len(),
                    r@ == prev + to@.subrange(0, k as int),
                decreases to@.len() - k,
            {
                r.push(to[k]);
                assert(r@ =~= prev + to@.subrange(0, k + 1));
                k += 1;
            }
            assert(r@ =~= prev + to@);
            proof {
                assert(rest.subrange(0, pat@.len() as int) =~= s@.subrange(
                    i as int,
                    i + pat@.len(),
                ));
                assert(rest.skip(pat@.len() as int) =~= s@.skip(i + pat@.len()));
                assert(spec_replace(rest, pat@, to@) == to@ + spec_replace(
                    s@.skip(i + pat@.len()),
                    pat@,
                    to@,
                ));
                assert(prev + (to@ + spec_replace(s@.skip(i + pat@.len()), pat@, to@)) =~= (prev
                    + to@) + spec_replace(s@.skip(i + pat@.len()), pat@, to@));
            }
            i += pat.len();
        } else {
            r.push(s[i]);
            proof {
                assert(rest.len() >= 1 && rest[0] == s@[i as int]);
                if rest.len() >= pat@.len() {
                    if rest.subrange(0, pat@.len() as int) == pat@ {
                        assert(match_at(s@, pat@, i as int)) by {
                            assert(s@.subrange(i as int, i + pat@.len()) =~= rest.subrange(
                                0,
                                pat@.len() as int,
                            ));
                        }
                        assert(false);
                    }
                }
                assert(spec_replace(rest, pat@, to@) == seq![s@[i as int]] + spec_replace(
                    rest.skip(1),
                    pat@,
                    to@,
                ));
                assert(rest.skip(1) =~= s@.skip(i + 1));
                assert(prev + (seq![s@[i as int]] + spec_replace(s@.skip(i + 1), pat@, to@)) =~= (
                prev.push(s@[i as int])) + spec_replace(s@.skip(i + 1), pat@, to@));
            }
            i += 1;
        }
    }
    proof {
        assert(s@.skip(i as int) =~= Seq::<char>::empty());
        assert(spec_replace(Seq::<char>::empty(), pat@, to@) =~= Seq::<char>::empty());
        assert(r@ + Seq::<char>::empty() =~= r@);
    }
    r
}

/// The parts joined by `sep`.
pub open spec fn spec_join(parts: Seq<Seq<char>>, sep: Seq<char>) -> Seq<char>
    decreases parts.len(),
{
    if parts.len() == 0 {
        Seq::empty()
    } else if parts.len() == 1 {
        parts[0]
    } else {
        parts[0] + sep + spec_join(parts.drop_first(), sep)
    }
}

pub proof fn lemma_join_push(parts: Seq<Seq<char>>, x: Seq<char>, sep: Seq<char>)
    ensures
        spec_join(parts.push(x), sep) == (if parts.len() == 0 {
            x
        } else {
            spec_join(parts, sep) + sep + x
        }),
    decreases parts.len(),
{
    if parts.len() == 0 {
        assert(parts.push(x).len() == 1);
        assert(parts.push(x)[0] == x);
    } else if parts.len() == 1 {
        assert(parts.push(x)[0] == parts[0]);
        assert(parts.push(x).drop_first() =~= seq![x]);
        assert(spec_join(seq![x], sep) == x);
    } else {
        assert(parts.push(x)[0] == parts[0]);
        assert(parts.push(x).drop_first() =~= parts.drop_first().push(x));
        lemma_join_push(parts.drop_first(), x, sep);
        assert(parts[0] + sep + (spec_join(parts.drop_first(), sep) + sep + x) =~= (parts[0] + sep
            + spec_join(parts.drop_first(), sep)) + sep + x);
    }
}

} // verus!
