//! Character-level groundwork: whitespace classes, ASCII case folding,
//! scanning, trimming, and comparison over `Seq<char>` views.

use vstd::prelude::*;

verus! {

/// The characters `char::is_whitespace` accepts.
pub open spec fn is_wsp(c: char) -> bool {
    c == ' ' || c == '\t' || c == '\n' || c == '\u{0b}' || c == '\u{0c}' || c == '\r'
        || c == '\u{85}' || c == '\u{a0}' || c == '\u{1680}'
        || ('\u{2000}' <= c && c <= '\u{200a}')
        || c == '\u{2028}' || c == '\u{2029}' || c == '\u{202f}' || c == '\u{205f}'
        || c == '\u{3000}'
}

pub fn is_wsp_char(c: char) -> (r: bool)
    ensures
        r == is_wsp(c),
{
    let b = c as u32;
    b == 0x20 || b == 0x09 || b == 0x0a || b == 0x0b || b == 0x0c || b == 0x0d
        || b == 0x85 || b == 0xa0 || b == 0x1680
        || (0x2000 <= b && b <= 0x200a)
        || b == 0x2028 || b == 0x2029 || b == 0x202f || b == 0x205f
        || b == 0x3000
}

/// ASCII upper-case letters fold to lower case; everything else is unchanged.
pub open spec fn lower_char(c: char) -> char {
    if 'A' <= c && c <= 'Z' {
        ((c as int) + 32) as char
    } else {
        c
    }
}

/// A sequence folded character by character.
pub open spec fn lower(s: Seq<char>) -> Seq<char> {
    s.map_values(|c: char| lower_char(c))
}

pub fn lower_char_x(c: char) -> (r: char)
    ensures
        r == lower_char(c),
{
    let b = c as u32;
    if 0x41 <= b && b <= 0x5a {
        ((b + 32) as u8) as char
    } else {
        c
    }
}

/// First index at or after `i` holding a non-whitespace character, else the length.
pub open spec fn scan_non_wsp(s: Seq<char>, i: int) -> int
    decreases s.len() - i,
{
    if i >= s.len() {
        s.len() as int
    } else if !is_wsp(s[i]) {
        i
    } else {
        scan_non_wsp(s, i + 1)
    }
}

/// First index at or after `i` holding a whitespace character, else the length.
pub open spec fn scan_wsp(s: Seq<char>, i: int) -> int
    decreases s.len() - i,
{
    if i >= s.len() {
        s.len() as int
    } else if is_wsp(s[i]) {
        i
    } else {
        scan_wsp(s, i + 1)
    }
}

/// First index at or after `i` holding `c`, else the length.
pub open spec fn scan_char(s: Seq<char>, c: char, i: int) -> int
    decreases s.len() - i,
{
    if i >= s.len() {
        s.len() as int
    } else if s[i] == c {
        i
    } else {
        scan_char(s, c, i + 1)
    }
}


/// First index at or after `from` holding `c`, else the length.
pub fn find_char_from(v: &Vec<char>, c: char, from: usize) -> (r: usize)
    requires
        from <= v@.len(),
    ensures
        r == scan_char(v@, c, from as int),
        from <= r <= v@.len(),
{
    let n = v.len();
    let mut i = from;
    while i < n && v[i] != c
        invariant
            n == v@.len(),
            from <= i <= n,
            scan_char(v@, c, from as int) == scan_char(v@, c, i as int),
        decreases n - i,
    {
        i = i + 1;
    }
    i
}

/// First index at or after `from` holding a non-whitespace character, else
/// the length.
pub fn find_non_wsp_from(v: &Vec<char>, from: usize) -> (r: usize)
    requires
        from <= v@.len(),
    ensures
        r == scan_non_wsp(v@, from as int),
        from <= r <= v@.len(),
{
    let n = v.len();
    let mut i = from;
    while i < n && is_wsp_char(v[i])
        invariant
            n == v@.len(),
            from <= i <= n,
            scan_non_wsp(v@, from as int) == scan_non_wsp(v@, i as int),
        decreases n - i,
    {
        i = i + 1;
    }
    i
}

/// First index at or after `from` holding a whitespace character, else the
/// length.
pub fn find_wsp_from(v: &Vec<char>, from: usize) -> (r: usize)
    requires
        from <= v@.len(),
    ensures
        r == scan_wsp(v@, from as int),
        from <= r <= v@.len(),
{
    let n = v.len();
    let mut i = from;
    while i < n && !is_wsp_char(v[i])
        invariant
            n == v@.len(),
            from <= i <= n,
            scan_wsp(v@, from as int) == scan_wsp(v@, i as int),
        decreases n - i,
    {
        i = i + 1;
    }
    i
}

/// `scan_char` on a tail relates to `scan_char` on the whole by the
/// offset.
pub proof fn lemma_scan_char_shift(s: Seq<char>, c: char, off: int, i: int)
    requires
        0 <= off <= i <= s.len(),
    ensures
        scan_char(s, c, i) - off == scan_char(s.subrange(off, s.len() as int), c, i - off),
    decreases s.len() - i,
{
    let t = s.subrange(off, s.len() as int);
    if i < s.len() {
        assert(t[i - off] == s[i]);
        if s[i] != c {
            lemma_scan_char_shift(s, c, off, i + 1);
        }
    }
}

/// The length a sequence has once trailing whitespace is removed.
pub open spec fn trim_end_len(s: Seq<char>) -> int
    decreases s.len(),
{
    if s.len() == 0 {
        0
    } else if is_wsp(s[s.len() - 1]) {
        trim_end_len(s.drop_last())
    } else {
        s.len() as int
    }
}

/// A sequence with whitespace removed from both ends.
pub open spec fn spec_trim(s: Seq<char>) -> Seq<char> {
    let t = s.subrange(0, trim_end_len(s));
    t.subrange(scan_non_wsp(t, 0), t.len() as int)
}

/// The views of a sequence of owned strings.
pub open spec fn str_views(v: Seq<String>) -> Seq<Seq<char>> {
    v.map_values(|x: String| x@)
}

/// The characters of a string slice, in order.
pub fn chars_of(s: &str) -> (r: Vec<char>)
    ensures
        r@ == s@,
{
    let n = s.unicode_len();
    let mut r: Vec<char> = Vec::new();
    let mut i: usize = 0;
    while i < n
        invariant
            n == s@.len(),
            i <= n,
            r@ == s@.subrange(0, i as int),
        decreases n - i,
    {
        r.push(s.get_char(i));
        i = i + 1;
    }
    assert(r@ =~= s@);
    r
}

/// Relies on `String::push` of std: it appends the given character.
#[verifier::external_body]
pub fn push_char(s: &mut String, c: char)
    ensures
        final(s)@ == old(s)@.push(c),
{
    s.push(c);
}

/// A `String` holding the characters `v[from..to]`.
pub fn string_from_range(v: &Vec<char>, from: usize, to: usize) -> (r: String)
    requires
        from <= to <= v@.len(),
    ensures
        r@ == v@.subrange(from as int, to as int),
{
    let mut r = String::new();
    let mut i: usize = from;
    while i < to
        invariant
            from <= i <= to <= v@.len(),
            r@ == v@.subrange(from as int, i as int),
        decreases to - i,
    {
        push_char(&mut r, v[i]);
        assert(r@ =~= v@.subrange(from as int, i + 1));
        i = i + 1;
    }
    r
}

/// A copy of `s` with whitespace removed from both ends.
pub fn trim_str(s: &str) -> (r: String)
    ensures
        r@ == spec_trim(s@),
{
    let v = chars_of(s);
    let mut e = v.len();
    assert(s@.subrange(0, e as int) =~= s@);
    while e > 0 && is_wsp_char(v[e - 1])
        invariant
            v@ == s@,
            e <= v@.len(),
            trim_end_len(s@) == trim_end_len(s@.subrange(0, e as int)),
        decreases e,
    {
        assert(s@.subrange(0, e as int).drop_last() =~= s@.subrange(0, e - 1));
        e = e - 1;
    }
    proof {
        if e > 0 {
            assert(s@.subrange(0, e as int)[e - 1] == s@[e - 1]);
        }
        assert(trim_end_len(s@) == e);
    }
    let ghost t = s@.subrange(0, e as int);
    let mut b: usize = 0;
    while b < e && is_wsp_char(v[b])
        invariant
            v@ == s@,
            b <= e <= v@.len(),
            t == s@.subrange(0, e as int),
            scan_non_wsp(t, 0) == scan_non_wsp(t, b as int),
        decreases e - b,
    {
        assert(t[b as int] == s@[b as int]);
        b = b + 1;
    }
    proof {
        if b < e {
            assert(t[b as int] == s@[b as int]);
        }
        assert(scan_non_wsp(t, 0) == b);
    }
    let r = string_from_range(&v, b, e);
    assert(r@ =~= spec_trim(s@));
    r
}

/// A copy of `s` folded to lower case, character by character.
pub fn lower_str(s: &str) -> (r: String)
    ensures
        r@ == lower(s@),
{
    let n = s.unicode_len();
    let mut r = String::new();
    let mut i: usize = 0;
    while i < n
        invariant
            n == s@.len(),
            i <= n,
            r@ == lower(s@).subrange(0, i as int),
        decreases n - i,
    {
        push_char(&mut r, lower_char_x(s.get_char(i)));
        assert(r@ =~= lower(s@).subrange(0, i + 1));
        i = i + 1;
    }
    assert(r@ =~= lower(s@));
    r
}

/// Whether two string slices hold the same characters.
pub fn str_eq(a: &str, b: &str) -> (r: bool)
    ensures
        r == (a@ == b@),
{
    let n = a.unicode_len();
    if n != b.unicode_len() {
        return false;
    }
    let mut i: usize = 0;
    while i < n
        invariant
            n == a@.len() == b@.len(),
            i <= n,
            forall|j: int| 0 <= j < i ==> a@[j] == b@[j],
        decreases n - i,
    {
        if a.get_char(i) != b.get_char(i) {
            return false;
        }
        i = i + 1;
    }
    assert(a@ =~= b@);
    true
}

/// Whether `a`, folded to lower case, holds the same characters as `b`.
pub fn str_eq_lower(a: &str, b: &str) -> (r: bool)
    ensures
        r == (lower(a@) == b@),
{
    let n = a.unicode_len();
    if n != b.unicode_len() {
        assert(lower(a@).len() != b@.len());
        return false;
    }
    let mut i: usize = 0;
    while i < n
        invariant
            n == a@.len() == b@.len(),
            i <= n,
            forall|j: int| 0 <= j < i ==> lower_char(a@[j]) == b@[j],
        decreases n - i,
    {
        if lower_char_x(a.get_char(i)) != b.get_char(i) {
            assert(lower(a@)[i as int] != b@[i as int]);
            return false;
        }
        i = i + 1;
    }
    assert(lower(a@) =~= b@);
    true
}

/// Whether `needle` occurs inside `hay` as a contiguous run.
pub open spec fn contains_sub(hay: Seq<char>, needle: Seq<char>) -> bool {
    exists|i: int|
        0 <= i && i + needle.len() <= hay.len() && #[trigger] hay.subrange(
            i,
            i + needle.len(),
        ) == needle
}

/// Substring search; agrees with `contains_sub` on the views.
pub fn str_contains(hay: &str, needle: &str) -> (r: bool)
    ensures
        r == contains_sub(hay@, needle@),
{
    let h = chars_of(hay);
    let n = chars_of(needle);
    let hlen = h.len();
    let nlen = n.len();
    if nlen == 0 {
        assert(hay@.subrange(0, 0 + needle@.len() as int) =~= needle@);
        assert(contains_sub(hay@, needle@));
        return true;
    }
    if nlen > hlen {
        assert(!contains_sub(hay@, needle@));
        return false;
    }
    let last = hlen - nlen;
    let mut i: usize = 0;
    loop
        invariant
            h@ == hay@,
            n@ == needle@,
            hlen == h@.len(),
            nlen == n@.len(),
            0 < nlen <= hlen,
            last == hlen - nlen,
            i <= last + 1,
            forall|k: int| 0 <= k < i ==> #[trigger] h@.subrange(k, k + n@.len()) != needle@,
        decreases last + 1 - i,
    {
        if i > last {
            assert(!contains_sub(hay@, needle@));
            return false;
        }
        let mut j: usize = 0;
        let mut matched = true;
        while j < nlen && matched
            invariant
                h@ == hay@,
                n@ == needle@,
                hlen == h@.len(),
                nlen == n@.len(),
                i + nlen <= hlen,
                j <= nlen,
                matched ==> h@.subrange(i as int, i + j) =~= n@.subrange(0, j as int),
                !matched ==> h@.subrange(i as int, i + nlen) != needle@,
            decreases nlen - j, (if matched { 1int } else { 0int }),
        {
            if h[i + j] != n[j] {
                matched = false;
                assert(h@.subrange(i as int, i + nlen)[j as int] != needle@[j as int]);
            } else {
                assert(h@.subrange(i as int, i + (j + 1)) =~= h@.subrange(i as int, i + j).push(h@[i + j]));
                assert(n@.subrange(0, (j + 1) as int) =~= n@.subrange(0, j as int).push(n@[j as int]));
                j = j + 1;
            }
        }
        if matched {
            assert(h@.subrange(i as int, i + n@.len()) =~= n@.subrange(0, n@.len() as int));
            assert(n@.subrange(0, n@.len() as int) =~= n@);
            assert(contains_sub(hay@, needle@));
            return true;
        }
        i = i + 1;
    }
}

} // verus!
