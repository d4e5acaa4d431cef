//! Wildcard matching of a requested host against allow-list patterns.
//!
//! A pattern matches a whole string: `*` stands for any run of characters,
//! including none, and `?` stands for exactly one character. All other
//! characters match only themselves, case-sensitively.

use vstd::prelude::*;

use crate::text::str_views;

verus! {

/// Standard glob semantics: `*` matches any run of characters and `?`
/// matches exactly one.
pub open spec fn glob_match(p: Seq<char>, s: Seq<char>) -> bool
    decreases p.len() + s.len(),
{
    if p.len() == 0 {
        s.len() == 0
    } else if p[0] == '*' {
        glob_match(p.skip(1), s) || (s.len() > 0 && glob_match(p, s.skip(1)))
    } else if s.len() == 0 {
        false
    } else {
        (p[0] == '?' || p[0] == s[0]) && glob_match(p.skip(1), s.skip(1))
    }
}

fn glob_step(p: &Vec<char>, s: &Vec<char>, i: usize, j: usize) -> (r: bool)
    requires
        i <= p@.len(),
        j <= s@.len(),
    ensures
        r == glob_match(p@.skip(i as int), s@.skip(j as int)),
    decreases p@.len() - i + s@.len() - j,
{
    proof {
        assert(p@.skip(i as int).len() == p@.len() - i);
        assert(s@.skip(j as int).len() == s@.len() - j);
        if i < p@.len() {
            assert(p@.skip(i as int)[0] == p@[i as int]);
            assert(p@.skip(i as int).skip(1) =~= p@.skip(i as int + 1));
        }
        if j < s@.len() {
            assert(s@.skip(j as int)[0] == s@[j as int]);
            assert(s@.skip(j as int).skip(1) =~= s@.skip(j as int + 1));
        }
    }
    if i == p.len() {
        j == s.len()
    } else if p[i] == '*' {
        if glob_step(p, s, i + 1, j) {
            true
        } else if j < s.len() {
            glob_step(p, s, i, j + 1)
        } else {
            false
        }
    } else if j == s.len() {
        false
    } else if p[i] == '?' || p[i] == s[j] {
        glob_step(p, s, i + 1, j + 1)
    } else {
        false
    }
}

/// Whether `pattern` matches the whole of `text` under glob semantics.
pub fn wild_match(pattern: &str, text: &str) -> (r: bool)
    ensures
        r == glob_match(pattern@, text@),
{
    let p = crate::text::chars_of(pattern);
    let s = crate::text::chars_of(text);
    let r = glob_step(&p, &s, 0, 0);
    assert(p@.skip(0) =~= p@);
    assert(s@.skip(0) =~= s@);
    r
}

/// A pattern without wildcards matches exactly the literal string it
/// spells, and nothing else.
pub proof fn lemma_literal_pattern_matches_only_itself(p: Seq<char>, s: Seq<char>)
    requires
        forall|i: int| 0 <= i < p.len() ==> p[i] != '*' && p[i] != '?',
    ensures
        glob_match(p, s) <==> p == s,
    decreases p.len(),
{
    if p.len() == 0 {
        if s.len() == 0 {
            assert(p =~= s);
        }
    } else if s.len() > 0 {
        assert forall|i: int| 0 <= i < p.skip(1).len() implies p.skip(1)[i] != '*' && p.skip(1)[i]
            != '?' by {
            assert(p.skip(1)[i] == p[i + 1]);
        }
        lemma_literal_pattern_matches_only_itself(p.skip(1), s.skip(1));
        if glob_match(p, s) {
            assert(p[0] == s[0] && p.skip(1) == s.skip(1));
            assert forall|i: int| 0 <= i < p.len() implies p[i] == s[i] by {
                if i > 0 {
                    assert(p.skip(1)[i - 1] == p[i]);
                    assert(s.skip(1)[i - 1] == s[i]);
                }
            }
            assert(p =~= s);
        }
        if p == s {
            assert(p.skip(1) =~= s.skip(1));
            assert(glob_match(p, s));
        }
    }
}

/// A pattern of a leading `*` followed by wildcard-free characters
/// matches exactly the strings ending in those characters — so
/// `*.example.com` admits every proper subdomain and not the bare domain.
pub proof fn lemma_star_literal_pattern_matches_suffixes(q: Seq<char>, s: Seq<char>)
    requires
        forall|i: int| 0 <= i < q.len() ==> q[i] != '*' && q[i] != '?',
    ensures
        glob_match(seq!['*'] + q, s) <==> (q.len() <= s.len() && s.subrange(
            s.len() - q.len(),
            s.len() as int,
        ) == q),
    decreases s.len(),
{
    let p = seq!['*'] + q;
    assert(p[0] == '*');
    assert(p.skip(1) =~= q);
    lemma_literal_pattern_matches_only_itself(q, s);
    if s.len() > 0 {
        lemma_star_literal_pattern_matches_suffixes(q, s.skip(1));
        if q.len() <= s.len() - 1 {
            assert(s.skip(1).subrange(s.len() - 1 - q.len(), s.len() - 1) =~= s.subrange(
                s.len() - q.len(),
                s.len() as int,
            ));
        }
    }
    if glob_match(p, s) {
        if glob_match(q, s) {
            assert(s.subrange(s.len() - q.len(), s.len() as int) =~= q);
        }
    }
    if q.len() <= s.len() && s.subrange(s.len() - q.len(), s.len() as int) == q {
        if q.len() == s.len() {
            assert(q =~= s);
            assert(glob_match(q, s));
        }
    }
}

/// Whether `host` matches at least one pattern of the set.
pub open spec fn matches_any(patterns: Seq<Seq<char>>, host: Seq<char>) -> bool {
    exists|k: int| 0 <= k < patterns.len() && glob_match(patterns[k], host)
}

/// Whether the requested host matches any allow-listed pattern. An empty
/// pattern set matches nothing here; the admission chain skips the host
/// check entirely in that case.
pub fn is_host_allowed(req_host: &str, allowed_hosts: &Vec<String>) -> (r: bool)
    ensures
        r == matches_any(str_views(allowed_hosts@), req_host@),
{
    let n = allowed_hosts.len();
    let mut i: usize = 0;
    while i < n
        invariant
            n == allowed_hosts@.len(),
            i <= n,
            forall|k: int|
                0 <= k < i ==> !glob_match(#[trigger] str_views(allowed_hosts@)[k], req_host@),
        decreases n - i,
    {
        if wild_match(allowed_hosts[i].as_str(), req_host) {
            assert(glob_match(str_views(allowed_hosts@)[i as int], req_host@));
            return true;
        }
        i = i + 1;
    }
    false
}

} // verus!
