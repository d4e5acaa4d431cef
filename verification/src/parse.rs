//! Parsing a raw request head into the engine's request model: the
//! request line's method, target and version, and the header lines as an
//! ordered list with case-folded names.

use vstd::prelude::*;

use crate::admission::headers_views;
use crate::text::{
    chars_of, find_char_from, find_non_wsp_from, find_wsp_from, lemma_scan_char_shift, lower,
    lower_str, scan_char, scan_non_wsp, scan_wsp, spec_trim, string_from_range, trim_str,
};

verus! {

/// Method, target, version, and the headers in order of appearance with
/// lower-cased names.
pub type RequestInfo = (String, String, String, Vec<(String, String)>);

/// A line's trailing carriage return, removed.
pub open spec fn strip_cr(l: Seq<char>) -> Seq<char> {
    if l.len() > 0 && l.last() == '\r' {
        l.drop_last()
    } else {
        l
    }
}

/// The lines of a text: split at each newline, with a carriage return
/// before the newline removed; a final unterminated line is kept as it
/// stands, and a trailing newline opens no further line.
pub open spec fn spec_lines(s: Seq<char>) -> Seq<Seq<char>>
    decreases s.len(),
{
    if s.len() == 0 {
        Seq::empty()
    } else {
        let j = scan_char(s, '\n', 0);
        if 0 <= j && j < s.len() {
            seq![strip_cr(s.subrange(0, j))] + spec_lines(s.subrange(j + 1, s.len() as int))
        } else {
            seq![s]
        }
    }
}

/// The lines of a text, per `spec_lines`.
pub fn split_lines(s: &str) -> (r: Vec<String>)
    ensures
        r.deep_view() == spec_lines(s@),
{
    let v = chars_of(s);
    let n = v.len();
    let mut r: Vec<String> = Vec::new();
    let mut pos: usize = 0;
    proof {
        assert(s@.subrange(0, n as int) =~= s@);
    }
    while pos < n
        invariant
            v@ == s@,
            n == v@.len(),
            pos <= n,
            spec_lines(s@) == r.deep_view() + spec_lines(s@.subrange(pos as int, n as int)),
        decreases n - pos,
    {
        let ghost rest = s@.subrange(pos as int, n as int);
        let ghost old_dv = r.deep_view();
        let j = find_char_from(&v, '\n', pos);
        proof {
            lemma_scan_char_shift(s@, '\n', pos as int, pos as int);
            assert(scan_char(rest, '\n', 0) == j - pos);
        }
        if j == n {
            let line = string_from_range(&v, pos, n);
            assert(line@ =~= rest);
            r.push(line);
            proof {
                assert(spec_lines(rest) =~= seq![rest]);
                assert(r.deep_view() =~= old_dv.push(rest));
                assert(old_dv.push(rest) =~= old_dv + seq![rest]);
                assert(r.deep_view() + spec_lines(s@.subrange(n as int, n as int)) =~= spec_lines(
                    s@,
                ));
            }
            pos = n;
        } else {
            let ghost first = strip_cr(rest.subrange(0, j - pos));
            let line_end = if j > pos && v[j - 1] == '\r' {
                j - 1
            } else {
                j
            };
            let line = string_from_range(&v, pos, line_end);
            proof {
                assert(rest.subrange(0, j - pos) =~= s@.subrange(pos as int, j as int));
                if j > pos && s@[j - 1] == '\r' {
                    assert(rest.subrange(0, j - pos).last() == s@[j - 1]);
                    assert(rest.subrange(0, j - pos).drop_last() =~= s@.subrange(
                        pos as int,
                        j - 1,
                    ));
                    assert(line@ == first);
                } else {
                    assert(line@ == first);
                }
            }
            r.push(line);
            proof {
                assert(spec_lines(rest) == seq![first] + spec_lines(
                    rest.subrange(j - pos + 1, rest.len() as int),
                ));
                assert(rest.subrange(j - pos + 1, rest.len() as int) =~= s@.subrange(
                    j + 1,
                    n as int,
                ));
                assert(r.deep_view() =~= old_dv.push(first));
                assert(old_dv.push(first) + spec_lines(s@.subrange(j + 1, n as int)) =~= old_dv + (
                seq![first] + spec_lines(s@.subrange(j + 1, n as int))));
            }
            pos = j + 1;
        }
    }
    proof {
        assert(spec_lines(s@.subrange(n as int, n as int)) =~= Seq::<Seq<char>>::empty());
        assert(r.deep_view() + Seq::<Seq<char>>::empty() =~= r.deep_view());
    }
    r
}

/// A header line split at its first colon, both sides trimmed; a line
/// without a colon is no header.
pub open spec fn spec_parse_header(l: Seq<char>) -> Option<(Seq<char>, Seq<char>)> {
    let c = scan_char(l, ':', 0);
    if 0 <= c && c < l.len() {
        Some((spec_trim(l.subrange(0, c)), spec_trim(l.subrange(c + 1, l.len() as int))))
    } else {
        None
    }
}

/// Splits one header line into its trimmed name and value, per
/// `spec_parse_header`.
pub fn parse_header(line: &str) -> (r: Result<(String, String), &'static str>)
    ensures
        r matches Ok(kv) ==> spec_parse_header(line@) == Some((kv.0@, kv.1@)),
        r matches Err(e) ==> spec_parse_header(line@) is None && e@ == "Missing header value"@,
{
    let v = chars_of(line);
    let n = v.len();
    let c = find_char_from(&v, ':', 0);
    if c == n {
        return Err("Missing header value");
    }
    let key_raw = string_from_range(&v, 0, c);
    let val_raw = string_from_range(&v, c + 1, n);
    let key = trim_str(key_raw.as_str());
    let val = trim_str(val_raw.as_str());
    Ok((key, val))
}

/// How parsing a request head fails.
#[derive(PartialEq, Eq, Structural, Clone, Copy, Debug)]
pub enum ParseFail {
    NoRequestLine,
    NoMethod,
    NoUri,
    NoVersion,
    BadHeader,
}

/// The headers among the given lines: blank lines are skipped, each other
/// line must split at a colon, and names are folded to lower case.
pub open spec fn spec_headers(ls: Seq<Seq<char>>) -> Option<Seq<(Seq<char>, Seq<char>)>>
    decreases ls.len(),
{
    if ls.len() == 0 {
        Some(Seq::empty())
    } else {
        let t = spec_trim(ls[0]);
        let rest = spec_headers(ls.drop_first());
        if t.len() == 0 {
            rest
        } else {
            match spec_parse_header(t) {
                None => None,
                Some(kv) => match rest {
                    None => None,
                    Some(rs) => Some(seq![(lower(kv.0), kv.1)] + rs),
                },
            }
        }
    }
}

/// A parsed request head: the request line's first three
/// whitespace-separated tokens, then the headers of the remaining lines.
pub open spec fn spec_parse_request(s: Seq<char>) -> Result<
    (Seq<char>, Seq<char>, Seq<char>, Seq<(Seq<char>, Seq<char>)>),
    ParseFail,
> {
    let ls = spec_lines(s);
    if ls.len() == 0 {
        Err(ParseFail::NoRequestLine)
    } else {
        let line = ls[0];
        let a0 = scan_non_wsp(line, 0);
        if a0 >= line.len() {
            Err(ParseFail::NoMethod)
        } else {
            let b0 = scan_wsp(line, a0);
            let a1 = scan_non_wsp(line, b0);
            if a1 >= line.len() {
                Err(ParseFail::NoUri)
            } else {
                let b1 = scan_wsp(line, a1);
                let a2 = scan_non_wsp(line, b1);
                if a2 >= line.len() {
                    Err(ParseFail::NoVersion)
                } else {
                    let b2 = scan_wsp(line, a2);
                    match spec_headers(ls.drop_first()) {
                        None => Err(ParseFail::BadHeader),
                        Some(hs) => Ok(
                            (
                                line.subrange(a0, b0),
                                line.subrange(a1, b1),
                                line.subrange(a2, b2),
                                hs,
                            ),
                        ),
                    }
                }
            }
        }
    }
}

/// Whether parsing the request head fails in the given way.
pub open spec fn parse_fails_with(s: Seq<char>, f: ParseFail) -> bool {
    spec_parse_request(s) is Err && spec_parse_request(s)->Err_0 == f
}

/// Parses a raw request head, per `spec_parse_request`; each way of
/// failing is answered with its own message.
#[verifier::loop_isolation(false)]
pub fn parse_request(request: &str) -> (r: Result<RequestInfo, &'static str>)
    ensures
        spec_parse_request(request@) matches Ok(t) ==> (r matches Ok(q) && q.0@ == t.0 && q.1@
            == t.1 && q.2@ == t.2 && headers_views(q.3@) == t.3),
        parse_fails_with(request@, ParseFail::NoRequestLine) ==> (r matches Err(e) && e@
            == "Missing request line"@),
        parse_fails_with(request@, ParseFail::NoMethod) ==> (r matches Err(e) && e@
            == "Missing method"@),
        parse_fails_with(request@, ParseFail::NoUri) ==> (r matches Err(e) && e@
            == "Missing URI"@),
        parse_fails_with(request@, ParseFail::NoVersion) ==> (r matches Err(e) && e@
            == "Missing version"@),
        parse_fails_with(request@, ParseFail::BadHeader) ==> (r matches Err(e) && e@
            == "Missing header value"@),
{
    let lines = split_lines(request);
    let ghost lv = spec_lines(request@);
    let nl = lines.len();
    if nl == 0 {
        return Err("Missing request line");
    }
    proof {
        assert(lines.deep_view()[0] == lines@[0]@);
    }
    let line0 = chars_of(lines[0].as_str());
    let n0 = line0.len();
    let a0 = find_non_wsp_from(&line0, 0);
    if a0 == n0 {
        return Err("Missing method");
    }
    let b0 = find_wsp_from(&line0, a0);
    let method = string_from_range(&line0, a0, b0);
    let a1 = find_non_wsp_from(&line0, b0);
    if a1 == n0 {
        return Err("Missing URI");
    }
    let b1 = find_wsp_from(&line0, a1);
    let uri = string_from_range(&line0, a1, b1);
    let a2 = find_non_wsp_from(&line0, b1);
    if a2 == n0 {
        return Err("Missing version");
    }
    let b2 = find_wsp_from(&line0, a2);
    let version = string_from_range(&line0, a2, b2);

    let mut headers: Vec<(String, String)> = Vec::new();
    let mut i: usize = 1;
    while i < nl
        invariant
            1 <= i <= nl,
            match spec_headers(lv.skip(i as int)) {
                Some(rest) => spec_headers(lv.skip(1)) == Some(headers_views(headers@) + rest),
                None => spec_headers(lv.skip(1)) is None,
            },
        decreases nl - i,
    {
        proof {
            assert(lv.skip(i as int)[0] == lv[i as int]);
            assert(lv.skip(i as int).drop_first() =~= lv.skip(i as int + 1));
            assert(lines.deep_view()[i as int] == lines@[i as int]@);
        }
        let ghost hv_old = headers_views(headers@);
        let t = trim_str(lines[i].as_str());
        if t.unicode_len() > 0 {
            match parse_header(t.as_str()) {
                Ok(kv) => {
                    let key = lower_str(kv.0.as_str());
                    headers.push((key, kv.1));
                    proof {
                        let ghost entry = (lower(spec_parse_header(t@)->Some_0.0), spec_parse_header(
                            t@,
                        )->Some_0.1);
                        assert(headers_views(headers@) =~= hv_old.push(entry));
                        if spec_headers(lv.skip(i as int + 1)) is Some {
                            let rest2 = spec_headers(lv.skip(i as int + 1))->Some_0;
                            assert(hv_old.push(entry) + rest2 =~= hv_old + (seq![entry] + rest2));
                        }
                    }
                },
                Err(_) => {
                    return Err("Missing header value");
                },
            }
        }
        i = i + 1;
    }
    proof {
        assert(lv.skip(nl as int) =~= Seq::<Seq<char>>::empty());
        assert(headers_views(headers@) + Seq::<(Seq<char>, Seq<char>)>::empty() =~= headers_views(
            headers@,
        ));
    }
    Ok((method, uri, version, headers))
}

} // verus!
