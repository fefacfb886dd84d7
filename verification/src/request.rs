//! The request parser: the raw bytes of one connection's read are cut
//! into lines, and the first line's whitespace-separated tokens give
//! the method and the path.  A request with no lines at all, or whose
//! first line has fewer than two tokens, is rejected; nothing else
//! (headers, version, lengths) is validated.

use vstd::prelude::*;
use crate::ascii::{ua_key_lower, ua_key_lower_bytes, ua_literal, ua_literal_bytes};
use crate::text::{
    bytes_eq, drop_tok, has_prefix, is_ws, is_ws_byte, lower, lower_byte, lemma_skip_ws_at,
    lemma_tok_at, skip_ws, split_lines, split_lines_exec, subvec, take_tok,
};

verus! {

/// Why a raw request was rejected: it held no lines at all, or its
/// first line had fewer than two whitespace-separated tokens.
#[derive(Clone, Copy, Debug, PartialEq, Eq)]
pub enum ParseError {
    EmptyRequest,
    MalformedRequestLine,
}

/// A parsed request: the first line's first two tokens, the lines
/// after the first, and every line as read.  The last raw line is
/// what a file-store request takes as its body.
pub struct Request {
    pub method: Vec<u8>,
    pub path: Vec<u8>,
    pub header_lines: Vec<Vec<u8>>,
    pub raw_lines: Vec<Vec<u8>>,
}

/// The mathematical shape of a parsed request.
pub struct ReqView {
    pub method: Seq<u8>,
    pub path: Seq<u8>,
    pub header_lines: Seq<Seq<u8>>,
    pub raw_lines: Seq<Seq<u8>>,
}

impl View for Request {
    type V = ReqView;

    open spec fn view(&self) -> ReqView {
        ReqView {
            method: self.method@,
            path: self.path@,
            header_lines: self.header_lines.deep_view(),
            raw_lines: self.raw_lines.deep_view(),
        }
    }
}

/// The first whitespace-separated token of a line.
pub open spec fn first_token(line: Seq<u8>) -> Seq<u8> {
    take_tok(skip_ws(line))
}

/// The second whitespace-separated token of a line.
pub open spec fn second_token(line: Seq<u8>) -> Seq<u8> {
    take_tok(skip_ws(drop_tok(skip_ws(line))))
}

/// Whether a line has at least two whitespace-separated tokens.
pub open spec fn has_two_tokens(line: Seq<u8>) -> bool {
    first_token(line).len() > 0 && second_token(line).len() > 0
}

/// What parsing a raw request text yields: the request, or the reason
/// it is rejected.
pub open spec fn parse_spec(text: Seq<u8>) -> Result<ReqView, ParseError> {
    let lines = split_lines(text);
    if lines.len() == 0 {
        Err(ParseError::EmptyRequest)
    } else if !has_two_tokens(lines[0]) {
        Err(ParseError::MalformedRequestLine)
    } else {
        Ok(
            ReqView {
                method: first_token(lines[0]),
                path: second_token(lines[0]),
                header_lines: lines.skip(1),
                raw_lines: lines,
            },
        )
    }
}

/// The method and path tokens of a request line, or nothing when the
/// line has fewer than two tokens.
pub fn parse_request_line(line: &Vec<u8>) -> (r: Option<(Vec<u8>, Vec<u8>)>)
    ensures
        r is Some <==> has_two_tokens(line@),
        r matches Some(mp) ==> mp.0@ == first_token(line@) && mp.1@ == second_token(line@),
{
    let n = line.len();
    let mut a: usize = 0;
    while a < n && is_ws_byte(line[a])
        invariant
            a <= n,
            n == line@.len(),
            forall|k: int| 0 <= k < a ==> is_ws(line@[k]),
        decreases n - a,
    {
        a += 1;
    }
    proof {
        lemma_skip_ws_at(line@, a as int);
    }
    let mut b: usize = a;
    while b < n && !is_ws_byte(line[b])
        invariant
            a <= b <= n,
            n == line@.len(),
            forall|k: int| a <= k < b ==> !is_ws(line@[k]),
        decreases n - b,
    {
        b += 1;
    }
    proof {
        let s1 = line@.skip(a as int);
        assert forall|k: int| 0 <= k < b - a implies !is_ws(s1[k]) by {
            assert(s1[k] == line@[a + k]);
        }
        if b < n {
            assert(s1[b - a] == line@[b as int]);
        }
        lemma_tok_at(s1, b - a);
        assert(s1.take(b - a) =~= line@.subrange(a as int, b as int));
        assert(s1.skip(b - a) =~= line@.skip(b as int));
    }
    let method = subvec(line, a, b);
    let mut c: usize = b;
    while c < n && is_ws_byte(line[c])
        invariant
            b <= c <= n,
            n == line@.len(),
            forall|k: int| b <= k < c ==> is_ws(line@[k]),
        decreases n - c,
    {
        c += 1;
    }
    proof {
        let s2 = line@.skip(b as int);
        assert forall|k: int| 0 <= k < c - b implies is_ws(s2[k]) by {
            assert(s2[k] == line@[b + k]);
        }
        if c < n {
            assert(s2[c - b] == line@[c as int]);
        }
        lemma_skip_ws_at(s2, c - b);
        assert(s2.skip(c - b) =~= line@.skip(c as int));
    }
    let mut d: usize = c;
    while d < n && !is_ws_byte(line[d])
        invariant
            c <= d <= n,
            n == line@.len(),
            forall|k: int| c <= k < d ==> !is_ws(line@[k]),
        decreases n - d,
    {
        d += 1;
    }
    proof {
        let s3 = line@.skip(c as int);
        assert forall|k: int| 0 <= k < d - c implies !is_ws(s3[k]) by {
            assert(s3[k] == line@[c + k]);
        }
        if d < n {
            assert(s3[d - c] == line@[d as int]);
        }
        lemma_tok_at(s3, d - c);
        assert(s3.take(d - c) =~= line@.subrange(c as int, d as int));
    }
    let path = subvec(line, c, d);
    if b == a || d == c {
        None
    } else {
        Some((method, path))
    }
}

/// Parses a raw request text, as `parse_spec` describes: the lines are
/// cut, the first line must carry a method and a path, and every line
/// is kept.
pub fn parse_request(text: &Vec<u8>) -> (r: Result<Request, ParseError>)
    ensures
        r matches Ok(req) ==> parse_spec(text@) == Ok::<ReqView, ParseError>(req@),
        r matches Err(e) ==> parse_spec(text@) == Err::<ReqView, ParseError>(e),
        r matches Ok(req) ==> req@.raw_lines.len() > 0,
{
    let lines = split_lines_exec(text);
    if lines.len() == 0 {
        proof {
            assert(lines.deep_view().len() == 0);
        }
        return Err(ParseError::EmptyRequest);
    }
    proof {
        assert(lines.deep_view()[0] == lines@[0]@);
    }
    match parse_request_line(&lines[0]) {
        None => Err(ParseError::MalformedRequestLine),
        Some((method, path)) => {
            let n = lines.len();
            let mut header_lines: Vec<Vec<u8>> = Vec::new();
            let mut i: usize = 1;
            while i < n
                invariant
                    1 <= i <= n,
                    n == lines@.len(),
                    header_lines.deep_view() =~~= lines.deep_view().subrange(1, i as int),
                decreases n - i,
            {
                let ghost prev = header_lines.deep_view();
                header_lines.push(lines[i].clone());
                proof {
                    assert(header_lines.deep_view() =~~= prev.push(lines@[i as int]@));
                    assert(prev.push(lines@[i as int]@) =~~= lines.deep_view().subrange(
                        1,
                        i + 1,
                    ));
                }
                i += 1;
            }
            proof {
                assert(lines.deep_view().subrange(1, n as int) =~~= lines.deep_view().skip(1));
            }
            let req = Request { method, path, header_lines, raw_lines: lines };
            Ok(req)
        },
    }
}

/// Whether a header line names the User-Agent key, compared without
/// regard to ASCII case.
pub open spec fn is_ua_line(l: Seq<u8>) -> bool {
    l.len() >= ua_key_lower().len() && l.take(ua_key_lower().len() as int).map_values(
        |b: u8| lower(b),
    ) == ua_key_lower()
}

/// The value a User-Agent line carries: what follows the literal
/// `User-Agent: ` key, or nothing when the line does not start with
/// that exact literal.
pub open spec fn ua_value(l: Seq<u8>) -> Seq<u8> {
    if has_prefix(l, ua_literal()) {
        l.skip(ua_literal().len() as int)
    } else {
        seq![]
    }
}

/// The User-Agent value of the first header line that names the key,
/// or the empty value when no line does.
pub open spec fn user_agent_of(lines: Seq<Seq<u8>>) -> Seq<u8>
    decreases lines.len(),
{
    if lines.len() == 0 {
        seq![]
    } else if is_ua_line(lines[0]) {
        ua_value(lines[0])
    } else {
        user_agent_of(lines.skip(1))
    }
}

/// Whether `l` starts, case-insensitively, with the User-Agent key.
fn is_ua_line_exec(l: &Vec<u8>) -> (r: bool)
    ensures
        r == is_ua_line(l@),
{
    let key = ua_key_lower_bytes();
    let m = key.len();
    if l.len() < m {
        return false;
    }
    let ghost folded = l@.take(m as int).map_values(|b: u8| lower(b));
    proof {
        assert(folded.len() == m);
    }
    let mut i: usize = 0;
    while i < m
        invariant
            i <= m,
            m == key@.len() <= l@.len(),
            key@ == ua_key_lower(),
            folded == l@.take(m as int).map_values(|b: u8| lower(b)),
            forall|k: int| 0 <= k < i ==> folded[k] == key@[k],
        decreases m - i,
    {
        proof {
            assert(folded[i as int] == lower(l@[i as int]));
        }
        if lower_byte(l[i]) != key[i] {
            proof {
                assert(folded[i as int] != key@[i as int]);
            }
            return false;
        }
        i += 1;
    }
    proof {
        assert(folded =~= ua_key_lower());
    }
    true
}

/// Finds the User-Agent value among the request's lines, as
/// `user_agent_of` describes: the first line naming the key,
/// case-insensitively, gives its value; a request without one yields
/// the empty value rather than failing.
pub fn parse_user_agent(lines: &Vec<Vec<u8>>) -> (r: Vec<u8>)
    ensures
        r@ == user_agent_of(lines.deep_view()),
{
    let n = lines.len();
    let ghost all = lines.deep_view();
    let mut i: usize = 0;
    proof {
        assert(all.skip(0) =~~= all);
    }
    while i < n
        invariant
            i <= n,
            n == lines@.len(),
            all == lines.deep_view(),
            user_agent_of(all) == user_agent_of(all.skip(i as int)),
        decreases n - i,
    {
        proof {
            assert(all[i as int] == lines@[i as int]@);
            assert(all.skip(i as int)[0] == all[i as int]);
        }
        if is_ua_line_exec(&lines[i]) {
            let lit = ua_literal_bytes();
            let line = &lines[i];
            if line.len() >= lit.len() {
                let mut same = true;
                let m = lit.len();
                let mut j: usize = 0;
                while j < m
                    invariant
                        j <= m,
                        m == lit@.len() <= line@.len(),
                        lit@ == ua_literal(),
                        line@ == all[i as int],
                        same <==> (forall|k: int| 0 <= k < j ==> line@[k] == lit@[k]),
                    decreases m - j,
                {
                    if line[j] != lit[j] {
                        same = false;
                    }
                    j += 1;
                }
                if same {
                    proof {
                        assert(line@.take(m as int) =~= lit@);
                        assert(has_prefix(all[i as int], ua_literal()));
                    }
                    let v = subvec(line, m, line.len());
                    proof {
                        assert(v@ =~= all[i as int].skip(ua_literal().len() as int));
                    }
                    return v;
                } else {
                    proof {
                        let k = choose|k: int| 0 <= k < m && line@[k] != lit@[k];
                        assert(line@.take(m as int)[k] != lit@[k]);
                        assert(!has_prefix(all[i as int], ua_literal()));
                        assert(ua_value(all[i as int]) =~= Seq::<u8>::empty());
                    }
                    return Vec::new();
                }
            } else {
                proof {
                    assert(!has_prefix(all[i as int], ua_literal()));
                    assert(ua_value(all[i as int]) =~= Seq::<u8>::empty());
                }
                return Vec::new();
            }
        }
        proof {
            assert(all.skip(i as int).skip(1) =~~= all.skip(i + 1));
        }
        i += 1;
    }
    proof {
        assert(all.skip(n as int).len() == 0);
    }
    Vec::new()
}

} // verus!
