//! The laws the route table obeys, proved once and for all requests:
//! what the echo route answers, that the file routes address one path
//! per name and refuse other methods, that nothing but a POST ever
//! writes, and that an unparsable request is refused outright.

use vstd::prelude::*;
use crate::ascii::{
    echo_prefix, files_prefix, hdr_content_length, method_get, method_post, ua_route_prefix,
};
use crate::request::{has_two_tokens, parse_spec, ParseError, ReqView};
use crate::response::{
    dec_rep, empty_response_spec, octet_response_spec, text_response_spec, StatusCode,
};
use crate::route::{action_spec, route_spec, ActionView};
use crate::text::{has_prefix, split_lines, trim_nul};

verus! {

/// A path that names a file route starts with `/files/`, so it can
/// match neither the echo route nor the user-agent route, whose
/// prefixes differ from it in their second byte.
proof fn lemma_files_path_matches_no_other(path: Seq<u8>)
    requires
        has_prefix(path, files_prefix()),
    ensures
        !has_prefix(path, echo_prefix()),
        !has_prefix(path, ua_route_prefix()),
{
    assert(path.take(files_prefix().len() as int)[1] == path[1]);
    assert(path[1] == 102);
    if has_prefix(path, echo_prefix()) {
        assert(path.take(echo_prefix().len() as int)[1] == path[1]);
    }
    if has_prefix(path, ua_route_prefix()) {
        assert(path.take(ua_route_prefix().len() as int)[1] == path[1]);
    }
}

/// For every byte string `s`, a request whose path is `/echo/`
/// followed by `s` — whatever its method, its headers and the serving
/// directory — is answered at once with status 200, body exactly `s`,
/// and a `Content-Length` of `s`'s byte length.
pub proof fn lemma_echo_answers_exactly(req: ReqView, dir: Seq<u8>, s: Seq<u8>)
    requires
        req.path == echo_prefix() + s,
    ensures
        route_spec(req, dir) == ActionView::Reply(text_response_spec(s)),
        text_response_spec(s).status == StatusCode::Success,
        text_response_spec(s).body == Some(s),
        text_response_spec(s).headers[1] == (hdr_content_length(), dec_rep(s.len())),
{
    assert(req.path.take(echo_prefix().len() as int) =~= echo_prefix());
    assert(req.path.skip(echo_prefix().len() as int) =~= s);
}

/// The echo law holds of the whole pipeline: any request text that
/// parses to an `/echo/` path is answered 200 with the path's suffix
/// as body, before any further routing or filesystem work.
pub proof fn lemma_echo_end_to_end(text: Seq<u8>, dir: Seq<u8>, req: ReqView, s: Seq<u8>)
    requires
        parse_spec(text) == Ok::<ReqView, ParseError>(req),
        req.path == echo_prefix() + s,
    ensures
        action_spec(text, dir) == ActionView::Reply(text_response_spec(s)),
{
    lemma_echo_answers_exactly(req, dir, s);
}

/// Storing under a name and fetching the same name address one and the
/// same path: the serving directory with the name appended.  The store
/// writes the request's trimmed last line there, the fetch reads from
/// there, and a fetch whose read finds bytes `c` is answered 200 with
/// body exactly `c`.  So when the filesystem hands the fetch what the
/// store wrote, the fetch returns the stored body.
pub proof fn lemma_files_round_trip(post: ReqView, get: ReqView, dir: Seq<u8>, name: Seq<u8>)
    requires
        post.method == method_post(),
        post.path == files_prefix() + name,
        get.method == method_get(),
        get.path == files_prefix() + name,
    ensures
        route_spec(post, dir) == ActionView::WriteFile(
            dir + name,
            trim_nul(post.raw_lines.last()),
        ),
        route_spec(get, dir) == ActionView::ReadFile(dir + name),
        octet_response_spec(trim_nul(post.raw_lines.last())).status == StatusCode::Success,
        octet_response_spec(trim_nul(post.raw_lines.last())).body == Some(
            trim_nul(post.raw_lines.last()),
        ),
{
    assert(post.path.take(files_prefix().len() as int) =~= files_prefix());
    assert(get.path.take(files_prefix().len() as int) =~= files_prefix());
    lemma_files_path_matches_no_other(post.path);
    lemma_files_path_matches_no_other(get.path);
    assert(post.path.skip(files_prefix().len() as int) =~= name);
    assert(get.path.skip(files_prefix().len() as int) =~= name);
    assert(post.method != method_get());
}

/// Trimming NUL padding takes nothing from a body that carries none:
/// a stored body without NUL bytes at either end — every body a
/// client sends as text — is written to the file exactly as it came,
/// so the fetch of the round trip returns precisely what was posted.
pub proof fn lemma_trim_nul_keeps_clean_body(s: Seq<u8>)
    requires
        s.len() > 0 ==> s[0] != 0 && s[s.len() - 1] != 0,
    ensures
        trim_nul(s) == s,
{
}

/// No request whose method is not POST is ever turned into a write:
/// in particular a fetch of a missing file, answered 404 by
/// `file_get_response`, leaves the filesystem exactly as it found it.
pub proof fn lemma_only_post_writes(req: ReqView, dir: Seq<u8>)
    requires
        req.method != method_post(),
    ensures
        !(route_spec(req, dir) is WriteFile),
{
}

/// A request text with no lines at all, or whose first line carries
/// fewer than two whitespace-separated tokens, is answered 400 before
/// any route is consulted.
pub proof fn lemma_malformed_is_refused(text: Seq<u8>, dir: Seq<u8>)
    requires
        split_lines(text).len() == 0 || !has_two_tokens(split_lines(text)[0]),
    ensures
        action_spec(text, dir) == ActionView::Reply(empty_response_spec(StatusCode::BadRequest)),
{
}

/// Any method other than GET and POST on a file path is refused with
/// 400.
pub proof fn lemma_files_refuse_other_methods(req: ReqView, dir: Seq<u8>)
    requires
        has_prefix(req.path, files_prefix()),
        req.method != method_get(),
        req.method != method_post(),
    ensures
        route_spec(req, dir) == ActionView::Reply(empty_response_spec(StatusCode::BadRequest)),
{
    lemma_files_path_matches_no_other(req.path);
}

} // verus!
