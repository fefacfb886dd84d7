//! Route dispatch: a parsed request is matched against the fixed route
//! table, in priority order, and becomes either a finished response or
//! a file action for the caller to carry out.  The caller reports the
//! action's outcome back and receives the response that belongs to it.

use vstd::prelude::*;
use crate::ascii::{
    echo_prefix, echo_prefix_bytes, files_prefix, files_prefix_bytes, method_get,
    method_get_bytes, method_post, method_post_bytes, root_path, root_path_bytes,
    ua_route_prefix, ua_route_prefix_bytes,
};
use crate::request::{
    parse_request, parse_spec, parse_user_agent, user_agent_of, ParseError, ReqView, Request,
};
use crate::response::{
    empty_response, empty_response_spec, octet_response, octet_response_spec, text_response,
    text_response_spec, RespView, Response, StatusCode,
};
use crate::text::{bytes_eq, has_prefix, push_all, starts_with, subvec, trim_nul, trim_nul_exec};

verus! {

/// What handling a request comes to: a finished response, or one file
/// action whose outcome decides the response.  The file paths are the
/// serving directory with the request's name appended; the contents of
/// a write are the request's last raw line without its NUL padding.
pub enum Action {
    Reply(Response),
    ReadFile(Vec<u8>),
    WriteFile(Vec<u8>, Vec<u8>),
}

/// The mathematical shape of an action.
pub enum ActionView {
    Reply(RespView),
    ReadFile(Seq<u8>),
    WriteFile(Seq<u8>, Seq<u8>),
}

impl View for Action {
    type V = ActionView;

    open spec fn view(&self) -> ActionView {
        match self {
            Action::Reply(r) => ActionView::Reply(r@),
            Action::ReadFile(p) => ActionView::ReadFile(p@),
            Action::WriteFile(p, c) => ActionView::WriteFile(p@, c@),
        }
    }
}

/// The route table, first match wins: an echo path answers with what
/// follows the prefix; a user-agent path answers with the request's
/// User-Agent value; a file path becomes a read or a write of the
/// named file under the serving directory, and any method there other
/// than GET and POST is refused; the bare root answers 200 with no
/// body; everything else is 404.
pub open spec fn route_spec(req: ReqView, dir: Seq<u8>) -> ActionView {
    if has_prefix(req.path, echo_prefix()) {
        ActionView::Reply(text_response_spec(req.path.skip(echo_prefix().len() as int)))
    } else if has_prefix(req.path, ua_route_prefix()) {
        ActionView::Reply(text_response_spec(user_agent_of(req.header_lines)))
    } else if has_prefix(req.path, files_prefix()) {
        let target = dir + req.path.skip(files_prefix().len() as int);
        if req.method == method_get() {
            ActionView::ReadFile(target)
        } else if req.method == method_post() {
            ActionView::WriteFile(target, trim_nul(req.raw_lines.last()))
        } else {
            ActionView::Reply(empty_response_spec(StatusCode::BadRequest))
        }
    } else if req.path == root_path() {
        ActionView::Reply(empty_response_spec(StatusCode::Success))
    } else {
        ActionView::Reply(empty_response_spec(StatusCode::NotFound))
    }
}

/// Dispatches a parsed request, as `route_spec` describes.  The path
/// of a file action is the plain concatenation of the serving
/// directory and the request's name; nothing in the name is screened,
/// so a caller serving untrusted requests must not hand the path to
/// the filesystem without deciding its own policy on separators and
/// parent references.
pub fn route_request(req: &Request, dir: &Vec<u8>) -> (a: Action)
    requires
        req@.raw_lines.len() > 0,
    ensures
        a@ == route_spec(req@, dir@),
{
    let echo = echo_prefix_bytes();
    let ua = ua_route_prefix_bytes();
    let files = files_prefix_bytes();
    let root = root_path_bytes();
    if starts_with(&req.path, &echo) {
        let body = subvec(&req.path, echo.len(), req.path.len());
        proof {
            assert(body@ =~= req@.path.skip(echo_prefix().len() as int));
        }
        Action::Reply(text_response(body))
    } else if starts_with(&req.path, &ua) {
        let value = parse_user_agent(&req.header_lines);
        Action::Reply(text_response(value))
    } else if starts_with(&req.path, &files) {
        let mut target = subvec(dir, 0, dir.len());
        proof {
            assert(target@ =~= dir@);
        }
        let name = subvec(&req.path, files.len(), req.path.len());
        proof {
            assert(name@ =~= req@.path.skip(files_prefix().len() as int));
        }
        push_all(&mut target, &name);
        let get = method_get_bytes();
        let post = method_post_bytes();
        if bytes_eq(&req.method, &get) {
            Action::ReadFile(target)
        } else if bytes_eq(&req.method, &post) {
            let last = req.raw_lines.len() - 1;
            proof {
                assert(req.raw_lines@[last as int]@ == req@.raw_lines.last());
            }
            let contents = trim_nul_exec(&req.raw_lines[last]);
            Action::WriteFile(target, contents)
        } else {
            Action::Reply(empty_response(StatusCode::BadRequest))
        }
    } else if bytes_eq(&req.path, &root) {
        Action::Reply(empty_response(StatusCode::Success))
    } else {
        Action::Reply(empty_response(StatusCode::NotFound))
    }
}

/// What one request text comes to, parsing included: a request that
/// cannot be parsed is answered 400 before any routing.
pub open spec fn action_spec(text: Seq<u8>, dir: Seq<u8>) -> ActionView {
    match parse_spec(text) {
        Ok(req) => route_spec(req, dir),
        Err(_) => ActionView::Reply(empty_response_spec(StatusCode::BadRequest)),
    }
}

/// Parses and dispatches one request text, as `action_spec` describes.
pub fn text_action(text: &Vec<u8>, dir: &Vec<u8>) -> (a: Action)
    ensures
        a@ == action_spec(text@, dir@),
{
    match parse_request(text) {
        Ok(req) => route_request(&req, dir),
        Err(_) => Action::Reply(empty_response(StatusCode::BadRequest)),
    }
}

/// Whether every byte of `s` is plain ASCII.
pub open spec fn is_ascii_bytes(s: Seq<u8>) -> bool {
    forall|i: int| 0 <= i < s.len() ==> s[i] < 128
}

/// The UTF-8 decoding of `b` with invalid sequences replaced, itself
/// written back as UTF-8 bytes.
pub uninterp spec fn lossy_decoded(b: Seq<u8>) -> Seq<u8>;

/// Relies on `String::from_utf8_lossy`: the decoding is a function of
/// the bytes alone, and bytes that are valid UTF-8 already — so in
/// particular pure ASCII — come back unchanged.
#[verifier::external_body]
fn decode_lossy(buf: &Vec<u8>) -> (r: Vec<u8>)
    ensures
        r@ == lossy_decoded(buf@),
        is_ascii_bytes(buf@) ==> r@ == buf@,
{
    String::from_utf8_lossy(buf.as_slice()).into_owned().into_bytes()
}

/// Handles the raw bytes read from one connection: they are decoded as
/// UTF-8 with lossy replacement, parsed and dispatched.  On an ASCII
/// buffer — every request the protocol itself produces — the decoding
/// changes nothing and the action is pinned down exactly.
pub fn request_action(buf: &Vec<u8>, dir: &Vec<u8>) -> (a: Action)
    ensures
        a@ == action_spec(lossy_decoded(buf@), dir@),
        is_ascii_bytes(buf@) ==> a@ == action_spec(buf@, dir@),
{
    let text = decode_lossy(buf);
    text_action(&text, dir)
}

/// How the caller's attempt to read the named file ended.
pub enum FileReadOutcome {
    Found(Vec<u8>),
    Missing,
    ReadFailed,
}

/// How the caller's attempt to store the named file ended.
pub enum FileWriteOutcome {
    Stored,
    WriteFailed,
}

/// The response to a file read: the found bytes are served whole as an
/// octet stream; a missing file is 404; a failed read is 500.
pub fn file_get_response(outcome: FileReadOutcome) -> (r: Response)
    ensures
        outcome matches FileReadOutcome::Found(c) ==> r@ == octet_response_spec(c@),
        outcome matches FileReadOutcome::Missing ==> r@ == empty_response_spec(
            StatusCode::NotFound,
        ),
        outcome matches FileReadOutcome::ReadFailed ==> r@ == empty_response_spec(
            StatusCode::ServerError,
        ),
{
    match outcome {
        FileReadOutcome::Found(content) => octet_response(content),
        FileReadOutcome::Missing => empty_response(StatusCode::NotFound),
        FileReadOutcome::ReadFailed => empty_response(StatusCode::ServerError),
    }
}

/// The response to a file write: success is 201 with no body; a failed
/// write is 500.
pub fn file_post_response(outcome: FileWriteOutcome) -> (r: Response)
    ensures
        outcome matches FileWriteOutcome::Stored ==> r@ == empty_response_spec(
            StatusCode::Created,
        ),
        outcome matches FileWriteOutcome::WriteFailed ==> r@ == empty_response_spec(
            StatusCode::ServerError,
        ),
{
    match outcome {
        FileWriteOutcome::Stored => empty_response(StatusCode::Created),
        FileWriteOutcome::WriteFailed => empty_response(StatusCode::ServerError),
    }
}

} // verus!
