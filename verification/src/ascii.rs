//! The byte strings that the protocol fixes: route prefixes, method
//! names, status lines and header names, each as a spec constant and a
//! verified executable constructor.

use vstd::prelude::*;

verus! {

/// `CRLF`: carriage return, line feed: the line terminator of every response line.
pub open spec fn crlf() -> Seq<u8> {
    seq![13, 10]
}

pub fn crlf_bytes() -> (v: Vec<u8>)
    ensures
        v@ == crlf(),
{
    let v: Vec<u8> = vec![13u8, 10];
    proof {
        assert(v@ =~= crlf());
    }
    v
}

/// `: `: the separator between a header name and its value.
pub open spec fn colon_space() -> Seq<u8> {
    seq![58, 32]
}

pub fn colon_space_bytes() -> (v: Vec<u8>)
    ensures
        v@ == colon_space(),
{
    let v: Vec<u8> = vec![58u8, 32];
    proof {
        assert(v@ =~= colon_space());
    }
    v
}

/// `/echo/`: the path prefix of the echo route.
pub open spec fn echo_prefix() -> Seq<u8> {
    seq![47, 101, 99, 104, 111, 47]
}

pub fn echo_prefix_bytes() -> (v: Vec<u8>)
    ensures
        v@ == echo_prefix(),
{
    let v: Vec<u8> = vec![47u8, 101, 99, 104, 111, 47];
    proof {
        assert(v@ =~= echo_prefix());
    }
    v
}

/// `/user-agent`: the path prefix of the user-agent route.
pub open spec fn ua_route_prefix() -> Seq<u8> {
    seq![47, 117, 115, 101, 114, 45, 97, 103, 101, 110, 116]
}

pub fn ua_route_prefix_bytes() -> (v: Vec<u8>)
    ensures
        v@ == ua_route_prefix(),
{
    let v: Vec<u8> = vec![47u8, 117, 115, 101, 114, 45, 97, 103, 101, 110, 116];
    proof {
        assert(v@ =~= ua_route_prefix());
    }
    v
}

/// `/files/`: the path prefix of the file routes.
pub open spec fn files_prefix() -> Seq<u8> {
    seq![47, 102, 105, 108, 101, 115, 47]
}

pub fn files_prefix_bytes() -> (v: Vec<u8>)
    ensures
        v@ == files_prefix(),
{
    let v: Vec<u8> = vec![47u8, 102, 105, 108, 101, 115, 47];
    proof {
        assert(v@ =~= files_prefix());
    }
    v
}

/// `/`: the bare root path.
pub open spec fn root_path() -> Seq<u8> {
    seq![47]
}

pub fn root_path_bytes() -> (v: Vec<u8>)
    ensures
        v@ == root_path(),
{
    let v: Vec<u8> = vec![47u8];
    proof {
        assert(v@ =~= root_path());
    }
    v
}

/// `GET`: the GET method token.
pub open spec fn method_get() -> Seq<u8> {
    seq![71, 69, 84]
}

pub fn method_get_bytes() -> (v: Vec<u8>)
    ensures
        v@ == method_get(),
{
    let v: Vec<u8> = vec![71u8, 69, 84];
    proof {
        assert(v@ =~= method_get());
    }
    v
}

/// `POST`: the POST method token.
pub open spec fn method_post() -> Seq<u8> {
    seq![80, 79, 83, 84]
}

pub fn method_post_bytes() -> (v: Vec<u8>)
    ensures
        v@ == method_post(),
{
    let v: Vec<u8> = vec![80u8, 79, 83, 84];
    proof {
        assert(v@ =~= method_post());
    }
    v
}

/// `HTTP/1.1 200 OK`: the 200 status line.
pub open spec fn status_line_200() -> Seq<u8> {
    seq![72, 84, 84, 80, 47, 49, 46, 49, 32, 50, 48, 48, 32, 79, 75]
}

pub fn status_line_200_bytes() -> (v: Vec<u8>)
    ensures
        v@ == status_line_200(),
{
    let v: Vec<u8> = vec![72u8, 84, 84, 80, 47, 49, 46, 49, 32, 50, 48, 48, 32, 79, 75];
    proof {
        assert(v@ =~= status_line_200());
    }
    v
}

/// `HTTP/1.1 201 Created`: the 201 status line.
pub open spec fn status_line_201() -> Seq<u8> {
    seq![72, 84, 84, 80, 47, 49, 46, 49, 32, 50, 48, 49, 32, 67, 114, 101, 97, 116, 101, 100]
}

pub fn status_line_201_bytes() -> (v: Vec<u8>)
    ensures
        v@ == status_line_201(),
{
    let v: Vec<u8> = vec![72u8, 84, 84, 80, 47, 49, 46, 49, 32, 50, 48, 49, 32, 67, 114, 101, 97, 116, 101, 100];
    proof {
        assert(v@ =~= status_line_201());
    }
    v
}

/// `HTTP/1.1 400 Bad Request`: the 400 status line.
pub open spec fn status_line_400() -> Seq<u8> {
    seq![72, 84, 84, 80, 47, 49, 46, 49, 32, 52, 48, 48, 32, 66, 97, 100, 32, 82, 101, 113, 117, 101, 115, 116]
}

pub fn status_line_400_bytes() -> (v: Vec<u8>)
    ensures
        v@ == status_line_400(),
{
    let v: Vec<u8> = vec![72u8, 84, 84, 80, 47, 49, 46, 49, 32, 52, 48, 48, 32, 66, 97, 100, 32, 82, 101, 113, 117, 101, 115, 116];
    proof {
        assert(v@ =~= status_line_400());
    }
    v
}

/// `HTTP/1.1 404 Not Found`: the 404 status line.
pub open spec fn status_line_404() -> Seq<u8> {
    seq![72, 84, 84, 80, 47, 49, 46, 49, 32, 52, 48, 52, 32, 78, 111, 116, 32, 70, 111, 117, 110, 100]
}

pub fn status_line_404_bytes() -> (v: Vec<u8>)
    ensures
        v@ == status_line_404(),
{
    let v: Vec<u8> = vec![72u8, 84, 84, 80, 47, 49, 46, 49, 32, 52, 48, 52, 32, 78, 111, 116, 32, 70, 111, 117, 110, 100];
    proof {
        assert(v@ =~= status_line_404());
    }
    v
}

/// `HTTP/1.1 500 INTERNAL SERVER ERROR`: the 500 status line.
pub open spec fn status_line_500() -> Seq<u8> {
    seq![72, 84, 84, 80, 47, 49, 46, 49, 32, 53, 48, 48, 32, 73, 78, 84, 69, 82, 78, 65, 76, 32, 83, 69, 82, 86, 69, 82, 32, 69, 82, 82, 79, 82]
}

pub fn status_line_500_bytes() -> (v: Vec<u8>)
    ensures
        v@ == status_line_500(),
{
    let v: Vec<u8> = vec![72u8, 84, 84, 80, 47, 49, 46, 49, 32, 53, 48, 48, 32, 73, 78, 84, 69, 82, 78, 65, 76, 32, 83, 69, 82, 86, 69, 82, 32, 69, 82, 82, 79, 82];
    proof {
        assert(v@ =~= status_line_500());
    }
    v
}

/// `Content-Type`: the Content-Type header name.
pub open spec fn hdr_content_type() -> Seq<u8> {
    seq![67, 111, 110, 116, 101, 110, 116, 45, 84, 121, 112, 101]
}

pub fn hdr_content_type_bytes() -> (v: Vec<u8>)
    ensures
        v@ == hdr_content_type(),
{
    let v: Vec<u8> = vec![67u8, 111, 110, 116, 101, 110, 116, 45, 84, 121, 112, 101];
    proof {
        assert(v@ =~= hdr_content_type());
    }
    v
}

/// `Content-Length`: the Content-Length header name.
pub open spec fn hdr_content_length() -> Seq<u8> {
    seq![67, 111, 110, 116, 101, 110, 116, 45, 76, 101, 110, 103, 116, 104]
}

pub fn hdr_content_length_bytes() -> (v: Vec<u8>)
    ensures
        v@ == hdr_content_length(),
{
    let v: Vec<u8> = vec![67u8, 111, 110, 116, 101, 110, 116, 45, 76, 101, 110, 103, 116, 104];
    proof {
        assert(v@ =~= hdr_content_length());
    }
    v
}

/// `text/plain`: the media type of echo and user-agent bodies.
pub open spec fn mime_text_plain() -> Seq<u8> {
    seq![116, 101, 120, 116, 47, 112, 108, 97, 105, 110]
}

pub fn mime_text_plain_bytes() -> (v: Vec<u8>)
    ensures
        v@ == mime_text_plain(),
{
    let v: Vec<u8> = vec![116u8, 101, 120, 116, 47, 112, 108, 97, 105, 110];
    proof {
        assert(v@ =~= mime_text_plain());
    }
    v
}

/// `application/octet-stream`: the media type of file bodies.
pub open spec fn mime_octet_stream() -> Seq<u8> {
    seq![97, 112, 112, 108, 105, 99, 97, 116, 105, 111, 110, 47, 111, 99, 116, 101, 116, 45, 115, 116, 114, 101, 97, 109]
}

pub fn mime_octet_stream_bytes() -> (v: Vec<u8>)
    ensures
        v@ == mime_octet_stream(),
{
    let v: Vec<u8> = vec![97u8, 112, 112, 108, 105, 99, 97, 116, 105, 111, 110, 47, 111, 99, 116, 101, 116, 45, 115, 116, 114, 101, 97, 109];
    proof {
        assert(v@ =~= mime_octet_stream());
    }
    v
}

/// `user-agent`: the lowercased key that marks a User-Agent header line.
pub open spec fn ua_key_lower() -> Seq<u8> {
    seq![117, 115, 101, 114, 45, 97, 103, 101, 110, 116]
}

pub fn ua_key_lower_bytes() -> (v: Vec<u8>)
    ensures
        v@ == ua_key_lower(),
{
    let v: Vec<u8> = vec![117u8, 115, 101, 114, 45, 97, 103, 101, 110, 116];
    proof {
        assert(v@ =~= ua_key_lower());
    }
    v
}

/// `User-Agent: `: the literal key and separator before a User-Agent value.
pub open spec fn ua_literal() -> Seq<u8> {
    seq![85, 115, 101, 114, 45, 65, 103, 101, 110, 116, 58, 32]
}

pub fn ua_literal_bytes() -> (v: Vec<u8>)
    ensures
        v@ == ua_literal(),
{
    let v: Vec<u8> = vec![85u8, 115, 101, 114, 45, 65, 103, 101, 110, 116, 58, 32];
    proof {
        assert(v@ =~= ua_literal());
    }
    v
}

/// `.`: the default serving directory: the current one.
pub open spec fn dot() -> Seq<u8> {
    seq![46]
}

pub fn dot_bytes() -> (v: Vec<u8>)
    ensures
        v@ == dot(),
{
    let v: Vec<u8> = vec![46u8];
    proof {
        assert(v@ =~= dot());
    }
    v
}

/// `--directory`: the command-line flag that names the serving directory.
pub open spec fn directory_flag() -> Seq<u8> {
    seq![45, 45, 100, 105, 114, 101, 99, 116, 111, 114, 121]
}

pub fn directory_flag_bytes() -> (v: Vec<u8>)
    ensures
        v@ == directory_flag(),
{
    let v: Vec<u8> = vec![45u8, 45, 100, 105, 114, 101, 99, 116, 111, 114, 121];
    proof {
        assert(v@ =~= directory_flag());
    }
    v
}

} // verus!
