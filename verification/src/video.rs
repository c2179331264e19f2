//! The video handler's logic: the streaming content type chosen by
//! extension, and the response for a requested file.

use vstd::prelude::*;
use vstd::string::StringSliceAdditionalSpecFns;
use vstd::string::StrSliceExecFns;
use crate::filename::{extension, extension_of, str_eq};

verus! {

/// A response of the video handler: a status code, a content type, and the
/// raw bytes served.
pub struct VideoResponse {
    pub status: u16,
    pub content_type: String,
    pub body: Vec<u8>,
}

/// The streaming content type for a file name, chosen by its extension; an
/// unrecognized extension is served as a generic byte stream.
pub open spec fn content_type_spec(name: Seq<char>) -> Seq<char> {
    match extension_of(name) {
        Some(e) => if e == "mp4"@ {
            "video/mp4"@
        } else if e == "webm"@ {
            "video/webm"@
        } else if e == "mkv"@ {
            "video/x-matroska"@
        } else {
            "application/octet-stream"@
        },
        None => "application/octet-stream"@,
    }
}

/// The streaming content type under which a file of this name is served.
pub fn content_type_for(name: &str) -> (r: String)
    ensures
        r@ == content_type_spec(name@),
{
    match extension(name) {
        Some(e) => {
            if str_eq(e.as_str(), "mp4") {
                "video/mp4".to_owned()
            } else if str_eq(e.as_str(), "webm") {
                "video/webm".to_owned()
            } else if str_eq(e.as_str(), "mkv") {
                "video/x-matroska".to_owned()
            } else {
                "application/octet-stream".to_owned()
            }
        },
        None => "application/octet-stream".to_owned(),
    }
}

/// The fixed body of the not-found response, as bytes.
pub open spec fn not_found_body_spec() -> Seq<u8> {
    "file not found".spec_bytes()
}

/// What the video handler returns: the file's bytes under the content type
/// chosen by extension where the path named a regular file, a not-found
/// response where it did not.
pub open spec fn video_response_matches(
    name: Seq<char>,
    content: Option<Seq<u8>>,
    r: VideoResponse,
) -> bool {
    match content {
        Some(bytes) => {
            &&& r.status == 200
            &&& r.content_type@ == content_type_spec(name)
            &&& r.body@ == bytes
        },
        None => {
            &&& r.status == 404
            &&& r.content_type@ == "text/plain; charset=utf-8"@
            &&& r.body@ == not_found_body_spec()
        },
    }
}

/// The video handler's response for a request of `name`, where `content`
/// holds the file's bytes if the resolved path was a regular file.
pub fn video_response(name: &str, content: Option<Vec<u8>>) -> (r: VideoResponse)
    ensures
        video_response_matches(name@, content.deep_view(), r),
{
    match content {
        Some(bytes) => {
            let r = VideoResponse {
                status: 200,
                content_type: content_type_for(name),
                body: bytes,
            };
            proof {
                assert(r.body.deep_view() =~= r.body@);
            }
            r
        },
        None => VideoResponse {
            status: 404,
            content_type: "text/plain; charset=utf-8".to_owned(),
            body: "file not found".as_bytes_vec(),
        },
    }
}

/// Law: any two video responses built for the same request over the same
/// file state are identical, so repeated requests against an unchanged
/// directory answer the same.
pub proof fn lemma_video_idempotent(
    name: Seq<char>,
    content: Option<Seq<u8>>,
    r1: VideoResponse,
    r2: VideoResponse,
)
    requires
        video_response_matches(name, content, r1),
        video_response_matches(name, content, r2),
    ensures
        r1.status == r2.status,
        r1.content_type@ == r2.content_type@,
        r1.body@ == r2.body@,
{
}

} // verus!
