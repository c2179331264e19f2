//! A small library behind a video-serving web application: it lists the
//! video files of a directory, builds the player page for a file, and
//! decides how a requested file is served.
//!
//! The library itself performs no I/O: the surrounding application reads
//! the directory and the files and hands their contents in as plain values.

use vstd::prelude::*;

pub mod filename;
pub mod listing;
pub mod player;
pub mod video;

verus! {

/// An HTML response of the listing or player handler: a status code, a
/// content type, and a textual body.
pub struct PageResponse {
    pub status: u16,
    pub content_type: String,
    pub body: String,
}

} // verus!
