//! The player page: the response built from the outcome of rendering the
//! player template for a filename.
//!
//! Rendering itself runs outside the library, against the template set the
//! application loaded at startup; the library fixes the whole response for
//! each rendering outcome.

use vstd::prelude::*;
use crate::PageResponse;

verus! {

/// A rendering outcome reduced to what the response depends on: the
/// rendered text, or the fact of failure.
pub open spec fn render_outcome(rendered: Result<String, ()>) -> Result<Seq<char>, ()> {
    match rendered {
        Ok(page) => Ok(page@),
        Err(_) => Err(()),
    }
}

/// What the player handler returns for a rendering outcome: the rendered
/// HTML where rendering succeeded, a fixed server error where it failed.
pub open spec fn player_response_matches(rendered: Result<Seq<char>, ()>, r: PageResponse) -> bool {
    match rendered {
        Ok(page) => {
            &&& r.status == 200
            &&& r.content_type@ == "text/html; charset=utf-8"@
            &&& r.body@ == page
        },
        Err(_) => {
            &&& r.status == 500
            &&& r.content_type@ == "text/plain; charset=utf-8"@
            &&& r.body@ == "template rendering error"@
        },
    }
}

/// The player page response for a rendering outcome.
pub fn player_response_from_render(rendered: Result<String, ()>) -> (r: PageResponse)
    ensures
        player_response_matches(render_outcome(rendered), r),
{
    match rendered {
        Ok(page) => PageResponse {
            status: 200,
            content_type: "text/html; charset=utf-8".to_owned(),
            body: page,
        },
        Err(_) => PageResponse {
            status: 500,
            content_type: "text/plain; charset=utf-8".to_owned(),
            body: "template rendering error".to_owned(),
        },
    }
}

/// Law: any two player responses built from the same rendering outcome are
/// identical, so repeated requests answer the same while rendering does.
pub proof fn lemma_player_idempotent(
    rendered: Result<Seq<char>, ()>,
    r1: PageResponse,
    r2: PageResponse,
)
    requires
        player_response_matches(rendered, r1),
        player_response_matches(rendered, r2),
    ensures
        r1.status == r2.status,
        r1.content_type@ == r2.content_type@,
        r1.body@ == r2.body@,
{
}

} // verus!
