//! The directory listing: which scanned entries are shown, the HTML body
//! of links, and the listing handler's response.

use vstd::prelude::*;
use vstd::seq_lib::group_seq_properties;
use crate::filename::{has_video_extension, is_video_name};
use crate::PageResponse;

verus! {

/// One entry of the scanned video directory: its file name and whether it
/// is a regular file.
pub struct DirEntry {
    pub name: String,
    pub is_regular_file: bool,
}

/// The mathematical image of a directory entry.
pub struct DirEntrySpec {
    pub name: Seq<char>,
    pub is_regular_file: bool,
}

impl View for DirEntry {
    type V = DirEntrySpec;

    open spec fn view(&self) -> DirEntrySpec {
        DirEntrySpec { name: self.name@, is_regular_file: self.is_regular_file }
    }
}

impl DeepView for DirEntry {
    type V = DirEntrySpec;

    open spec fn deep_view(&self) -> DirEntrySpec {
        self@
    }
}

/// Whether an entry is shown in the listing: a regular file whose extension
/// is recognized.
pub open spec fn is_listed(e: DirEntrySpec) -> bool {
    e.is_regular_file && is_video_name(e.name)
}

/// The names of the listed entries, in the order the scan gave them.
pub open spec fn video_list_spec(entries: Seq<DirEntrySpec>) -> Seq<Seq<char>> {
    entries.filter(|e: DirEntrySpec| is_listed(e)).map_values(|e: DirEntrySpec| e.name)
}

/// The names of the video files among the scanned entries, in scan order.
pub fn get_video_list(entries: &Vec<DirEntry>) -> (r: Vec<String>)
    ensures
        r.deep_view() == video_list_spec(entries.deep_view()),
{
    let ghost all = entries.deep_view();
    let mut out: Vec<String> = Vec::new();
    let mut i: usize = 0;
    while i < entries.len()
        invariant
            i <= entries.len(),
            all == entries.deep_view(),
            all.len() == entries.len(),
            out.deep_view() == video_list_spec(all.take(i as int)),
        decreases entries.len() - i,
    {
        let ghost out0 = out.deep_view();
        let listed = entries[i].is_regular_file && has_video_extension(entries[i].name.as_str());
        if listed {
            let name = entries[i].name.clone();
            out.push(name);
        }
        proof {
            reveal(Seq::filter);
            let pred = |e: DirEntrySpec| is_listed(e);
            let prefix = all.take(i as int);
            let next = all.take(i + 1);
            assert(next.drop_last() =~= prefix);
            assert(next.last() == all[i as int]);
            assert(all[i as int] == entries@[i as int].deep_view());
            if listed {
                assert(next.filter(pred) == prefix.filter(pred).push(all[i as int]));
                assert(video_list_spec(next) =~= video_list_spec(prefix).push(
                    all[i as int].name,
                ));
                assert(out.deep_view() =~= out0.push(all[i as int].name));
            } else {
                assert(next.filter(pred) == prefix.filter(pred));
                assert(video_list_spec(next) =~= video_list_spec(prefix));
                assert(out.deep_view() =~= out0);
            }
        }
        i += 1;
    }
    proof {
        assert(all.take(entries.len() as int) =~= all);
    }
    out
}

/// The HTML hyperlink shown for one listed file.
pub open spec fn link_html(f: Seq<char>) -> Seq<char> {
    "<a href=\"/player/"@ + f + "\">"@ + f + "</a>"@
}

/// The listing body: the files' links joined by `<br>`.
pub open spec fn listing_body_spec(files: Seq<Seq<char>>) -> Seq<char>
    decreases files.len(),
{
    if files.len() == 0 {
        Seq::empty()
    } else if files.len() == 1 {
        link_html(files[0])
    } else {
        listing_body_spec(files.drop_last()) + "<br>"@ + link_html(files.last())
    }
}

/// Renders the files' links joined by `<br>` as the listing page's body.
pub fn listing_body(files: &Vec<String>) -> (r: String)
    ensures
        r@ == listing_body_spec(files.deep_view()),
{
    let ghost all = files.deep_view();
    let mut body = String::new();
    let mut i: usize = 0;
    while i < files.len()
        invariant
            i <= files.len(),
            all == files.deep_view(),
            all.len() == files.len(),
            body@ == listing_body_spec(all.take(i as int)),
        decreases files.len() - i,
    {
        if i > 0 {
            body.append("<br>");
        }
        body.append("<a href=\"/player/");
        body.append(files[i].as_str());
        body.append("\">");
        body.append(files[i].as_str());
        body.append("</a>");
        proof {
            assert(all.take(i + 1).drop_last() =~= all.take(i as int));
            assert(all.take(i + 1).last() == all[i as int]);
            if i == 0 {
                assert(all.take(1)[0] == all[0]);
                assert(body@ =~= link_html(all[0]));
            } else {
                assert(body@ =~= listing_body_spec(all.take(i as int)) + "<br>"@ + link_html(
                    all[i as int],
                ));
            }
        }
        i += 1;
    }
    proof {
        assert(all.take(files.len() as int) =~= all);
    }
    body
}

/// What the listing handler returns for a scan outcome: a page of links
/// where the directory could be read, a server error where it could not.
pub open spec fn index_response_matches(scan: Option<Seq<DirEntrySpec>>, r: PageResponse) -> bool {
    match scan {
        Some(entries) => {
            &&& r.status == 200
            &&& r.content_type@ == "text/html"@
            &&& r.body@ == listing_body_spec(video_list_spec(entries))
        },
        None => {
            &&& r.status == 500
            &&& r.content_type@ == "text/plain; charset=utf-8"@
            &&& r.body@ == "could not read the video directory"@
        },
    }
}

/// The listing page for a directory scan, or a server error for a scan
/// that failed.
pub fn index_response(scan: Option<Vec<DirEntry>>) -> (r: PageResponse)
    ensures
        index_response_matches(scan.deep_view(), r),
{
    match scan {
        Some(entries) => {
            let files = get_video_list(&entries);
            let body = listing_body(&files);
            PageResponse {
                status: 200,
                content_type: "text/html".to_owned(),
                body,
            }
        },
        None => PageResponse {
            status: 500,
            content_type: "text/plain; charset=utf-8".to_owned(),
            body: "could not read the video directory".to_owned(),
        },
    }
}

/// Law: any two listing responses built over the same scan outcome are
/// identical, so repeated requests against an unchanged directory answer
/// the same.
pub proof fn lemma_index_idempotent(
    scan: Option<Seq<DirEntrySpec>>,
    r1: PageResponse,
    r2: PageResponse,
)
    requires
        index_response_matches(scan, r1),
        index_response_matches(scan, r2),
    ensures
        r1.status == r2.status,
        r1.content_type@ == r2.content_type@,
        r1.body@ == r2.body@,
{
}

/// Whether `piece` stands contiguously in `hay`, beginning at `k`.
pub open spec fn occurs_at(hay: Seq<char>, piece: Seq<char>, k: int) -> bool {
    0 <= k && k + piece.len() <= hay.len() && hay.subrange(k, k + piece.len()) == piece
}

/// Law: the listing body holds, as a contiguous piece, the hyperlink of
/// every listed file.
pub proof fn lemma_body_contains_each_link(files: Seq<Seq<char>>, i: int)
    requires
        0 <= i < files.len(),
    ensures
        exists|k: int| #[trigger] occurs_at(listing_body_spec(files), link_html(files[i]), k),
    decreases files.len(),
{
    let body = listing_body_spec(files);
    let link = link_html(files[i]);
    let l = link.len() as int;
    if i == files.len() - 1 {
        if files.len() == 1 {
            assert(body.subrange(0, l) =~= link);
            assert(occurs_at(body, link, 0));
        } else {
            let prefix = listing_body_spec(files.drop_last()) + "<br>"@;
            let k = prefix.len() as int;
            assert(body =~= prefix + link);
            assert(body.subrange(k, k + l) =~= link);
            assert(occurs_at(body, link, k));
        }
    } else {
        lemma_body_contains_each_link(files.drop_last(), i);
        assert(files.drop_last()[i] == files[i]);
        let body0 = listing_body_spec(files.drop_last());
        let k = choose|k: int| #[trigger] occurs_at(body0, link, k);
        assert(body.subrange(k, k + l) =~= body0.subrange(k, k + l));
        assert(occurs_at(body, link, k));
    }
}

/// The opening anchor of a link to `/player/<u>`: what the listing body
/// holds ahead of a listed name's display text.
pub open spec fn link_anchor(u: Seq<char>) -> Seq<char> {
    "<a href=\"/player/"@ + u + "\">"@
}

/// A name free of the HTML-special characters `<` and `"`, which could
/// otherwise make one name's link read as part of another's.
pub open spec fn plain_name(f: Seq<char>) -> bool {
    forall|j: int| 0 <= j < f.len() ==> f[j] != '<' && f[j] != '"'
}

/// Each listed file's hyperlink begins with that file's own link anchor,
/// so the anchors the body holds are those of the links it shows.
pub proof fn lemma_link_begins_with_anchor(f: Seq<char>)
    ensures
        link_html(f).len() >= link_anchor(f).len(),
        link_html(f).subrange(0, link_anchor(f).len() as int) == link_anchor(f),
{
    assert(link_html(f).subrange(0, link_anchor(f).len() as int) =~= link_anchor(f));
}

proof fn lemma_link_literal_chars()
    ensures
        "<a href=\"/player/"@.len() == 17,
        "<a href=\"/player/"@[0] == '<',
        "<a href=\"/player/"@[1] == 'a',
        forall|j: int| 1 <= j < 17 ==> #[trigger] "<a href=\"/player/"@[j] != '<',
        "\">"@.len() == 2,
        "\">"@[0] == '"',
        "\">"@[1] == '>',
        "<br>"@.len() == 4,
        "<br>"@[0] == '<',
        "<br>"@[1] == 'b',
        "<br>"@[2] == 'r',
        "<br>"@[3] == '>',
        "</a>"@.len() == 4,
{
    reveal_strlit("<a href=\"/player/");
    reveal_strlit("\">");
    reveal_strlit("<br>");
    reveal_strlit("</a>");
}

proof fn lemma_anchor_lt_only_first(u: Seq<char>, m: int)
    requires
        plain_name(u),
        1 <= m < link_anchor(u).len(),
    ensures
        link_anchor(u)[m] != '<',
{
    lemma_link_literal_chars();
    let p = "<a href=\"/player/"@;
    let q = "\">"@;
    let pat = link_anchor(u);
    assert(pat.len() == 17 + u.len() + 2);
    if m < 17 {
        assert(pat[m] == p[m]);
    } else if m < 17 + u.len() {
        assert(pat[m] == u[m - 17]);
    } else {
        assert(pat[m] == q[m - 17 - u.len()]);
    }
}

proof fn lemma_anchor_in_link(f: Seq<char>, u: Seq<char>, k: int)
    requires
        plain_name(f),
        plain_name(u),
        occurs_at(link_html(f), link_anchor(u), k),
    ensures
        u == f,
{
    lemma_link_literal_chars();
    let p = "<a href=\"/player/"@;
    let q = "\">"@;
    let link = link_html(f);
    let pat = link_anchor(u);
    let lp = pat.len() as int;
    let fl = f.len() as int;
    assert(link.len() == 17 + fl + 2 + fl + 4);
    assert(lp == 17 + u.len() + 2);
    assert forall|j: int| 0 <= j < lp implies link[k + j] == pat[j] by {
        assert(link.subrange(k, k + lp)[j] == link[k + j]);
    }
    if k != 0 {
        assert(pat[0] == p[0]);
        assert(link[k] == '<');
        if k < 17 {
            assert(link[k] == p[k]);
        } else if k < 17 + fl {
            assert(link[k] == f[k - 17]);
        } else if k == 17 + fl {
            assert(link[k] == q[0]);
        } else if k == 18 + fl {
            assert(link[k] == q[1]);
        } else {
            assert(k < 19 + 2 * fl);
            assert(link[k] == f[k - 19 - fl]);
        }
        assert(false);
    }
    if u.len() == f.len() {
        assert forall|j: int| 0 <= j < u.len() implies u[j] == f[j] by {
            assert(pat[17 + j] == u[j]);
            assert(link[17 + j] == f[j]);
        }
        assert(u =~= f);
    } else if u.len() < f.len() {
        assert(pat[17 + u.len() as int] == q[0]);
        assert(link[17 + u.len() as int] == f[u.len() as int]);
        assert(false);
    } else {
        assert(pat[17 + fl] == u[fl]);
        assert(link[17 + fl] == q[0]);
        assert(false);
    }
}

/// Law: the listing body holds no link anchor for a name that is not
/// listed: wherever `link_anchor(u)` stands in the body, `u` is one of the
/// listed files, provided the names involved are plain.
pub proof fn lemma_body_links_only_listed(files: Seq<Seq<char>>, u: Seq<char>, k: int)
    requires
        forall|i: int| 0 <= i < files.len() ==> plain_name(#[trigger] files[i]),
        plain_name(u),
        occurs_at(listing_body_spec(files), link_anchor(u), k),
    ensures
        exists|i: int| 0 <= i < files.len() && #[trigger] files[i] == u,
    decreases files.len(),
{
    lemma_link_literal_chars();
    let body = listing_body_spec(files);
    let pat = link_anchor(u);
    let lp = pat.len() as int;
    assert(lp == 17 + u.len() + 2);
    assert forall|j: int| 0 <= j < lp implies body[k + j] == pat[j] by {
        assert(body.subrange(k, k + lp)[j] == body[k + j]);
    }
    if files.len() == 0 {
        assert(false);
    } else if files.len() == 1 {
        assert(body == link_html(files[0]));
        lemma_anchor_in_link(files[0], u, k);
        assert(files[0] == u);
    } else {
        let body0 = listing_body_spec(files.drop_last());
        let b = "<br>"@;
        let last_link = link_html(files.last());
        let l0 = body0.len() as int;
        assert(body == body0 + b + last_link);
        if k + lp <= l0 {
            assert forall|j: int| 0 <= j < lp implies body0[k + j] == pat[j] by {
                assert(body[k + j] == body0[k + j]);
            }
            assert(body0.subrange(k, k + lp) =~= pat);
            lemma_body_links_only_listed(files.drop_last(), u, k);
            let i = choose|i: int|
                0 <= i < files.drop_last().len() && #[trigger] files.drop_last()[i] == u;
            assert(files[i] == u);
        } else if k >= l0 + 4 {
            let k2 = k - l0 - 4;
            assert forall|j: int| 0 <= j < lp implies last_link[k2 + j] == pat[j] by {
                assert(body[k + j] == last_link[k2 + j]);
            }
            assert(last_link.subrange(k2, k2 + lp) =~= pat);
            lemma_anchor_in_link(files.last(), u, k2);
            assert(files[files.len() - 1] == u);
        } else if k < l0 {
            let m = l0 - k;
            assert(1 <= m < lp);
            assert(pat[m] == body[l0]);
            assert(body[l0] == b[0]);
            lemma_anchor_lt_only_first(u, m);
            assert(false);
        } else if k == l0 {
            assert(pat[1] == body[l0 + 1]);
            assert(body[l0 + 1] == b[1]);
            assert(pat[1] == "<a href=\"/player/"@[1]);
            assert(false);
        } else {
            assert(pat[0] == "<a href=\"/player/"@[0]);
            assert(pat[0] == body[k]);
            assert(body[k] == b[k - l0]);
            assert(false);
        }
    }
}

/// Law: the listing body holds no link for an unlisted name: where no
/// listed entry is named `u`, the anchor of a link to `/player/<u>` stands
/// nowhere in the body, provided the names involved are plain.
pub proof fn lemma_no_link_for_unlisted(entries: Seq<DirEntrySpec>, u: Seq<char>, k: int)
    requires
        forall|i: int| 0 <= i < entries.len() ==> plain_name(#[trigger] entries[i].name),
        plain_name(u),
        forall|i: int|
            0 <= i < entries.len() && #[trigger] entries[i].name == u ==> !is_listed(entries[i]),
    ensures
        !occurs_at(listing_body_spec(video_list_spec(entries)), link_anchor(u), k),
{
    let pred = |e: DirEntrySpec| is_listed(e);
    let filtered = entries.filter(pred);
    let files = video_list_spec(entries);
    assert forall|i: int| 0 <= i < files.len() implies plain_name(#[trigger] files[i]) by {
        assert(files[i] == filtered[i].name);
        lemma_filter_element_origin(entries, pred, i);
        let j = choose|j: int| 0 <= j < entries.len() && entries[j] == filtered[i];
        assert(plain_name(entries[j].name));
    }
    if occurs_at(listing_body_spec(files), link_anchor(u), k) {
        lemma_body_links_only_listed(files, u, k);
        let i0 = choose|i: int| 0 <= i < files.len() && #[trigger] files[i] == u;
        assert(files.contains(u));
        lemma_listing_exact(entries);
        let j0 = choose|j: int|
            0 <= j < entries.len() && #[trigger] entries[j].name == u && is_listed(entries[j]);
        assert(false);
    }
}

proof fn lemma_filter_element_origin(s: Seq<DirEntrySpec>, pred: spec_fn(DirEntrySpec) -> bool, j: int)
    requires
        0 <= j < s.filter(pred).len(),
    ensures
        s.contains(s.filter(pred)[j]),
    decreases s.len(),
{
    reveal(Seq::filter);
    broadcast use group_seq_properties;

    if s.len() > 0 {
        let rest = s.drop_last().filter(pred);
        if pred(s.last()) && j == s.filter(pred).len() - 1 {
            assert(s.filter(pred)[j] == s.last());
            assert(s[s.len() - 1] == s.last());
        } else {
            lemma_filter_element_origin(s.drop_last(), pred, j);
            let x = rest[j];
            let k = choose|k: int| 0 <= k < s.drop_last().len() && s.drop_last()[k] == x;
            assert(s[k] == x);
        }
    }
}

/// Law: the listing names every regular file with a recognized video
/// extension among the scanned entries, and names nothing else.
pub proof fn lemma_listing_exact(entries: Seq<DirEntrySpec>)
    ensures
        forall|i: int|
            0 <= i < entries.len() && is_listed(#[trigger] entries[i]) ==> video_list_spec(
                entries,
            ).contains(entries[i].name),
        forall|f: Seq<char>|
            #[trigger] video_list_spec(entries).contains(f) ==> exists|i: int|
                0 <= i < entries.len() && #[trigger] entries[i].name == f && is_listed(entries[i]),
{
    broadcast use vstd::seq_lib::group_filter_ensures;

    let pred = |e: DirEntrySpec| is_listed(e);
    let filtered = entries.filter(pred);
    let listed = video_list_spec(entries);
    assert forall|i: int|
        0 <= i < entries.len() && is_listed(#[trigger] entries[i]) implies listed.contains(
        entries[i].name,
    ) by {
        assert(filtered.contains(entries[i]));
        let j = choose|j: int| 0 <= j < filtered.len() && filtered[j] == entries[i];
        assert(listed[j] == entries[i].name);
    }
    assert forall|f: Seq<char>| #[trigger] listed.contains(f) implies exists|i: int|
        0 <= i < entries.len() && #[trigger] entries[i].name == f && is_listed(entries[i]) by {
        let j = choose|j: int| 0 <= j < listed.len() && listed[j] == f;
        assert(filtered[j].name == f);
        assert(pred(filtered[j]));
        lemma_filter_element_origin(entries, pred, j);
        let i = choose|i: int| 0 <= i < entries.len() && entries[i] == filtered[j];
        assert(entries[i].name == f && is_listed(entries[i]));
    }
}

} // verus!
