//! File names: extension extraction, the recognized video extensions, and
//! the safety check on a name taken from a request path.

use vstd::prelude::*;

verus! {

/// The position of the last `.` in a name, if it has one.
pub open spec fn last_dot_index(name: Seq<char>) -> Option<int>
    decreases name.len(),
{
    if name.len() == 0 {
        None
    } else if name[name.len() - 1] == '.' {
        Some(name.len() - 1)
    } else {
        last_dot_index(name.drop_last())
    }
}

/// The extension of a file name: the part after the last `.`. A name
/// without a `.`, or whose only `.` leads it (a hidden file), has none.
pub open spec fn extension_of(name: Seq<char>) -> Option<Seq<char>> {
    match last_dot_index(name) {
        Some(i) => if i == 0 {
            None
        } else {
            Some(name.subrange(i + 1, name.len() as int))
        },
        None => None,
    }
}

proof fn lemma_last_dot_push(s: Seq<char>, c: char)
    ensures
        last_dot_index(s.push(c)) == (if c == '.' {
            Some(s.len() as int)
        } else {
            last_dot_index(s)
        }),
{
    let t = s.push(c);
    assert(t[t.len() - 1] == c);
    if c != '.' {
        assert(t.drop_last() =~= s);
    }
}

/// Whether two string slices hold the same characters.
pub(crate) fn str_eq(a: &str, b: &str) -> (r: bool)
    ensures
        r == (a@ == b@),
{
    let sa: String = a.to_owned();
    let sb: String = b.to_owned();
    sa == sb
}

/// The extension of `name`, as `extension_of` describes it.
pub fn extension(name: &str) -> (r: Option<String>)
    ensures
        r.deep_view() == extension_of(name@),
{
    let len: usize = name.unicode_len();
    let mut i: usize = 0;
    let mut last: Option<usize> = None;
    while i < len
        invariant
            i <= len,
            len == name@.len(),
            match last {
                Some(j) => j < i && last_dot_index(name@.take(i as int)) == Some(j as int),
                None => last_dot_index(name@.take(i as int)) is None,
            },
        decreases len - i,
    {
        let c = name.get_char(i);
        proof {
            assert(name@.take(i + 1) =~= name@.take(i as int).push(name@[i as int]));
            lemma_last_dot_push(name@.take(i as int), name@[i as int]);
        }
        if c == '.' {
            last = Some(i);
        }
        i += 1;
    }
    proof {
        assert(name@.take(len as int) =~= name@);
    }
    match last {
        Some(j) => {
            if j == 0 {
                None
            } else {
                let e = name.substring_char(j + 1, len).to_owned();
                proof {
                    assert(e@ =~= name@.subrange(j + 1, name@.len() as int));
                }
                Some(e)
            }
        },
        None => None,
    }
}

/// Holds of the file extensions that the directory listing treats as video.
pub open spec fn is_video_extension_spec(e: Seq<char>) -> bool {
    e == "mp4"@ || e == "avi"@ || e == "webm"@ || e == "mkv"@
}

/// Whether `e` is one of the recognized video extensions.
pub fn is_video_extension(e: &str) -> (r: bool)
    ensures
        r == is_video_extension_spec(e@),
{
    str_eq(e, "mp4") || str_eq(e, "avi") || str_eq(e, "webm") || str_eq(e, "mkv")
}

/// A name counts as a video file when its extension is recognized.
pub open spec fn is_video_name(name: Seq<char>) -> bool {
    match extension_of(name) {
        Some(e) => is_video_extension_spec(e),
        None => false,
    }
}

/// Whether the file name carries a recognized video extension.
pub fn has_video_extension(name: &str) -> (r: bool)
    ensures
        r == is_video_name(name@),
{
    match extension(name) {
        Some(e) => is_video_extension(e.as_str()),
        None => false,
    }
}

/// A filename that is safe to join onto the video directory: one non-empty
/// path segment, so that the joined path cannot leave the directory.
pub open spec fn is_safe_filename_spec(f: Seq<char>) -> bool {
    &&& f.len() > 0
    &&& forall|i: int| 0 <= i < f.len() ==> f[i] != '/' && f[i] != '\\'
    &&& f != "."@
    &&& f != ".."@
}

/// Whether `f` may be resolved against the video directory.
pub fn is_safe_filename(f: &str) -> (r: bool)
    ensures
        r == is_safe_filename_spec(f@),
{
    let len: usize = f.unicode_len();
    if len == 0 {
        return false;
    }
    let mut i: usize = 0;
    while i < len
        invariant
            i <= len,
            len == f@.len(),
            forall|j: int| 0 <= j < i ==> f@[j] != '/' && f@[j] != '\\',
        decreases len - i,
    {
        let c = f.get_char(i);
        if c == '/' || c == '\\' {
            return false;
        }
        i += 1;
    }
    if str_eq(f, ".") || str_eq(f, "..") {
        return false;
    }
    true
}

} // verus!
