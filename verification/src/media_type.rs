//! The media type of a file, by the extension of its name.

use crate::text::{chars_of, eq_ignoring_case, same_ignoring_case, subtext};
use vstd::prelude::*;
use vstd::string::*;

verus! {

/// The extension of a file name: what stands after the last full stop of
/// the last segment of the path, where that segment has one.
pub open spec fn extension_of(path: Seq<char>) -> Option<Seq<char>>
    decreases path.len(),
{
    if path.len() == 0 || path.last() == '/' {
        None
    } else if path.last() == '.' {
        Some(Seq::empty())
    } else {
        match extension_of(path.drop_last()) {
            Some(e) => Some(e.push(path.last())),
            None => None,
        }
    }
}

/// The media type that an extension stands for; `application/octet-stream`
/// for one that is not in the table.
pub open spec fn media_type_for(extension: Seq<char>) -> Seq<char> {
    if same_ignoring_case(extension, "css"@) {
        "text/css"@
    } else if same_ignoring_case(extension, "html"@) || same_ignoring_case(extension, "htm"@) {
        "text/html"@
    } else if same_ignoring_case(extension, "js"@) {
        "application/javascript"@
    } else if same_ignoring_case(extension, "json"@) {
        "application/json"@
    } else if same_ignoring_case(extension, "txt"@) {
        "text/plain"@
    } else if same_ignoring_case(extension, "xml"@) {
        "text/xml"@
    } else if same_ignoring_case(extension, "svg"@) {
        "image/svg+xml"@
    } else if same_ignoring_case(extension, "png"@) {
        "image/png"@
    } else if same_ignoring_case(extension, "gif"@) {
        "image/gif"@
    } else if same_ignoring_case(extension, "jpg"@) || same_ignoring_case(extension, "jpeg"@) {
        "image/jpeg"@
    } else {
        "application/octet-stream"@
    }
}

/// The media type of the file at `path`: that of its extension, and
/// `application/octet-stream` where it has none.
pub open spec fn media_type_of_path(path: Seq<char>) -> Seq<char> {
    match extension_of(path) {
        Some(e) => media_type_for(e),
        None => "application/octet-stream"@,
    }
}

/// The extension of a path whose part from `from` on holds neither a full
/// stop nor a slash, and that has one of them before that part or nothing.
proof fn lemma_extension(path: Seq<char>, from: int)
    requires
        0 <= from <= path.len(),
        forall|j: int| from <= j < path.len() ==> path[j] != '.' && path[j] != '/',
        from == 0 || path[from - 1] == '/' || path[from - 1] == '.',
    ensures
        extension_of(path) == if from == 0 || path[from - 1] == '/' {
            None
        } else {
            Some(path.skip(from))
        },
    decreases path.len() - from,
{
    if from < path.len() {
        let shorter = path.drop_last();
        assert forall|j: int| from <= j < shorter.len() implies shorter[j] != '.' && shorter[j]
            != '/' by {
            assert(shorter[j] == path[j]);
        }
        lemma_extension(shorter, from);
        if from > 0 {
            assert(shorter[from - 1] == path[from - 1]);
            if path[from - 1] == '.' {
                assert(shorter.skip(from).push(path.last()) =~= path.skip(from));
            }
        }
    } else {
        if from > 0 && path[from - 1] == '.' {
            assert(path.skip(from) =~= Seq::<char>::empty());
        }
    }
}

/// The media type that an extension stands for.
pub fn media_type_for_extension(extension: &str) -> (r: String)
    ensures
        r@ == media_type_for(extension@),
{
    if eq_ignoring_case(extension, "css") {
        "text/css".to_owned()
    } else if eq_ignoring_case(extension, "html") || eq_ignoring_case(extension, "htm") {
        "text/html".to_owned()
    } else if eq_ignoring_case(extension, "js") {
        "application/javascript".to_owned()
    } else if eq_ignoring_case(extension, "json") {
        "application/json".to_owned()
    } else if eq_ignoring_case(extension, "txt") {
        "text/plain".to_owned()
    } else if eq_ignoring_case(extension, "xml") {
        "text/xml".to_owned()
    } else if eq_ignoring_case(extension, "svg") {
        "image/svg+xml".to_owned()
    } else if eq_ignoring_case(extension, "png") {
        "image/png".to_owned()
    } else if eq_ignoring_case(extension, "gif") {
        "image/gif".to_owned()
    } else if eq_ignoring_case(extension, "jpg") || eq_ignoring_case(extension, "jpeg") {
        "image/jpeg".to_owned()
    } else {
        "application/octet-stream".to_owned()
    }
}

/// The media type of the file at `path`, by the extension of its name.
pub fn guess_media_type(path: &str) -> (r: String)
    ensures
        r@ == media_type_of_path(path@),
{
    let chars = chars_of(path);
    let n: usize = chars.len();
    let mut from: usize = n;
    while from > 0 && chars[from - 1] != '.' && chars[from - 1] != '/'
        invariant
            chars@ == path@,
            n == chars@.len(),
            from <= n,
            forall|j: int| from <= j < n ==> chars@[j] != '.' && chars@[j] != '/',
        decreases from,
    {
        from -= 1;
    }
    proof {
        lemma_extension(chars@, from as int);
    }
    if from == 0 || chars[from - 1] == '/' {
        "application/octet-stream".to_owned()
    } else {
        assert(path@.subrange(from as int, n as int) =~= path@.skip(from as int));
        let extension = subtext(path, from, n);
        media_type_for_extension(extension.as_str())
    }
}

} // verus!
