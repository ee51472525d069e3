use vstd::prelude::*;

use crate::text::{chars_of, same_text};

verus! {

/// Where the last segment of `path[..i]` starts: just after its last `/`.
pub open spec fn segment_start(path: Seq<char>, i: int) -> int
    decreases i,
{
    if i <= 0 {
        0
    } else if path[i - 1] == '/' {
        i
    } else {
        segment_start(path, i - 1)
    }
}

/// The last segment of a path: what follows its last `/`.
pub open spec fn last_segment(path: Seq<char>) -> Seq<char> {
    path.subrange(segment_start(path, path.len() as int), path.len() as int)
}

/// Whether a document's path ends in one of the configured file names.
pub fn matches_filename(files: &Vec<String>, path: &str) -> (r: bool)
    ensures
        r == exists|i: int| 0 <= i < files@.len() && (#[trigger] files@[i])@ == last_segment(path@),
{
    let chars = chars_of(path);
    let mut s: usize = chars.len();
    while s > 0 && chars[s - 1] != '/'
        invariant
            s <= chars@.len(),
            chars@ == path@,
            segment_start(path@, s as int) == segment_start(path@, path@.len() as int),
        decreases s,
    {
        s = s - 1;
    }
    let name = path.substring_char(s, chars.len());
    let mut i: usize = 0;
    while i < files.len()
        invariant
            i <= files@.len(),
            name@ == last_segment(path@),
            forall|j: int| 0 <= j < i ==> (#[trigger] files@[j])@ != last_segment(path@),
        decreases files@.len() - i,
    {
        if same_text(files[i].as_str(), name) {
            return true;
        }
        i = i + 1;
    }
    false
}

} // verus!
