use crate::text::{chars_of, string_of};
use vstd::prelude::*;

verus! {

/// The command line, resolved.
pub struct Args {
    pub input_path: String,
    /// The directory of the input file, with its trailing `/`; empty for a bare file name.
    pub src_base_path: String,
    pub output_path: String,
    pub preview_frame: Option<usize>,
    pub preview_duration: Option<usize>,
    pub overwrite: bool,
}

/// The directory part of a path: everything up to and including its last `/`, or nothing.
pub open spec fn base_path_of(path: Seq<char>) -> Seq<char> {
    if exists|k: int| 0 <= k < path.len() && path[k] == '/' {
        let k = choose|k: int|
            0 <= k < path.len() && path[k] == '/' && forall|j: int| k < j < path.len() ==> path[j]
                != '/';
        path.subrange(0, k + 1)
    } else {
        Seq::empty()
    }
}

/// The output file when none is given: a still image when one frame is previewed, a video
/// otherwise.
pub open spec fn default_output(preview_frame: Option<usize>, preview_duration: Option<usize>) -> Seq<char> {
    if preview_frame is Some && preview_duration is None {
        "preview.png"@
    } else {
        "video.mp4"@
    }
}

/// The directory part of a path: everything up to and including its last `/`.
pub fn base_path(path: &str) -> (r: String)
    ensures
        r@ == base_path_of(path@),
{
    let cs = chars_of(path);
    let mut k: usize = cs.len();
    while k > 0 && cs[k - 1] != '/'
        invariant
            k <= cs@.len(),
            cs@ == path@,
            forall|j: int| k <= j < cs@.len() ==> cs@[j] != '/',
        decreases k,
    {
        k = k - 1;
    }
    if k == 0 {
        return String::new();
    }
    proof {
        let kk = choose|kk: int|
            0 <= kk < path@.len() && path@[kk] == '/' && forall|j: int| kk < j < path@.len() ==> path@[j]
                != '/';
        assert(kk == k - 1) by {
            if kk < k - 1 {
                assert(path@[k - 1] != '/');
            } else if kk > k - 1 {
                assert(path@[kk] != '/');
            }
        }
    }
    let head = cs.as_slice().split_at(k).0;
    assert(head@ =~= path@.subrange(0, k as int));
    string_of(head)
}

/// Resolves the command line: the output file defaults by what is previewed, and the
/// directory of the input file is where relative sources are looked up.
pub fn get_parsed_args(
    input_path: String,
    output_path: Option<String>,
    preview_frame: Option<usize>,
    preview_duration: Option<usize>,
    overwrite: bool,
) -> (r: Args)
    ensures
        r.input_path == input_path,
        r.src_base_path@ == base_path_of(input_path@),
        match output_path {
            Some(p) => r.output_path == p,
            None => r.output_path@ == default_output(preview_frame, preview_duration),
        },
        r.preview_frame == preview_frame,
        r.preview_duration == preview_duration,
        r.overwrite == overwrite,
{
    let output_path = match output_path {
        Some(v) => v,
        None => {
            if preview_frame.is_some() && preview_duration.is_none() {
                string_of(chars_of("preview.png").as_slice())
            } else {
                string_of(chars_of("video.mp4").as_slice())
            }
        },
    };
    let src_base_path = base_path(input_path.as_str());
    Args { input_path, src_base_path, output_path, preview_frame, preview_duration, overwrite }
}

/// Whether a rendered document may be taken from a cache: never, so far.
pub fn is_cache_enabled(vsml_text: &String) -> (r: bool)
    ensures
        !r,
{
    false
}

} // verus!
