use vstd::prelude::*;

verus! {

/// The frames during which one element of the tree is shown: from `start` up to, not
/// including, `end`. Elements are numbered in tree order.
#[derive(Clone, Copy, Debug, PartialEq, Eq, Structural)]
pub struct FrameWindow {
    pub element: usize,
    pub start: usize,
    pub end: usize,
}

/// The elements shown in frame `f`, by the first `n` windows, in window order.
pub open spec fn active_in(windows: Seq<FrameWindow>, n: int, f: int) -> Seq<usize>
    decreases n,
{
    if n <= 0 {
        Seq::empty()
    } else {
        let before = active_in(windows, n - 1, f);
        let w = windows[n - 1];
        if w.start <= f < w.end {
            before.push(w.element)
        } else {
            before
        }
    }
}

/// The elements shown in frame `f`, in window order.
pub open spec fn active_set(windows: Seq<FrameWindow>, f: int) -> Seq<usize> {
    active_in(windows, windows.len() as int, f)
}

/// The elements shown in frame `f`, in window order.
pub fn active_elements(windows: &Vec<FrameWindow>, f: usize) -> (r: Vec<usize>)
    ensures
        r@ == active_set(windows@, f as int),
{
    let mut out: Vec<usize> = Vec::new();
    let mut i: usize = 0;
    while i < windows.len()
        invariant
            i <= windows@.len(),
            out@ == active_in(windows@, i as int, f as int),
        decreases windows@.len() - i,
    {
        let w = windows[i];
        if w.start <= f && f < w.end {
            out.push(w.element);
        }
        i = i + 1;
    }
    out
}

/// For each of `frames` frames, the elements shown in it.
pub fn calculate_frame_changes(windows: &Vec<FrameWindow>, frames: usize) -> (r: Vec<Vec<usize>>)
    ensures
        r@.len() == frames,
        forall|f: int| 0 <= f < frames ==> (#[trigger] r@[f])@ == active_set(windows@, f),
{
    let mut out: Vec<Vec<usize>> = Vec::new();
    let mut f: usize = 0;
    while f < frames
        invariant
            f <= frames,
            out@.len() == f,
            forall|g: int| 0 <= g < f ==> (#[trigger] out@[g])@ == active_set(windows@, g),
        decreases frames - f,
    {
        out.push(active_elements(windows, f));
        f = f + 1;
    }
    out
}

fn same_elements(a: &Vec<usize>, b: &Vec<usize>) -> (r: bool)
    ensures
        r == (a@ == b@),
{
    if a.len() != b.len() {
        return false;
    }
    let mut i: usize = 0;
    while i < a.len()
        invariant
            a@.len() == b@.len(),
            i <= a@.len(),
            forall|k: int| 0 <= k < i ==> a@[k] == b@[k],
        decreases a@.len() - i,
    {
        if a[i] != b[i] {
            return false;
        }
        i = i + 1;
    }
    assert(a@ =~= b@);
    true
}

/// For each frame, whether the frame before it shows the same elements, so that its
/// picture can be reused.
pub fn reusable_frames(sets: &Vec<Vec<usize>>) -> (r: Vec<bool>)
    ensures
        r@.len() == sets@.len(),
        forall|f: int| 0 <= f < sets@.len() ==> #[trigger] r@[f] == (f > 0 && sets@[f]@ == sets@[f - 1]@),
{
    let mut out: Vec<bool> = Vec::new();
    let mut f: usize = 0;
    while f < sets.len()
        invariant
            f <= sets@.len(),
            out@.len() == f,
            forall|g: int| 0 <= g < f ==> #[trigger] out@[g] == (g > 0 && sets@[g]@ == sets@[g - 1]@),
        decreases sets@.len() - f,
    {
        if f == 0 {
            out.push(false);
        } else {
            out.push(same_elements(&sets[f], &sets[f - 1]));
        }
        f = f + 1;
    }
    out
}

/// A frame marked reusable shows exactly the elements of the frame before it.
pub proof fn lemma_reuse_keeps_active_set(windows: Seq<FrameWindow>, sets: Seq<Vec<usize>>, reuse: Seq<bool>, f: int)
    requires
        sets.len() == reuse.len(),
        0 <= f < sets.len(),
        forall|g: int| 0 <= g < sets.len() ==> (#[trigger] sets[g])@ == active_set(windows, g),
        forall|g: int| 0 <= g < sets.len() ==> #[trigger] reuse[g] == (g > 0 && sets[g]@ == sets[g - 1]@),
        reuse[f],
    ensures
        f > 0,
        active_set(windows, f) == active_set(windows, f - 1),
{
    assert(sets[f]@ == active_set(windows, f));
    assert(sets[f - 1]@ == active_set(windows, f - 1));
}

} // verus!
