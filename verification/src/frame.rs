//! Frames: the fixed-length rows that the pipeline passes on, seen as
//! mathematical sequences.

use vstd::prelude::*;

verus! {

/// The value sequences that a vector of windows or frames holds.
pub open spec fn frames_of<T>(frames: Seq<Vec<T>>) -> Seq<Seq<T>> {
    Seq::new(frames.len(), |k: int| frames[k]@)
}

/// `frames` has exactly `width` rows of exactly `bins` values each.
pub open spec fn well_shaped<T>(frames: Seq<Seq<T>>, width: nat, bins: nat) -> bool {
    &&& frames.len() == width
    &&& forall|k: int| 0 <= k < frames.len() ==> (#[trigger] frames[k]).len() == bins
}

/// An independent copy of `frame`.
pub fn copy_frame<T: Copy>(frame: &Vec<T>) -> (copy: Vec<T>)
    ensures
        copy@ == frame@,
{
    let mut copy: Vec<T> = Vec::with_capacity(frame.len());
    let mut i: usize = 0;
    while i < frame.len()
        invariant
            i <= frame@.len(),
            copy@ == frame@.take(i as int),
        decreases frame@.len() - i,
    {
        copy.push(frame[i]);
        i += 1;
    }
    copy
}

/// The positive-frequency half of a transform's output: its first
/// `len / 2` values, in order. For real input the rest mirrors them.
pub fn positive_half<T>(spectrum: Vec<T>) -> (half: Vec<T>)
    ensures
        half@ == spectrum@.take(spectrum@.len() as int / 2),
{
    let mut half = spectrum;
    let keep = half.len() / 2;
    half.truncate(keep);
    half
}

/// The value of bin `index` of `frame`; `None` where the frame has no such
/// bin, which a display leaves blank.
pub fn bin_at<T: Copy>(frame: &Vec<T>, index: usize) -> (value: Option<T>)
    ensures
        value == (if index < frame@.len() {
            Some(frame@[index as int])
        } else {
            None
        }),
{
    if index < frame.len() {
        Some(frame[index])
    } else {
        None
    }
}

} // verus!
