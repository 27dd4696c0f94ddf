//! The rolling spectrogram history: the most recent frames, newest first,
//! kept in a ring of fixed size.

use crate::frame::{copy_frame, frames_of, well_shaped};
use vstd::prelude::*;

verus! {

/// A history after one more frame arrived: `frame` in front, every older
/// frame one place further back, the oldest gone.
pub open spec fn rotated<T>(history: Seq<Seq<T>>, frame: Seq<T>) -> Seq<Seq<T>> {
    seq![frame] + history.drop_last()
}

/// A history after the frames of `arrivals` arrived one after another.
pub open spec fn rotated_by<T>(history: Seq<Seq<T>>, arrivals: Seq<Seq<T>>) -> Seq<Seq<T>>
    decreases arrivals.len(),
{
    if arrivals.len() == 0 {
        history
    } else {
        rotated(rotated_by(history, arrivals.drop_last()), arrivals.last())
    }
}

/// What a history holds after any run of arrivals: it keeps its length; the
/// frame of age `a` is the arrival `a` places before the last one, or, where
/// fewer frames have arrived than that, the frame that was `arrivals.len()`
/// places younger at the start.
pub proof fn lemma_rotated_by<T>(history: Seq<Seq<T>>, arrivals: Seq<Seq<T>>)
    requires
        history.len() > 0,
    ensures
        rotated_by(history, arrivals).len() == history.len(),
        forall|age: int|
            0 <= age < history.len() ==> #[trigger] rotated_by(history, arrivals)[age] == (if age
                < arrivals.len() {
                arrivals[arrivals.len() - 1 - age]
            } else {
                history[age - arrivals.len()]
            }),
    decreases arrivals.len(),
{
    if arrivals.len() > 0 {
        let earlier = arrivals.drop_last();
        lemma_rotated_by(history, earlier);
    }
}

/// The rotation invariant: once at least as many frames have arrived as the
/// history holds, it still holds exactly as many frames as before, the frame
/// at position 0 is the one that arrived last, and every position holds an
/// arrival, newest first; nothing is left of what the history started with.
pub proof fn lemma_rotation_invariant<T>(history: Seq<Seq<T>>, arrivals: Seq<Seq<T>>)
    requires
        history.len() > 0,
        arrivals.len() >= history.len(),
    ensures
        rotated_by(history, arrivals).len() == history.len(),
        rotated_by(history, arrivals)[0] == arrivals.last(),
        forall|age: int|
            0 <= age < history.len() ==> #[trigger] rotated_by(history, arrivals)[age]
                == arrivals[arrivals.len() - 1 - age],
{
    lemma_rotated_by(history, arrivals);
}

/// Rotation keeps the shape: a history of `width` frames of `bins` values
/// that takes in frames of `bins` values is again `width` frames of `bins`
/// values, whatever the number of arrivals.
pub proof fn lemma_rotation_keeps_shape<T>(
    history: Seq<Seq<T>>,
    arrivals: Seq<Seq<T>>,
    width: nat,
    bins: nat,
)
    requires
        width > 0,
        well_shaped(history, width, bins),
        forall|k: int| 0 <= k < arrivals.len() ==> (#[trigger] arrivals[k]).len() == bins,
    ensures
        well_shaped(rotated_by(history, arrivals), width, bins),
{
    lemma_rotated_by(history, arrivals);
}

/// The row of `bins` copies of `fill` repeated `width` times: a history in
/// which nothing has arrived yet.
pub open spec fn blank<T>(width: nat, bins: nat, fill: T) -> Seq<Seq<T>> {
    Seq::new(width, |age: int| Seq::new(bins, |bin: int| fill))
}

/// A fixed number of spectral frames of one fixed length, ordered from the
/// most recent (age 0) to the oldest.
pub struct SpectrogramHistory<T> {
    slots: Vec<Vec<T>>,
    newest: usize,
    bins: usize,
}

impl<T> View for SpectrogramHistory<T> {
    type V = Seq<Seq<T>>;

    /// The frames by age, newest first.
    closed spec fn view(&self) -> Seq<Seq<T>> {
        Seq::new(self.slots@.len(), |age: int| self.slots@[self.slot_of(age)]@)
    }
}

impl<T> SpectrogramHistory<T> {
    /// The ring is sound: it is not empty, the newest frame lies in it, and
    /// every frame has the length that the history was made for.
    pub closed spec fn wf(&self) -> bool {
        &&& 0 < self.slots@.len()
        &&& self.newest < self.slots@.len()
        &&& forall|k: int|
            0 <= k < self.slots@.len() ==> (#[trigger] self.slots@[k])@.len() == self.bins
    }

    /// What soundness means to a reader: at least one frame, and every frame
    /// of the same known length.
    pub proof fn lemma_shape(&self)
        requires
            self.wf(),
        ensures
            self.width() > 0,
            well_shaped(self@, self.width(), self.bins()),
    {
    }

    /// Where in the ring the frame of the given age lies.
    spec fn slot_of(&self, age: int) -> int {
        if self.newest + age < self.slots@.len() {
            self.newest + age
        } else {
            self.newest + age - self.slots@.len()
        }
    }

    /// Number of frames held, which never changes.
    pub open spec fn width(&self) -> nat {
        self@.len()
    }

    /// Number of values in every frame held.
    pub closed spec fn bins(&self) -> nat {
        self.bins as nat
    }

    /// Number of frames held.
    pub fn frame_count(&self) -> (width: usize)
        ensures
            width == self.width(),
    {
        self.slots.len()
    }

    /// Number of values in every frame held.
    pub fn bin_count(&self) -> (bins: usize)
        ensures
            bins == self.bins(),
    {
        self.bins
    }
}

impl<T: Copy> SpectrogramHistory<T> {
    /// A history of `width` frames of `bins` values, each value `fill`.
    pub fn new(width: usize, bins: usize, fill: T) -> (history: Self)
        requires
            width > 0,
        ensures
            history.wf(),
            history@ == blank(width as nat, bins as nat, fill),
            history.width() == width,
            history.bins() == bins,
    {
        let mut row: Vec<T> = Vec::new();
        while row.len() < bins
            invariant
                row@.len() <= bins,
                forall|bin: int| 0 <= bin < row@.len() ==> row@[bin] == fill,
            decreases bins - row@.len(),
        {
            row.push(fill);
        }
        let mut slots: Vec<Vec<T>> = Vec::new();
        while slots.len() < width
            invariant
                slots@.len() <= width,
                row@.len() == bins,
                forall|bin: int| 0 <= bin < row@.len() ==> row@[bin] == fill,
                forall|k: int| 0 <= k < slots@.len() ==> (#[trigger] slots@[k])@ == row@,
            decreases width - slots@.len(),
        {
            let copy = copy_frame(&row);
            slots.push(copy);
        }
        let history = SpectrogramHistory { slots, newest: 0, bins };
        assert forall|age: int| 0 <= age < width implies #[trigger] history@[age] == Seq::new(
            bins as nat,
            |bin: int| fill,
        ) by {
            assert(history@[age] =~= Seq::new(bins as nat, |bin: int| fill));
        }
        history
    }

    /// Puts `frame` in front and drops the oldest frame; every other frame
    /// grows older by one place.
    pub fn push(&mut self, frame: Vec<T>)
        requires
            old(self).wf(),
            frame@.len() == old(self).bins(),
        ensures
            final(self).wf(),
            final(self)@ == rotated(old(self)@, frame@),
            final(self).width() == old(self).width(),
            final(self).bins() == old(self).bins(),
    {
        let width = self.slots.len();
        let slot: usize = if self.newest == 0 {
            width - 1
        } else {
            self.newest - 1
        };
        self.slots.set(slot, frame);
        self.newest = slot;
    }

    /// An independent copy of the whole history, newest frame first.
    pub fn snapshot(&self) -> (frames: Vec<Vec<T>>)
        requires
            self.wf(),
        ensures
            frames_of(frames@) == self@,
            well_shaped(frames_of(frames@), self.width(), self.bins()),
    {
        let width = self.slots.len();
        let mut frames: Vec<Vec<T>> = Vec::with_capacity(width);
        let mut age: usize = 0;
        while age < width
            invariant
                width == self.slots@.len(),
                self.newest < width,
                age <= width,
                frames@.len() == age,
                forall|k: int| 0 <= k < age ==> (#[trigger] frames@[k])@ == self@[k],
            decreases width - age,
        {
            let slot: usize = if age < width - self.newest {
                self.newest + age
            } else {
                age - (width - self.newest)
            };
            let copy = copy_frame(&self.slots[slot]);
            frames.push(copy);
            age += 1;
        }
        frames
    }
}

} // verus!
