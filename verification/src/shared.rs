//! The rolling history behind a lock: one writer pushes frames while readers
//! take snapshots, and no reader ever sees a half-updated history.

use crate::frame::{frames_of, well_shaped};
use crate::history::SpectrogramHistory;
use vstd::prelude::*;
use vstd::rwlock::{RwLock, RwLockPredicate};

verus! {

/// What the lock admits: sound histories of one fixed width and frame length.
pub struct HistoryShape {
    pub width: usize,
    pub bins: usize,
}

impl<T> RwLockPredicate<SpectrogramHistory<T>> for HistoryShape {
    open spec fn inv(self, history: SpectrogramHistory<T>) -> bool {
        &&& history.wf()
        &&& history.width() == self.width
        &&& history.bins() == self.bins
    }
}

/// A spectrogram history that several threads may hold at once. Every
/// update happens under the write lock and every snapshot under a read lock,
/// so a snapshot is always a whole history of the declared shape.
pub struct SharedHistory<T> {
    lock: RwLock<SpectrogramHistory<T>, HistoryShape>,
    width: usize,
    bins: usize,
}

impl<T: Copy> SharedHistory<T> {
    /// The lock guards histories of exactly this store's dimensions.
    pub closed spec fn wf(&self) -> bool {
        &&& self.width > 0
        &&& self.lock.pred() == (HistoryShape { width: self.width, bins: self.bins })
    }

    /// Number of frames in every snapshot.
    pub closed spec fn width(&self) -> nat {
        self.width as nat
    }

    /// Number of values in every frame of every snapshot.
    pub closed spec fn bins(&self) -> nat {
        self.bins as nat
    }

    /// A shared history of `width` frames of `bins` values, each value `fill`.
    pub fn new(width: usize, bins: usize, fill: T) -> (shared: Self)
        requires
            width > 0,
        ensures
            shared.wf(),
            shared.width() == width,
            shared.bins() == bins,
    {
        let history = SpectrogramHistory::new(width, bins, fill);
        let lock = RwLock::new(history, Ghost(HistoryShape { width, bins }));
        SharedHistory { lock, width, bins }
    }

    /// Number of frames in every snapshot.
    pub fn frame_count(&self) -> (width: usize)
        ensures
            width == self.width(),
    {
        self.width
    }

    /// Number of values in every frame.
    pub fn bin_count(&self) -> (bins: usize)
        ensures
            bins == self.bins(),
    {
        self.bins
    }

    /// Puts `frame` in front of the shared history and drops its oldest
    /// frame, as one step that no snapshot can see half done.
    pub fn push(&self, frame: Vec<T>)
        requires
            self.wf(),
            frame@.len() == self.bins(),
    {
        let (mut history, handle) = self.lock.acquire_write();
        history.push(frame);
        handle.release_write(history);
    }

    /// A copy of the whole shared history as it stood at one moment between
    /// two updates, newest frame first.
    pub fn snapshot(&self) -> (frames: Vec<Vec<T>>)
        requires
            self.wf(),
        ensures
            well_shaped(frames_of(frames@), self.width(), self.bins()),
    {
        let handle = self.lock.acquire_read();
        let frames = handle.borrow().snapshot();
        handle.release_read();
        frames
    }
}

} // verus!
