//! Frame aggregation: cutting an irregularly chunked sample stream into
//! contiguous analysis windows of one fixed length.

use crate::frame::frames_of;
use vstd::prelude::*;

verus! {

/// The complete windows of `n` samples that `stream` holds, in stream order.
pub open spec fn windows_of<T>(stream: Seq<T>, n: nat) -> Seq<Seq<T>>
    recommends
        n > 0,
{
    Seq::new(stream.len() / n, |k: int| stream.subrange(k * n, k * n + n))
}

/// What is left of `stream` behind its last complete window of `n` samples.
pub open spec fn remainder_of<T>(stream: Seq<T>, n: nat) -> Seq<T>
    recommends
        n > 0,
{
    stream.subrange(((stream.len() / n) * n) as int, stream.len() as int)
}

/// Accumulates sample chunks of any length and hands out analysis windows
/// of exactly `window_len` samples.
pub struct FrameAggregator<T> {
    window_len: usize,
    pending: Vec<T>,
}

impl<T> FrameAggregator<T> {
    /// Length of every window that this aggregator emits.
    pub closed spec fn window_len(&self) -> nat {
        self.window_len as nat
    }

    /// The samples received so far that no emitted window holds yet.
    pub closed spec fn pending(&self) -> Seq<T> {
        self.pending@
    }

    /// Between calls fewer than one window of samples is pending.
    pub open spec fn wf(&self) -> bool {
        0 < self.window_len() && self.pending().len() < self.window_len()
    }

    /// An aggregator with nothing pending.
    pub fn new(window_len: usize) -> (aggregator: Self)
        requires
            window_len > 0,
        ensures
            aggregator.wf(),
            aggregator.window_len() == window_len,
            aggregator.pending() == Seq::<T>::empty(),
    {
        FrameAggregator { window_len, pending: Vec::new() }
    }

    /// Length of every window that this aggregator emits.
    pub fn window_size(&self) -> (n: usize)
        ensures
            n == self.window_len(),
    {
        self.window_len
    }

    /// The samples that wait for the rest of their window, oldest first.
    pub fn pending_samples(&self) -> (samples: &Vec<T>)
        ensures
            samples@ == self.pending(),
    {
        &self.pending
    }

    /// Appends `chunk` to the pending samples and removes every complete
    /// window from their front. The windows come out in stream order; fewer
    /// than `window_len` samples stay pending.
    pub fn ingest(&mut self, chunk: Vec<T>) -> (windows: Vec<Vec<T>>)
        requires
            old(self).wf(),
        ensures
            final(self).wf(),
            final(self).window_len() == old(self).window_len(),
            frames_of(windows@) == windows_of(
                old(self).pending() + chunk@,
                old(self).window_len(),
            ),
            final(self).pending() == remainder_of(
                old(self).pending() + chunk@,
                old(self).window_len(),
            ),
    {
        let n: usize = self.window_len;
        let ghost stream = self.pending@ + chunk@;
        let mut chunk = chunk;
        let mut buffer: Vec<T> = Vec::new();
        core::mem::swap(&mut self.pending, &mut buffer);
        buffer.append(&mut chunk);
        let mut windows: Vec<Vec<T>> = Vec::new();
        assert(windows@.len() * n == 0);
        while buffer.len() >= n
            invariant
                n > 0,
                windows@.len() * n + buffer@.len() == stream.len(),
                buffer@ == stream.subrange(windows@.len() * n, stream.len() as int),
                forall|k: int|
                    0 <= k < windows@.len() ==> (#[trigger] windows@[k])@ == stream.subrange(
                        k * n,
                        k * n + n,
                    ),
            decreases buffer@.len(),
        {
            let ghost done = windows@.len() as int;
            let rest = buffer.split_off(n);
            proof {
                assert(done * n + n == (done + 1) * n) by (nonlinear_arith);
            }
            windows.push(buffer);
            buffer = rest;
        }
        proof {
            let count = windows@.len() as int;
            assert(count == stream.len() as int / n as int) by (nonlinear_arith)
                requires
                    n > 0,
                    count >= 0,
                    count * n + buffer@.len() == stream.len(),
                    buffer@.len() < n,
            ;
        }
        self.pending = buffer;
        windows
    }
}

/// The pending samples of an aggregator that started empty and has ingested
/// `chunks` one after another.
pub open spec fn pending_after<T>(chunks: Seq<Seq<T>>, n: nat) -> Seq<T>
    recommends
        n > 0,
    decreases chunks.len(),
{
    if chunks.len() == 0 {
        Seq::empty()
    } else {
        remainder_of(pending_after(chunks.drop_last(), n) + chunks.last(), n)
    }
}

/// All windows emitted, in emission order, by an aggregator that started
/// empty and has ingested `chunks` one after another.
pub open spec fn emitted_after<T>(chunks: Seq<Seq<T>>, n: nat) -> Seq<Seq<T>>
    recommends
        n > 0,
    decreases chunks.len(),
{
    if chunks.len() == 0 {
        Seq::empty()
    } else {
        emitted_after(chunks.drop_last(), n) + windows_of(
            pending_after(chunks.drop_last(), n) + chunks.last(),
            n,
        )
    }
}

proof fn lemma_div_of_parts(count: int, rest: int, total: int, n: int)
    by (nonlinear_arith)
    requires
        n > 0,
        count >= 0,
        0 <= rest < n,
        count * n + rest == total,
    ensures
        total / n == count,
        total % n == rest,
{
}

proof fn lemma_window_bounds(k: int, count: int, n: int)
    by (nonlinear_arith)
    requires
        n > 0,
        0 <= k < count,
    ensures
        0 <= k * n,
        k * n + n == (k + 1) * n,
        k * n + n <= count * n,
{
}

proof fn lemma_first_windows_flatten<T>(stream: Seq<T>, n: nat, count: int)
    requires
        n > 0,
        0 <= count <= stream.len() / n,
    ensures
        count * n <= stream.len(),
        windows_of(stream, n).take(count).flatten() == stream.subrange(0, count * n),
    decreases count,
{
    let total = stream.len() as int;
    let all = windows_of(stream, n);
    assert((total / n as int) * n <= total) by (nonlinear_arith)
        requires
            n > 0,
            total >= 0,
    ;
    assert(count * n <= (total / n as int) * n) by (nonlinear_arith)
        requires
            n > 0,
            0 <= count <= total / n as int,
    ;
    if count > 0 {
        lemma_first_windows_flatten(stream, n, count - 1);
        lemma_window_bounds(count - 1, count, n as int);
        assert(all.take(count) =~= all.take(count - 1).push(all[count - 1]));
        all.take(count - 1).lemma_flatten_push(all[count - 1]);
        assert(stream.subrange(0, (count - 1) * n) + stream.subrange(
            (count - 1) * n,
            (count - 1) * n + n,
        ) =~= stream.subrange(0, count * n));
    }
}

/// Contiguity of one cut: the windows of a stream, laid end to end and
/// followed by the remainder, are the stream itself; every window has exactly
/// `n` samples and the remainder has fewer.
pub proof fn lemma_windows_cover<T>(stream: Seq<T>, n: nat)
    requires
        n > 0,
    ensures
        windows_of(stream, n).flatten() + remainder_of(stream, n) == stream,
        remainder_of(stream, n).len() == stream.len() % n,
        remainder_of(stream, n).len() < n,
        forall|k: int|
            0 <= k < windows_of(stream, n).len() ==> (#[trigger] windows_of(stream, n)[k]).len()
                == n,
{
    let total = stream.len() as int;
    let count = total / n as int;
    let all = windows_of(stream, n);
    assert(0 <= count && count * n + total % (n as int) == total && 0 <= total % (n as int) < n)
        by (nonlinear_arith)
        requires
            n > 0,
            total >= 0,
            count == total / n as int,
    ;
    lemma_first_windows_flatten(stream, n, count);
    assert(all.take(count) =~= all);
    assert forall|k: int| 0 <= k < all.len() implies (#[trigger] all[k]).len() == n by {
        lemma_window_bounds(k, count, n as int);
    }
}

/// Cutting does not depend on how the stream arrived: holding back the
/// remainder of `head` and cutting it together with `tail` gives the windows
/// and the remainder of the whole stream `head + tail`.
pub proof fn lemma_cut_resumes<T>(head: Seq<T>, tail: Seq<T>, n: nat)
    requires
        n > 0,
    ensures
        windows_of(head, n) + windows_of(remainder_of(head, n) + tail, n) == windows_of(
            head + tail,
            n,
        ),
        remainder_of(remainder_of(head, n) + tail, n) == remainder_of(head + tail, n),
{
    let whole = head + tail;
    let held = remainder_of(head, n);
    let resumed = held + tail;
    let before = head.len() as int / n as int;
    let after = resumed.len() as int / n as int;
    lemma_windows_cover(head, n);
    lemma_windows_cover(resumed, n);
    assert(0 <= before && before * n + held.len() == head.len()) by (nonlinear_arith)
        requires
            n > 0,
            before == head.len() as int / n as int,
            held.len() == head.len() as int % n as int,
    ;
    assert(0 <= after && after * n + resumed.len() % n == resumed.len()) by (nonlinear_arith)
        requires
            n > 0,
            after == resumed.len() as int / n as int,
    ;
    assert((before + after) * n == before * n + after * n) by (nonlinear_arith);
    lemma_div_of_parts(
        before + after,
        resumed.len() as int % n as int,
        whole.len() as int,
        n as int,
    );
    let joined = windows_of(head, n) + windows_of(resumed, n);
    assert forall|k: int| 0 <= k < joined.len() implies joined[k] == windows_of(whole, n)[k] by {
        lemma_window_bounds(k, before + after, n as int);
        if k < before {
            lemma_window_bounds(k, before, n as int);
        } else {
            lemma_window_bounds(k - before, after, n as int);
            assert((k - before) * n == k * n - before * n) by (nonlinear_arith);
            assert(resumed.subrange((k - before) * n, (k - before) * n + n) =~= whole.subrange(
                k * n,
                k * n + n,
            ));
        }
    }
}

/// Contiguity over a whole run: however a stream is split into chunks, an
/// aggregator that started empty has emitted exactly the complete windows of
/// the concatenated chunks and holds exactly their remainder. So the emitted
/// windows, laid end to end and followed by the pending samples, are the
/// input, with fewer than `n` samples pending.
pub proof fn lemma_contiguity<T>(chunks: Seq<Seq<T>>, n: nat)
    requires
        n > 0,
    ensures
        emitted_after(chunks, n) == windows_of(chunks.flatten(), n),
        pending_after(chunks, n) == remainder_of(chunks.flatten(), n),
        emitted_after(chunks, n).flatten() + pending_after(chunks, n) == chunks.flatten(),
        pending_after(chunks, n).len() < n,
    decreases chunks.len(),
{
    if chunks.len() > 0 {
        let earlier = chunks.drop_last();
        lemma_contiguity(earlier, n);
        assert(chunks =~= earlier.push(chunks.last()));
        earlier.lemma_flatten_push(chunks.last());
        lemma_cut_resumes(earlier.flatten(), chunks.last(), n);
    }
    lemma_windows_cover(chunks.flatten(), n);
}

} // verus!
