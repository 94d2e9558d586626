//! The real-time playback byte queue.
//!
//! [`CpalFileWrite`] bridges the network receive path (the producer,
//! which pushes raw little-endian sample bytes as they arrive) and the
//! audio hardware callback (the consumer, which must be fed one frame —
//! one sample per channel — at a fixed cadence).  The unverified shell
//! shares one value of this type between the two parties under a short
//! mutex and owns the device stream itself; everything the callback
//! decides — frame assembly, the underrun policy, the drain signal — is
//! here and verified.
//!
//! Underrun policy: when fewer bytes than one frame are queued the
//! consumer receives a frame of zero bytes and the queue is left alone.
//! Zero bytes decode to the equilibrium (silence) sample in every
//! supported format: integer `0` and float `0.0` are all-zero in their
//! little-endian representation.
//!
//! Drain signal: the first consumer call that leaves the queue empty
//! reports it exactly once, so the producer side can tell "everything
//! pushed so far has been played".  Pushing fresh bytes re-arms the
//! signal for the next empty-to-non-empty-to-empty cycle.

use std::collections::VecDeque;
use vstd::prelude::*;
use vstd::assert_seqs_equal;

use crate::error::AudioError;
use crate::format::AudioHeader;

verus! {

/// Initial capacity of the byte queue, sized to absorb normal network
/// jitter without reallocating.
pub const DEFAULT_CAPACITY: usize = 400000;

/// A frame of `n` silent bytes.
pub open spec fn zero_bytes(n: nat) -> Seq<u8> {
    Seq::new(n, |i: int| 0u8)
}

/// The mathematical state of a playback buffer.  `pushed` and `played`
/// record the whole history: every byte the producer ever handed in and
/// every byte the consumer ever played.
pub struct PlaybackView {
    pub queue: Seq<u8>,
    pub format: Option<AudioHeader>,
    pub started: bool,
    pub finalized: bool,
    pub notified: bool,
    pub pushed: Seq<u8>,
    pub played: Seq<u8>,
}

impl PlaybackView {
    /// Conservation: everything ever pushed is either already played or
    /// still queued — the buffer never drops or reorders a byte.
    pub open spec fn wf(self) -> bool {
        &&& self.pushed == self.played + self.queue
        &&& (self.format matches Some(f) ==> f.spec_valid())
    }

    /// Bytes of one output frame under the current format.
    pub open spec fn spec_frame_size(self) -> nat {
        match self.format {
            Some(f) => f.spec_frame_size(),
            None => 0,
        }
    }
}

/// The producer transition: `data` joins the tail of the queue, and a
/// non-empty push re-arms the drain signal.
pub open spec fn spec_write(v: PlaybackView, data: Seq<u8>) -> PlaybackView {
    PlaybackView {
        queue: v.queue + data,
        pushed: v.pushed + data,
        started: true,
        notified: if data.len() > 0 {
            false
        } else {
            v.notified
        },
        ..v
    }
}

/// The consumer transition: one frame leaves the head of the queue, or a
/// silent frame is produced on underrun; the boolean is the drain signal.
pub open spec fn spec_pop_frame(v: PlaybackView) -> (PlaybackView, Seq<u8>, bool) {
    let fs = v.spec_frame_size() as int;
    let hit = v.queue.len() >= fs;
    let frame = if hit {
        v.queue.take(fs)
    } else {
        zero_bytes(fs as nat)
    };
    let queue2 = if hit {
        v.queue.skip(fs)
    } else {
        v.queue
    };
    let signal = queue2.len() == 0 && !v.notified;
    (
        PlaybackView {
            queue: queue2,
            played: if hit {
                v.played + frame
            } else {
                v.played
            },
            notified: v.notified || queue2.len() == 0,
            ..v
        },
        frame,
        signal,
    )
}

/// `n` consumer calls in a row: the final state, the concatenation of
/// the frames produced, and how many of the calls raised the drain
/// signal.
pub open spec fn spec_pop_frames(v: PlaybackView, n: nat) -> (PlaybackView, Seq<u8>, nat)
    decreases n,
{
    if n == 0 {
        (v, Seq::empty(), 0)
    } else {
        let (v1, frame, sig) = spec_pop_frame(v);
        let (v2, rest, count) = spec_pop_frames(v1, (n - 1) as nat);
        (v2, frame + rest, (if sig { 1nat } else { 0nat }) + count)
    }
}

/// The byte queue between the network receive path and the audio
/// callback.  See the module documentation for its two-party contract.
pub struct CpalFileWrite {
    queue: VecDeque<u8>,
    format: Option<AudioHeader>,
    started: bool,
    finalized: bool,
    notified: bool,
    pushed: Ghost<Seq<u8>>,
    played: Ghost<Seq<u8>>,
}

impl View for CpalFileWrite {
    type V = PlaybackView;

    closed spec fn view(&self) -> PlaybackView {
        PlaybackView {
            queue: self.queue@,
            format: self.format,
            started: self.started,
            finalized: self.finalized,
            notified: self.notified,
            pushed: self.pushed@,
            played: self.played@,
        }
    }
}

impl CpalFileWrite {
    pub fn new() -> (r: Self)
        ensures
            r@.queue == Seq::<u8>::empty(),
            r@.format is None,
            !r@.started,
            !r@.finalized,
            !r@.notified,
            r@.pushed == Seq::<u8>::empty(),
            r@.played == Seq::<u8>::empty(),
            r@.wf(),
    {
        let r = CpalFileWrite {
            queue: VecDeque::with_capacity(DEFAULT_CAPACITY),
            format: None,
            started: false,
            finalized: false,
            notified: false,
            pushed: Ghost(Seq::empty()),
            played: Ghost(Seq::empty()),
        };
        proof {
            assert_seqs_equal!(r@.pushed == r@.played + r@.queue);
        }
        r
    }

    /// The negotiated format, once set.
    pub fn format(&self) -> (r: Option<AudioHeader>)
        ensures
            r == self@.format,
    {
        self.format
    }

    /// Whether playback has begun (the first write starts it).
    pub fn is_started(&self) -> (r: bool)
        ensures
            r == self@.started,
    {
        self.started
    }

    /// Whether the sink has been finalized.
    pub fn is_finalized(&self) -> (r: bool)
        ensures
            r == self@.finalized,
    {
        self.finalized
    }

    /// Bytes queued and not yet played.
    pub fn queued_len(&self) -> (r: usize)
        ensures
            r == self@.queue.len(),
    {
        self.queue.len()
    }

    /// Set the format before playback starts.  A format outside the
    /// supported matrix is refused at this boundary, and a change after
    /// the first write is a programming error, refused rather than
    /// corrupting in-flight conversion state.
    pub fn update_format(&mut self, header: &AudioHeader) -> (r: Result<(), AudioError>)
        ensures
            old(self)@.started ==> r == Err::<(), AudioError>(AudioError::AlreadyStarted)
                && final(self)@ == old(self)@,
            !old(self)@.started && !header.spec_valid() ==> r == Err::<(), AudioError>(
                AudioError::UnsupportedFormat,
            ) && final(self)@ == old(self)@,
            !old(self)@.started && header.spec_valid() ==> r == Ok::<(), AudioError>(()) && final(self)@ == (PlaybackView { format: Some(*header), ..old(self)@ }),
    {
        if self.started {
            return Err(AudioError::AlreadyStarted);
        }
        if !header.is_valid() {
            return Err(AudioError::UnsupportedFormat);
        }
        self.format = Some(*header);
        Ok(())
    }

    /// Producer side: append raw sample bytes at the tail of the queue.
    /// The first successful write starts playback.  Writes before a
    /// format is set, or after finalization, are errors.
    pub fn write(&mut self, data: &[u8]) -> (r: Result<(), AudioError>)
        ensures
            old(self)@.finalized ==> r == Err::<(), AudioError>(AudioError::Finalized) && final(self)@ == old(self)@,
            !old(self)@.finalized && old(self)@.format is None ==> r == Err::<(), AudioError>(
                AudioError::FormatNotSet,
            ) && final(self)@ == old(self)@,
            !old(self)@.finalized && old(self)@.format is Some ==> r == Ok::<(), AudioError>(())
                && final(self)@ == spec_write(old(self)@, data@),
            old(self)@.wf() ==> final(self)@.wf(),
    {
        if self.finalized {
            return Err(AudioError::Finalized);
        }
        if self.format.is_none() {
            return Err(AudioError::FormatNotSet);
        }
        self.started = true;
        if data.len() > 0 {
            self.notified = false;
        }
        let mut i: usize = 0;
        while i < data.len()
            invariant
                i <= data.len(),
                self.queue@ == old(self).queue@ + data@.take(i as int),
                self.format == old(self).format,
                self.started,
                self.finalized == old(self).finalized,
                self.notified == if data@.len() > 0 {
                    false
                } else {
                    old(self).notified
                },
                self.pushed@ == old(self).pushed@,
                self.played@ == old(self).played@,
            decreases data.len() - i,
        {
            self.queue.push_back(*vstd::slice::slice_index_get(data, i));
            proof {
                assert_seqs_equal!(old(self).queue@ + data@.take(i as int) + seq![data@[i as int]]
                    == old(self).queue@ + data@.take(i as int + 1));
            }
            i += 1;
        }
        proof {
            assert(data@.take(data@.len() as int) == data@);
        }
        self.pushed = Ghost(self.pushed@ + data@);
        proof {
            if old(self)@.wf() {
                assert_seqs_equal!(self@.pushed == self@.played + self@.queue);
            }
        }
        Ok(())
    }

    /// Pop exactly `sample_size` bytes off the head of `buf`, or nothing
    /// at all when fewer are queued — never a partial sample.
    pub fn extract_bytes_from_buf(buf: &mut VecDeque<u8>, sample_size: usize) -> (r: Option<
        Vec<u8>,
    >)
        ensures
            old(buf)@.len() < sample_size ==> r is None && final(buf)@ == old(buf)@,
            old(buf)@.len() >= sample_size ==> match r {
                Some(bytes) => bytes@ == old(buf)@.take(sample_size as int) && final(buf)@ == old(
                    buf,
                )@.skip(sample_size as int),
                None => false,
            },
    {
        if buf.len() < sample_size {
            return None;
        }
        let mut bytes: Vec<u8> = Vec::new();
        let mut i: usize = 0;
        while i < sample_size
            invariant
                i <= sample_size,
                sample_size <= old(buf)@.len(),
                buf@ == old(buf)@.skip(i as int),
                bytes@ == old(buf)@.take(i as int),
            decreases sample_size - i,
        {
            let b = buf.pop_front();
            match b {
                Some(x) => {
                    bytes.push(x);
                    proof {
                        assert_seqs_equal!(buf@ == old(buf)@.skip(i as int + 1));
                        assert_seqs_equal!(bytes@ == old(buf)@.take(i as int + 1));
                    }
                },
                None => {
                    proof {
                        assert(false);
                    }
                },
            }
            i += 1;
        }
        Some(bytes)
    }

    /// Consumer side: one hardware callback frame.  Pops exactly one
    /// frame of bytes from the head when a whole frame is queued, else
    /// produces silence and leaves the queue alone — it never waits.
    /// The boolean is the one-shot drain signal.
    pub fn pop_frame(&mut self) -> (r: (Vec<u8>, bool))
        ensures
            final(self)@ == spec_pop_frame(old(self)@).0,
            r.0@ == spec_pop_frame(old(self)@).1,
            r.1 == spec_pop_frame(old(self)@).2,
            old(self)@.wf() ==> final(self)@.wf(),
    {
        let fs = match &self.format {
            Some(f) => f.frame_size(),
            None => 0,
        };
        let mut frame: Vec<u8> = Vec::new();
        if self.queue.len() >= fs {
            match Self::extract_bytes_from_buf(&mut self.queue, fs) {
                Some(bytes) => {
                    frame = bytes;
                },
                None => {
                    proof {
                        assert(false);
                    }
                },
            }
            self.played = Ghost(self.played@ + frame@);
        } else {
            let mut i: usize = 0;
            while i < fs
                invariant
                    i <= fs,
                    frame@ == zero_bytes(i as nat),
                    self == old(self),
                decreases fs - i,
            {
                frame.push(0u8);
                proof {
                    assert_seqs_equal!(frame@ == zero_bytes(i as nat + 1));
                }
                i += 1;
            }
        }
        let signal = self.queue.len() == 0 && !self.notified;
        if self.queue.len() == 0 {
            self.notified = true;
        }
        proof {
            let (v2, f, s) = spec_pop_frame(old(self)@);
            if old(self)@.queue.len() >= old(self)@.spec_frame_size() {
                assert(self@.queue == v2.queue);
                assert(self@.played == v2.played);
            }
            assert(self@ == v2);
            assert(frame@ == f);
            if old(self)@.wf() {
                assert_seqs_equal!(self@.pushed == self@.played + self@.queue);
            }
        }
        (frame, signal)
    }

    /// One whole hardware callback: fill `frames` consecutive frames.
    /// The boolean reports whether any of them raised the drain signal.
    pub fn fill_frames(&mut self, frames: usize) -> (r: (Vec<u8>, bool))
        ensures
            final(self)@ == spec_pop_frames(old(self)@, frames as nat).0,
            r.0@ == spec_pop_frames(old(self)@, frames as nat).1,
            r.1 == (spec_pop_frames(old(self)@, frames as nat).2 > 0),
    {
        let mut out: Vec<u8> = Vec::new();
        let mut any_signal = false;
        let ghost mut sig_count: nat = 0;
        let mut k: usize = 0;
        while k < frames
            invariant
                k <= frames,
                self@.format == old(self)@.format,
                spec_pop_frames(old(self)@, frames as nat).0 == spec_pop_frames(
                    self@,
                    (frames - k) as nat,
                ).0,
                spec_pop_frames(old(self)@, frames as nat).1 == out@ + spec_pop_frames(
                    self@,
                    (frames - k) as nat,
                ).1,
                spec_pop_frames(old(self)@, frames as nat).2 == sig_count + spec_pop_frames(
                    self@,
                    (frames - k) as nat,
                ).2,
                any_signal == (sig_count > 0),
            decreases frames - k,
        {
            let ghost pre = self@;
            let ghost rem = (frames - k) as nat;
            let (frame, sig) = self.pop_frame();
            let mut f = frame;
            let ghost out_pre = out@;
            out.append(&mut f);
            if sig {
                any_signal = true;
            }
            proof {
                sig_count = sig_count + (if sig {
                    1nat
                } else {
                    0nat
                });
                let (v1, fr, s1) = spec_pop_frame(pre);
                let (v2, rest, c) = spec_pop_frames(v1, (rem - 1) as nat);
                assert(spec_pop_frames(pre, rem) == (v2, fr + rest, (if s1 {
                    1nat
                } else {
                    0nat
                }) + c));
                assert_seqs_equal!(out_pre + (fr + rest) == (out_pre + fr) + rest);
            }
            k += 1;
        }
        (out, any_signal)
    }

    /// Mark the sink inert.  The shell blocks its own task on the drain
    /// signal before calling this, then releases the device stream; the
    /// buffer itself refuses any further use.
    pub fn finalize(&mut self) -> (r: Result<(), AudioError>)
        ensures
            old(self)@.finalized ==> r == Err::<(), AudioError>(AudioError::Finalized) && final(self)@ == old(self)@,
            !old(self)@.finalized ==> r == Ok::<(), AudioError>(()) && final(self)@ == (
            PlaybackView { finalized: true, ..old(self)@ }),
    {
        if self.finalized {
            return Err(AudioError::Finalized);
        }
        self.finalized = true;
        Ok(())
    }
}

/// Underrun law: with fewer queued bytes than one frame, a consumer call
/// yields a frame of equilibrium (all-zero) bytes and leaves the queue
/// untouched — it never waits for the producer.
pub proof fn lemma_underrun_silence(v: PlaybackView)
    requires
        v.queue.len() < v.spec_frame_size(),
    ensures
        spec_pop_frame(v).1 == zero_bytes(v.spec_frame_size()),
        spec_pop_frame(v).0.queue == v.queue,
        spec_pop_frame(v).0.played == v.played,
{
}

/// Ordering law: in a well-formed buffer, what has been played is
/// exactly the oldest prefix of what was pushed, and the queue holds
/// exactly the rest — bytes leave in the order they arrived, none are
/// dropped, none are invented.
pub proof fn lemma_playback_order(v: PlaybackView)
    requires
        v.wf(),
    ensures
        v.played == v.pushed.take(v.played.len() as int),
        v.queue == v.pushed.skip(v.played.len() as int),
{
    assert_seqs_equal!(v.played == v.pushed.take(v.played.len() as int));
    assert_seqs_equal!(v.queue == v.pushed.skip(v.played.len() as int));
}

/// Ordering law across one consumer call: when a whole frame is queued,
/// the frame handed out is the exact next stretch of the pushed bytes,
/// and conservation is preserved.
pub proof fn lemma_pop_frame_order(v: PlaybackView)
    requires
        v.wf(),
        v.queue.len() >= v.spec_frame_size(),
    ensures
        spec_pop_frame(v).1 == v.pushed.subrange(
            v.played.len() as int,
            v.played.len() + v.spec_frame_size() as int,
        ),
        spec_pop_frame(v).0.played == v.played + spec_pop_frame(v).1,
        spec_pop_frame(v).0.wf(),
{
    let fs = v.spec_frame_size() as int;
    assert_seqs_equal!(v.queue.take(fs) ==
        v.pushed.subrange(v.played.len() as int, v.played.len() + fs));
    assert_seqs_equal!(v.pushed == (v.played + v.queue.take(fs)) + v.queue.skip(fs));
}

/// Pushing preserves conservation.
pub proof fn lemma_write_order(v: PlaybackView, data: Seq<u8>)
    requires
        v.wf(),
    ensures
        spec_write(v, data).wf(),
        spec_write(v, data).pushed == v.pushed + data,
        spec_write(v, data).played == v.played,
{
    assert_seqs_equal!((v.pushed + data) == v.played + (v.queue + data));
}

/// Once the drain signal has fired and nothing new has been pushed,
/// further consumer calls on the empty queue never signal again.
pub proof fn lemma_no_repeat_signal(v: PlaybackView, n: nat)
    requires
        v.queue.len() == 0,
        v.notified,
    ensures
        spec_pop_frames(v, n).2 == 0,
        spec_pop_frames(v, n).0.queue.len() == 0,
        spec_pop_frames(v, n).0.notified,
        spec_pop_frames(v, n).0.format == v.format,
    decreases n,
{
    if n > 0 {
        let (v1, frame, sig) = spec_pop_frame(v);
        assert(v1.queue.len() == 0) by {
            if v.queue.len() >= v.spec_frame_size() as int {
                assert_seqs_equal!(v.queue.skip(v.spec_frame_size() as int) == v.queue);
            }
        }
        assert(!sig);
        lemma_no_repeat_signal(v1, (n - 1) as nat);
    }
}

/// Draining a queue of whole frames raises the signal exactly once: at
/// the consumer call that empties the queue, and at no later call.
proof fn lemma_drain_counts_once(v: PlaybackView, n: nat)
    requires
        v.spec_frame_size() > 0,
        !v.notified,
        v.queue.len() > 0,
        v.queue.len() as int % (v.spec_frame_size() as int) == 0,
        n * v.spec_frame_size() >= v.queue.len(),
    ensures
        spec_pop_frames(v, n).2 == 1,
        spec_pop_frames(v, n).0.queue.len() == 0,
        spec_pop_frames(v, n).0.notified,
        spec_pop_frames(v, n).0.format == v.format,
    decreases n,
{
    let fs = v.spec_frame_size() as int;
    let len = v.queue.len() as int;
    assert(n > 0) by {
        assert(0nat * v.spec_frame_size() == 0) by (nonlinear_arith);
    }
    assert(len >= fs) by (nonlinear_arith)
        requires
            len > 0,
            fs > 0,
            len % fs == 0,
    ;
    let (v1, frame, sig) = spec_pop_frame(v);
    assert(v1.queue == v.queue.skip(fs));
    assert(v1.queue.len() == len - fs);
    if v1.queue.len() == 0 {
        assert(sig);
        lemma_no_repeat_signal(v1, (n - 1) as nat);
    } else {
        assert(!sig);
        assert((len - fs) % fs == 0) by (nonlinear_arith)
            requires
                fs > 0,
                len % fs == 0,
        ;
        assert((n - 1) * v.spec_frame_size() >= v1.queue.len()) by (nonlinear_arith)
            requires
                n > 0,
                n * v.spec_frame_size() >= len,
                v1.queue.len() == len - fs,
                fs == v.spec_frame_size(),
        ;
        lemma_drain_counts_once(v1, (n - 1) as nat);
    }
}

/// Drain-signal law: starting from an empty queue, pushing whole frames
/// and draining them raises the completion signal exactly once; pushing
/// again re-arms the one-shot guard, and a second full drain raises the
/// signal exactly once more — it is neither repeated within a cycle nor
/// swallowed in the next.
pub proof fn lemma_drain_signal_once_per_cycle(
    v: PlaybackView,
    d1: Seq<u8>,
    d2: Seq<u8>,
    n1: nat,
    n2: nat,
)
    requires
        v.spec_frame_size() > 0,
        v.queue.len() == 0,
        d1.len() > 0,
        d1.len() as int % (v.spec_frame_size() as int) == 0,
        n1 * v.spec_frame_size() >= d1.len(),
        d2.len() > 0,
        d2.len() as int % (v.spec_frame_size() as int) == 0,
        n2 * v.spec_frame_size() >= d2.len(),
    ensures
        spec_pop_frames(spec_write(v, d1), n1).2 == 1,
        spec_pop_frames(spec_write(spec_pop_frames(spec_write(v, d1), n1).0, d2), n2).2 == 1,
{
    let w1 = spec_write(v, d1);
    assert_seqs_equal!(w1.queue == d1);
    lemma_drain_counts_once(w1, n1);
    let u1 = spec_pop_frames(w1, n1).0;
    let w2 = spec_write(u1, d2);
    assert_seqs_equal!(w2.queue == d2);
    lemma_drain_counts_once(w2, n2);
}

} // verus!
