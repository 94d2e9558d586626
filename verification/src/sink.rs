//! The registered audio sinks of a client session, and the fan-out of
//! one operation across all of them.
//!
//! A session holds zero or more sinks — a WAV file writer, a real-time
//! playback buffer — and forwards every event to each in registration
//! order.  The first sink that refuses stops the fan-out, with every
//! sink before it updated and every sink from it on untouched; the
//! spec functions here state that outcome exactly.

use vstd::prelude::*;
use vstd::assert_seqs_equal;

use crate::error::AudioError;
use crate::format::AudioHeader;
use crate::playback::CpalFileWrite;
use crate::playback::PlaybackView;
use crate::playback::spec_pop_frames;
use crate::playback::spec_write;
use crate::wav::WavFileWrite;
use crate::wav::WavWriteView;
use crate::wav::spec_wav_bytes;
use crate::wav::spec_wav_writable;

verus! {

/// One registered audio sink.
pub enum Sink {
    File(WavFileWrite),
    Playback(CpalFileWrite),
}

/// The mathematical state of a sink.
pub enum SinkView {
    File(WavWriteView),
    Playback(PlaybackView),
}

impl View for Sink {
    type V = SinkView;

    open spec fn view(&self) -> SinkView {
        match self {
            Sink::File(w) => SinkView::File(w@),
            Sink::Playback(p) => SinkView::Playback(p@),
        }
    }
}

/// A sink's own well-formedness.
pub open spec fn sink_inv(v: SinkView) -> bool {
    match v {
        SinkView::File(w) => w.wf(),
        SinkView::Playback(p) => p.wf(),
    }
}

/// The views of a sequence of sinks.
pub open spec fn sink_views(s: Seq<Sink>) -> Seq<SinkView> {
    s.map_values(|x: Sink| x@)
}

/// Whether a sink accepts a format announcement in its present state.
pub open spec fn sink_accepts_format(v: SinkView, h: AudioHeader) -> bool {
    match v {
        SinkView::File(w) => !w.finalized && (w.format is Some || spec_wav_writable(h)),
        SinkView::Playback(p) => !p.started && h.spec_valid(),
    }
}

/// The error a sink raises when it refuses a format announcement.
pub open spec fn sink_format_error(v: SinkView, h: AudioHeader) -> AudioError {
    match v {
        SinkView::File(w) => if w.finalized {
            AudioError::Finalized
        } else {
            AudioError::UnsupportedFormat
        },
        SinkView::Playback(p) => if p.started {
            AudioError::AlreadyStarted
        } else {
            AudioError::UnsupportedFormat
        },
    }
}

/// A sink's state after accepting a format announcement: the file sink
/// keeps its first format, the playback buffer adopts the new one.
pub open spec fn sink_after_format(v: SinkView, h: AudioHeader) -> SinkView {
    match v {
        SinkView::File(w) => SinkView::File(
            WavWriteView {
                format: if w.format is None {
                    Some(h)
                } else {
                    w.format
                },
                ..w
            },
        ),
        SinkView::Playback(p) => SinkView::Playback(PlaybackView { format: Some(h), ..p }),
    }
}

/// The byte count of the whole samples at the head of `d` under `f`.
pub open spec fn whole_sample_bytes(f: AudioHeader, d: Seq<u8>) -> int {
    (d.len() as int / f.spec_bytes_per_sample() as int) * f.spec_bytes_per_sample() as int
}

/// Whether a sink accepts a payload write in its present state.
pub open spec fn sink_accepts_write(v: SinkView, d: Seq<u8>) -> bool {
    match v {
        SinkView::File(w) => match w.format {
            Some(f) => !w.finalized && w.data.len() + whole_sample_bytes(f, d) + 36 <= 0xFFFFFFFF,
            None => false,
        },
        SinkView::Playback(p) => !p.finalized && p.format is Some,
    }
}

/// The error a sink raises when it refuses a payload write.
pub open spec fn sink_write_error(v: SinkView, d: Seq<u8>) -> AudioError {
    match v {
        SinkView::File(w) => if w.finalized {
            AudioError::Finalized
        } else if w.format is None {
            AudioError::FormatNotSet
        } else {
            AudioError::TooLarge
        },
        SinkView::Playback(p) => if p.finalized {
            AudioError::Finalized
        } else {
            AudioError::FormatNotSet
        },
    }
}

/// A sink's state after accepting a payload write: the file sink keeps
/// the whole samples, the playback buffer queues every byte.
pub open spec fn sink_after_write(v: SinkView, d: Seq<u8>) -> SinkView {
    match v {
        SinkView::File(w) => match w.format {
            Some(f) => SinkView::File(
                WavWriteView { data: w.data + d.take(whole_sample_bytes(f, d)), ..w },
            ),
            None => SinkView::File(w),
        },
        SinkView::Playback(p) => SinkView::Playback(spec_write(p, d)),
    }
}

/// Whether a sink accepts finalization (only an already-finalized
/// playback buffer refuses).
pub open spec fn sink_accepts_finalize(v: SinkView) -> bool {
    match v {
        SinkView::File(_) => true,
        SinkView::Playback(p) => !p.finalized,
    }
}

/// A sink's state after finalization.
pub open spec fn sink_after_finalize(v: SinkView) -> SinkView {
    match v {
        SinkView::File(w) => if w.finalized {
            SinkView::File(w)
        } else {
            SinkView::File(
                WavWriteView {
                    finalized: true,
                    output: match w.format {
                        Some(f) => Some(spec_wav_bytes(f, w.data)),
                        None => w.output,
                    },
                    ..w
                },
            )
        },
        SinkView::Playback(p) => SinkView::Playback(PlaybackView { finalized: true, ..p }),
    }
}

/// Fan a format announcement across the sinks, stopping at the first
/// refusal: the transformed sequence and the overall outcome.
pub open spec fn fan_format(s: Seq<SinkView>, h: AudioHeader) -> (Seq<SinkView>, Result<
    (),
    AudioError,
>)
    decreases s.len(),
{
    if s.len() == 0 {
        (s, Ok(()))
    } else if sink_accepts_format(s[0], h) {
        let rest = fan_format(s.skip(1), h);
        (seq![sink_after_format(s[0], h)] + rest.0, rest.1)
    } else {
        (s, Err(sink_format_error(s[0], h)))
    }
}

/// Fan a payload write across the sinks, stopping at the first refusal.
pub open spec fn fan_write(s: Seq<SinkView>, d: Seq<u8>) -> (Seq<SinkView>, Result<(), AudioError>)
    decreases s.len(),
{
    if s.len() == 0 {
        (s, Ok(()))
    } else if sink_accepts_write(s[0], d) {
        let rest = fan_write(s.skip(1), d);
        (seq![sink_after_write(s[0], d)] + rest.0, rest.1)
    } else {
        (s, Err(sink_write_error(s[0], d)))
    }
}

/// Fan finalization across the sinks, stopping at the first refusal.
pub open spec fn fan_finalize(s: Seq<SinkView>) -> (Seq<SinkView>, Result<(), AudioError>)
    decreases s.len(),
{
    if s.len() == 0 {
        (s, Ok(()))
    } else if sink_accepts_finalize(s[0]) {
        let rest = fan_finalize(s.skip(1));
        (seq![sink_after_finalize(s[0])] + rest.0, rest.1)
    } else {
        (s, Err(AudioError::Finalized))
    }
}

/// `n` consumer frames drawn from every playback sink (file sinks are
/// untouched): the transformed sequence, the frames produced in sink
/// order, and whether any playback sink raised its drain signal.
pub open spec fn fan_pop_frames(s: Seq<SinkView>, n: nat) -> (Seq<SinkView>, Seq<u8>, bool)
    decreases s.len(),
{
    if s.len() == 0 {
        (s, Seq::empty(), false)
    } else {
        let rest = fan_pop_frames(s.skip(1), n);
        match s[0] {
            SinkView::Playback(p) => {
                let one = spec_pop_frames(p, n);
                (
                    seq![SinkView::Playback(one.0)] + rest.0,
                    one.1 + rest.1,
                    (one.2 > 0) || rest.2,
                )
            },
            SinkView::File(_) => (seq![s[0]] + rest.0, rest.1, rest.2),
        }
    }
}

/// Fan a format announcement across the sinks in registration order.
/// On refusal the refusing sink and all later ones are untouched.
pub fn fan_out_format(sinks: &mut Vec<Sink>, h: &AudioHeader) -> (r: Result<(), AudioError>)
    requires
        forall|i: int|
            0 <= i < old(sinks)@.len() ==> sink_inv(#[trigger] sink_views(old(sinks)@)[i]),
    ensures
        sink_views(final(sinks)@) == fan_format(sink_views(old(sinks)@), *h).0,
        r == fan_format(sink_views(old(sinks)@), *h).1,
        forall|i: int|
            0 <= i < final(sinks)@.len() ==> sink_inv(#[trigger] sink_views(final(sinks)@)[i]),
{
    let ghost pre = sink_views(old(sinks)@);
    let mut done: Vec<Sink> = Vec::new();
    while sinks.len() > 0
        invariant
            pre == sink_views(old(sinks)@),
            fan_format(pre, *h).0 == sink_views(done@) + fan_format(sink_views(sinks@), *h).0,
            fan_format(pre, *h).1 == fan_format(sink_views(sinks@), *h).1,
            forall|i: int| 0 <= i < sinks@.len() ==> sink_inv(#[trigger] sink_views(sinks@)[i]),
            forall|i: int| 0 <= i < done@.len() ==> sink_inv(#[trigger] sink_views(done@)[i]),
        decreases sinks@.len(),
    {
        let ghost cur = sink_views(sinks@);
        let ghost done_pre = sink_views(done@);
        let mut s = sinks.remove(0);
        proof {
            assert_seqs_equal!(sink_views(sinks@) == cur.skip(1));
            assert(s@ == cur[0]);
            assert(sink_inv(cur[0]));
        }
        let outcome = match &mut s {
            Sink::File(w) => w.update_format(h),
            Sink::Playback(p) => p.update_format(h),
        };
        match outcome {
            Ok(()) => {
                proof {
                    assert(sink_accepts_format(cur[0], *h));
                    assert(s@ == sink_after_format(cur[0], *h));
                    assert(sink_inv(s@));
                }
                done.push(s);
                proof {
                    assert_seqs_equal!(sink_views(done@) == done_pre.push(s@));
                    assert forall|i: int| 0 <= i < done@.len() implies sink_inv(
                        #[trigger] sink_views(done@)[i],
                    ) by {
                        if i < done@.len() - 1 {
                            assert(sink_views(done@)[i] == done_pre[i]);
                        } else {
                            assert(sink_views(done@)[i] == s@);
                        }
                    }
                    assert_seqs_equal!(fan_format(pre, *h).0 ==
                        sink_views(done@) + fan_format(sink_views(sinks@), *h).0);
                }
            },
            Err(e) => {
                proof {
                    assert(!sink_accepts_format(cur[0], *h));
                    assert(e == sink_format_error(cur[0], *h));
                    assert(s@ == cur[0]);
                    assert(fan_format(cur, *h).0 == cur);
                    assert(fan_format(cur, *h).1 == Err::<(), AudioError>(e));
                }
                sinks.insert(0, s);
                proof {
                    assert_seqs_equal!(sink_views(sinks@) == cur);
                }
                done.append(sinks);
                *sinks = done;
                proof {
                    assert(pre == sink_views(old(sinks)@));
                    assert_seqs_equal!(sink_views(sinks@) == done_pre + cur);
                    assert_seqs_equal!(fan_format(pre, *h).0 == sink_views(sinks@));
                    assert(fan_format(pre, *h).1 == Err::<(), AudioError>(e));
                    assert forall|i: int| 0 <= i < sinks@.len() implies sink_inv(
                        #[trigger] sink_views(sinks@)[i],
                    ) by {
                        if i < done_pre.len() {
                            assert(sink_views(sinks@)[i] == done_pre[i]);
                        } else {
                            assert(sink_views(sinks@)[i] == cur[i - done_pre.len()]);
                        }
                    }
                }
                return Err(e);
            },
        }
    }
    proof {
        assert(sink_views(sinks@).len() == 0);
        assert_seqs_equal!(fan_format(pre, *h).0 == sink_views(done@));
    }
    *sinks = done;
    Ok(())
}

/// Fan a payload write across the sinks in registration order.  On
/// refusal the refusing sink and all later ones are untouched.
pub fn fan_out_write(sinks: &mut Vec<Sink>, data: &[u8]) -> (r: Result<(), AudioError>)
    requires
        forall|i: int|
            0 <= i < old(sinks)@.len() ==> sink_inv(#[trigger] sink_views(old(sinks)@)[i]),
    ensures
        sink_views(final(sinks)@) == fan_write(sink_views(old(sinks)@), data@).0,
        r == fan_write(sink_views(old(sinks)@), data@).1,
        forall|i: int|
            0 <= i < final(sinks)@.len() ==> sink_inv(#[trigger] sink_views(final(sinks)@)[i]),
{
    let ghost pre = sink_views(old(sinks)@);
    let mut done: Vec<Sink> = Vec::new();
    while sinks.len() > 0
        invariant
            pre == sink_views(old(sinks)@),
            fan_write(pre, data@).0 == sink_views(done@) + fan_write(sink_views(sinks@), data@).0,
            fan_write(pre, data@).1 == fan_write(sink_views(sinks@), data@).1,
            forall|i: int| 0 <= i < sinks@.len() ==> sink_inv(#[trigger] sink_views(sinks@)[i]),
            forall|i: int| 0 <= i < done@.len() ==> sink_inv(#[trigger] sink_views(done@)[i]),
        decreases sinks@.len(),
    {
        let ghost cur = sink_views(sinks@);
        let ghost done_pre = sink_views(done@);
        let mut s = sinks.remove(0);
        proof {
            assert_seqs_equal!(sink_views(sinks@) == cur.skip(1));
            assert(s@ == cur[0]);
            assert(sink_inv(cur[0]));
        }
        let outcome = match &mut s {
            Sink::File(w) => w.write(data),
            Sink::Playback(p) => p.write(data),
        };
        match outcome {
            Ok(()) => {
                proof {
                    assert(sink_accepts_write(cur[0], data@));
                    assert(s@ == sink_after_write(cur[0], data@));
                    assert(sink_inv(s@));
                }
                done.push(s);
                proof {
                    assert_seqs_equal!(sink_views(done@) == done_pre.push(s@));
                    assert forall|i: int| 0 <= i < done@.len() implies sink_inv(
                        #[trigger] sink_views(done@)[i],
                    ) by {
                        if i < done@.len() - 1 {
                            assert(sink_views(done@)[i] == done_pre[i]);
                        } else {
                            assert(sink_views(done@)[i] == s@);
                        }
                    }
                    assert_seqs_equal!(fan_write(pre, data@).0 ==
                        sink_views(done@) + fan_write(sink_views(sinks@), data@).0);
                }
            },
            Err(e) => {
                proof {
                    assert(!sink_accepts_write(cur[0], data@));
                    assert(e == sink_write_error(cur[0], data@));
                    assert(s@ == cur[0]);
                    assert(fan_write(cur, data@).0 == cur);
                    assert(fan_write(cur, data@).1 == Err::<(), AudioError>(e));
                }
                sinks.insert(0, s);
                proof {
                    assert_seqs_equal!(sink_views(sinks@) == cur);
                }
                done.append(sinks);
                *sinks = done;
                proof {
                    assert_seqs_equal!(sink_views(sinks@) == done_pre + cur);
                    assert_seqs_equal!(fan_write(pre, data@).0 == sink_views(sinks@));
                    assert(fan_write(pre, data@).1 == Err::<(), AudioError>(e));
                    assert forall|i: int| 0 <= i < sinks@.len() implies sink_inv(
                        #[trigger] sink_views(sinks@)[i],
                    ) by {
                        if i < done_pre.len() {
                            assert(sink_views(sinks@)[i] == done_pre[i]);
                        } else {
                            assert(sink_views(sinks@)[i] == cur[i - done_pre.len()]);
                        }
                    }
                }
                return Err(e);
            },
        }
    }
    proof {
        assert(sink_views(sinks@).len() == 0);
        assert_seqs_equal!(fan_write(pre, data@).0 == sink_views(done@));
    }
    *sinks = done;
    Ok(())
}

/// Fan finalization across the sinks in registration order.  On refusal
/// the refusing sink and all later ones are untouched.
pub fn fan_out_finalize(sinks: &mut Vec<Sink>) -> (r: Result<(), AudioError>)
    requires
        forall|i: int|
            0 <= i < old(sinks)@.len() ==> sink_inv(#[trigger] sink_views(old(sinks)@)[i]),
    ensures
        sink_views(final(sinks)@) == fan_finalize(sink_views(old(sinks)@)).0,
        r == fan_finalize(sink_views(old(sinks)@)).1,
        forall|i: int|
            0 <= i < final(sinks)@.len() ==> sink_inv(#[trigger] sink_views(final(sinks)@)[i]),
{
    let ghost pre = sink_views(old(sinks)@);
    let mut done: Vec<Sink> = Vec::new();
    while sinks.len() > 0
        invariant
            pre == sink_views(old(sinks)@),
            fan_finalize(pre).0 == sink_views(done@) + fan_finalize(sink_views(sinks@)).0,
            fan_finalize(pre).1 == fan_finalize(sink_views(sinks@)).1,
            forall|i: int| 0 <= i < sinks@.len() ==> sink_inv(#[trigger] sink_views(sinks@)[i]),
            forall|i: int| 0 <= i < done@.len() ==> sink_inv(#[trigger] sink_views(done@)[i]),
        decreases sinks@.len(),
    {
        let ghost cur = sink_views(sinks@);
        let ghost done_pre = sink_views(done@);
        let mut s = sinks.remove(0);
        proof {
            assert_seqs_equal!(sink_views(sinks@) == cur.skip(1));
            assert(s@ == cur[0]);
            assert(sink_inv(cur[0]));
        }
        let outcome = match &mut s {
            Sink::File(w) => w.finalize(),
            Sink::Playback(p) => p.finalize(),
        };
        match outcome {
            Ok(()) => {
                proof {
                    assert(sink_accepts_finalize(cur[0]));
                    assert(s@ == sink_after_finalize(cur[0]));
                    assert(sink_inv(s@));
                }
                done.push(s);
                proof {
                    assert_seqs_equal!(sink_views(done@) == done_pre.push(s@));
                    assert forall|i: int| 0 <= i < done@.len() implies sink_inv(
                        #[trigger] sink_views(done@)[i],
                    ) by {
                        if i < done@.len() - 1 {
                            assert(sink_views(done@)[i] == done_pre[i]);
                        } else {
                            assert(sink_views(done@)[i] == s@);
                        }
                    }
                    assert_seqs_equal!(fan_finalize(pre).0 ==
                        sink_views(done@) + fan_finalize(sink_views(sinks@)).0);
                }
            },
            Err(e) => {
                proof {
                    assert(!sink_accepts_finalize(cur[0]));
                    assert(e == AudioError::Finalized);
                    assert(s@ == cur[0]);
                    assert(fan_finalize(cur).0 == cur);
                    assert(fan_finalize(cur).1 == Err::<(), AudioError>(e));
                }
                sinks.insert(0, s);
                proof {
                    assert_seqs_equal!(sink_views(sinks@) == cur);
                }
                done.append(sinks);
                *sinks = done;
                proof {
                    assert_seqs_equal!(sink_views(sinks@) == done_pre + cur);
                    assert_seqs_equal!(fan_finalize(pre).0 == sink_views(sinks@));
                    assert(fan_finalize(pre).1 == Err::<(), AudioError>(e));
                    assert forall|i: int| 0 <= i < sinks@.len() implies sink_inv(
                        #[trigger] sink_views(sinks@)[i],
                    ) by {
                        if i < done_pre.len() {
                            assert(sink_views(sinks@)[i] == done_pre[i]);
                        } else {
                            assert(sink_views(sinks@)[i] == cur[i - done_pre.len()]);
                        }
                    }
                }
                return Err(e);
            },
        }
    }
    proof {
        assert(sink_views(sinks@).len() == 0);
        assert_seqs_equal!(fan_finalize(pre).0 == sink_views(done@));
    }
    *sinks = done;
    Ok(())
}

/// Draw `frames` consumer frames from every playback sink; file sinks
/// are untouched.  Returns the frames in sink order and whether any
/// playback sink raised its drain signal.
pub fn fan_out_pop_frames(sinks: &mut Vec<Sink>, frames: usize) -> (r: (Vec<u8>, bool))
    requires
        forall|i: int|
            0 <= i < old(sinks)@.len() ==> sink_inv(#[trigger] sink_views(old(sinks)@)[i]),
    ensures
        sink_views(final(sinks)@) == fan_pop_frames(sink_views(old(sinks)@), frames as nat).0,
        r.0@ == fan_pop_frames(sink_views(old(sinks)@), frames as nat).1,
        r.1 == fan_pop_frames(sink_views(old(sinks)@), frames as nat).2,
        forall|i: int|
            0 <= i < final(sinks)@.len() ==> sink_inv(#[trigger] sink_views(final(sinks)@)[i]),
{
    let ghost pre = sink_views(old(sinks)@);
    let ghost n = frames as nat;
    let mut done: Vec<Sink> = Vec::new();
    let mut out: Vec<u8> = Vec::new();
    let mut any_signal = false;
    while sinks.len() > 0
        invariant
            pre == sink_views(old(sinks)@),
            n == frames as nat,
            fan_pop_frames(pre, n).0 == sink_views(done@) + fan_pop_frames(
                sink_views(sinks@),
                n,
            ).0,
            fan_pop_frames(pre, n).1 == out@ + fan_pop_frames(sink_views(sinks@), n).1,
            fan_pop_frames(pre, n).2 == (any_signal || fan_pop_frames(sink_views(sinks@), n).2),
            forall|i: int| 0 <= i < sinks@.len() ==> sink_inv(#[trigger] sink_views(sinks@)[i]),
            forall|i: int| 0 <= i < done@.len() ==> sink_inv(#[trigger] sink_views(done@)[i]),
        decreases sinks@.len(),
    {
        let ghost cur = sink_views(sinks@);
        let ghost done_pre = sink_views(done@);
        let ghost out_pre = out@;
        let mut s = sinks.remove(0);
        proof {
            assert_seqs_equal!(sink_views(sinks@) == cur.skip(1));
            assert(s@ == cur[0]);
            assert(sink_inv(cur[0]));
        }
        match &mut s {
            Sink::Playback(p) => {
                let ghost p_pre = p@;
                let (mut part, sig) = p.fill_frames(frames);
                out.append(&mut part);
                if sig {
                    any_signal = true;
                }
                proof {
                    let one = spec_pop_frames(p_pre, n);
                    assert(p@ == one.0);
                    if p_pre.wf() {
                    }
                    lemma_pop_frames_preserve_wf(p_pre, n);
                    assert(sink_inv(s@));
                    assert_seqs_equal!(out@ == out_pre + one.1);
                }
            },
            Sink::File(_) => {},
        }
        done.push(s);
        proof {
            assert_seqs_equal!(sink_views(done@) == done_pre.push(s@));
            assert forall|i: int| 0 <= i < done@.len() implies sink_inv(
                #[trigger] sink_views(done@)[i],
            ) by {
                if i < done@.len() - 1 {
                    assert(sink_views(done@)[i] == done_pre[i]);
                } else {
                    assert(sink_views(done@)[i] == s@);
                }
            }
            assert_seqs_equal!(fan_pop_frames(pre, n).0 ==
                sink_views(done@) + fan_pop_frames(sink_views(sinks@), n).0);
            assert_seqs_equal!(fan_pop_frames(pre, n).1 ==
                out@ + fan_pop_frames(sink_views(sinks@), n).1);
        }
    }
    proof {
        assert(sink_views(sinks@).len() == 0);
        assert_seqs_equal!(fan_pop_frames(pre, n).0 == sink_views(done@));
        assert_seqs_equal!(fan_pop_frames(pre, n).1 == out@);
    }
    *sinks = done;
    (out, any_signal)
}

/// The consumer transition preserves a playback buffer's conservation
/// invariant over any number of frames.
proof fn lemma_pop_frames_preserve_wf(v: PlaybackView, n: nat)
    ensures
        v.wf() ==> spec_pop_frames(v, n).0.wf(),
    decreases n,
{
    if n > 0 {
        let (v1, frame, sig) = crate::playback::spec_pop_frame(v);
        if v.wf() {
            let fs = v.spec_frame_size() as int;
            if v.queue.len() >= fs {
                assert_seqs_equal!(v.pushed ==
                    (v.played + v.queue.take(fs)) + v.queue.skip(fs));
            }
            assert(v1.wf());
        }
        lemma_pop_frames_preserve_wf(v1, (n - 1) as nat);
    }
}

} // verus!
