//! One capture batch of audio, and the builder that reshapes the driver's
//! raw interleaved buffer into per-channel sample sequences.

use vstd::prelude::*;

verus! {

/// Tag identifying the sample encoding of a frame.
#[derive(Debug, Clone, Copy, PartialEq, Eq, Structural)]
pub enum RawType {
    /// Signed 16-bit little-endian samples.
    S16Le,
}

/// Error signalled when the driver's buffer does not match the reported
/// frame and channel counts; the callback skips the batch and continues.
#[derive(Debug, Clone, Copy, PartialEq, Eq, Structural)]
pub struct StreamError;

/// One capture batch: `samples[c]` is the ordered sample sequence of channel
/// `c`, and every channel holds exactly `sample_count` samples.
#[derive(Debug, Clone, PartialEq, Eq)]
pub struct AudioFrame {
    pub channel_count: usize,
    pub sample_count: usize,
    pub sample_rate: u32,
    pub raw_type: RawType,
    pub samples: Vec<Vec<i16>>,
}

impl AudioFrame {
    /// The per-channel sample sequences as mathematical sequences.
    pub open spec fn channels(self) -> Seq<Seq<i16>> {
        self.samples@.map_values(|ch: Vec<i16>| ch@)
    }

    /// Well-formedness: channel indices are contiguous `0..channel_count`
    /// and every channel's sequence has length `sample_count`.
    pub open spec fn wf(self) -> bool {
        &&& self.samples@.len() == self.channel_count
        &&& forall|c: int|
            0 <= c < self.samples@.len() ==> (#[trigger] self.samples@[c])@.len()
                == self.sample_count
    }
}

/// The sample a well-formed interleaved buffer holds for channel `c` of
/// frame `f`, when the buffer interleaves `cc` channels.
pub open spec fn interleaved_at(raw: Seq<i16>, cc: int, c: int, f: int) -> i16 {
    raw[f * cc + c]
}

/// Reshape the driver's interleaved buffer into one frame.
///
/// Succeeds exactly when the buffer length matches the reported counts;
/// the resulting frame deinterleaves the buffer: channel `c` of frame `f`
/// comes from position `f * channel_count + c`.
pub fn build_frame(
    raw: &Vec<i16>,
    frame_count: usize,
    channel_count: usize,
    sample_rate: u32,
) -> (r: Result<AudioFrame, StreamError>)
    ensures
        (r is Ok) <==> raw@.len() == frame_count * channel_count,
        (r matches Ok(frame) ==> {
            &&& frame.wf()
            &&& frame.channel_count == channel_count
            &&& frame.sample_count == frame_count
            &&& frame.sample_rate == sample_rate
            &&& frame.raw_type == RawType::S16Le
            &&& forall|c: int, f: int|
                0 <= c < channel_count && 0 <= f < frame_count ==> (
                #[trigger] frame.channels()[c][f]) == interleaved_at(
                    raw@,
                    channel_count as int,
                    c,
                    f,
                )
        }),
{
    let len = raw.len();
    let expected = match frame_count.checked_mul(channel_count) {
        Some(n) => n,
        None => {
            return Err(StreamError);
        },
    };
    if len != expected {
        return Err(StreamError);
    }
    let mut samples: Vec<Vec<i16>> = Vec::new();
    let mut c: usize = 0;
    while c < channel_count
        invariant
            c <= channel_count,
            raw@.len() == frame_count * channel_count,
            frame_count * channel_count <= usize::MAX,
            samples@.len() == c,
            forall|ci: int|
                0 <= ci < c ==> (#[trigger] samples@[ci])@.len() == frame_count,
            forall|ci: int, fi: int|
                0 <= ci < c && 0 <= fi < frame_count ==> (#[trigger] samples@[ci]@[fi]) == raw@[fi
                    * (channel_count as int) + ci],
        decreases channel_count - c,
    {
        let mut ch: Vec<i16> = Vec::new();
        let mut f: usize = 0;
        while f < frame_count
            invariant
                f <= frame_count,
                c < channel_count,
                raw@.len() == frame_count * channel_count,
                frame_count * channel_count <= usize::MAX,
                ch@.len() == f,
                forall|fi: int|
                    0 <= fi < f ==> (#[trigger] ch@[fi]) == raw@[fi * (channel_count as int) + c],
            decreases frame_count - f,
        {
            proof {
                assert(f * channel_count + c < frame_count * channel_count) by (nonlinear_arith)
                    requires
                        0 <= f < frame_count,
                        0 <= c < channel_count,
                ;
            }
            let idx = f * channel_count + c;
            ch.push(raw[idx]);
            f = f + 1;
        }
        samples.push(ch);
        c = c + 1;
    }
    let frame = AudioFrame {
        channel_count,
        sample_count: frame_count,
        sample_rate,
        raw_type: RawType::S16Le,
        samples,
    };
    proof {
        assert forall|ci: int, fi: int|
            0 <= ci < channel_count && 0 <= fi < frame_count implies (
        #[trigger] frame.channels()[ci][fi]) == interleaved_at(
            raw@,
            channel_count as int,
            ci,
            fi,
        ) by {
            assert(frame.channels()[ci] == frame.samples@[ci]@);
        }
    }
    Ok(frame)
}

} // verus!
