//! The envelope codec: a deterministic, self-describing binary wire form
//! for one audio frame, and its decoder.
//!
//! Layout, all integers little-endian: one tag byte naming the sample
//! encoding, then `channel_count`, `sample_count` and `sample_rate` as
//! 64-bit fields, then each channel's samples in channel order, two bytes
//! per sample.  Identical frames always produce identical bytes.

use vstd::prelude::*;

use crate::frame::AudioFrame;
use crate::frame::RawType;

verus! {

/// Wire tag of `RawType::S16Le`.
pub const TAG_S16LE: u8 = 1;

/// Fatal error of the serializer: the frame broke its invariant (a builder
/// defect) or is too large to lay out in one byte buffer.
#[derive(Debug, Clone, Copy, PartialEq, Eq, Structural)]
pub enum SerializationError {
    InvalidFrame,
    Oversize,
}

/// Error of the decoder, naming what the byte buffer got wrong.
#[derive(Debug, Clone, Copy, PartialEq, Eq, Structural)]
pub enum DecodeError {
    TooShort,
    UnknownTag,
    LengthMismatch,
}

/// The tag byte of a sample encoding.
pub open spec fn tag_of(t: RawType) -> u8 {
    match t {
        RawType::S16Le => TAG_S16LE,
    }
}

/// The eight little-endian bytes of a 64-bit value.
pub open spec fn u64_le(x: u64) -> Seq<u8> {
    seq![
        (x & 0xff) as u8,
        ((x >> 8) & 0xff) as u8,
        ((x >> 16) & 0xff) as u8,
        ((x >> 24) & 0xff) as u8,
        ((x >> 32) & 0xff) as u8,
        ((x >> 40) & 0xff) as u8,
        ((x >> 48) & 0xff) as u8,
        ((x >> 56) & 0xff) as u8,
    ]
}

/// The 64-bit value read from eight little-endian bytes.
pub open spec fn u64_from_le(b: Seq<u8>) -> u64
    recommends
        b.len() == 8,
{
    (b[0] as u64) | ((b[1] as u64) << 8) | ((b[2] as u64) << 16) | ((b[3] as u64) << 24) | ((
    b[4] as u64) << 32) | ((b[5] as u64) << 40) | ((b[6] as u64) << 48) | ((b[7] as u64) << 56)
}

/// The two little-endian bytes of one signed 16-bit sample.
pub open spec fn i16_le(x: i16) -> Seq<u8> {
    seq![((x as u16) & 0xff) as u8, ((x as u16) >> 8) as u8]
}

/// The sample read back from its two little-endian bytes.
pub open spec fn i16_from_le(b0: u8, b1: u8) -> i16 {
    (((b1 as u16) << 8) | (b0 as u16)) as i16
}

/// Reading back the eight bytes of a 64-bit value gives the value.
pub proof fn lemma_u64_le_round_trip(x: u64)
    ensures
        u64_from_le(u64_le(x)) == x,
{
    assert((((x & 0xff) as u8) as u64) | ((((x >> 8) & 0xff) as u8) as u64) << 8 | ((((x >> 16)
        & 0xff) as u8) as u64) << 16 | ((((x >> 24) & 0xff) as u8) as u64) << 24 | ((((x >> 32)
        & 0xff) as u8) as u64) << 32 | ((((x >> 40) & 0xff) as u8) as u64) << 40 | ((((x >> 48)
        & 0xff) as u8) as u64) << 48 | ((((x >> 56) & 0xff) as u8) as u64) << 56 == x)
        by (bit_vector);
}

/// Reading back the two bytes of a sample gives the sample.
pub proof fn lemma_i16_le_round_trip(x: i16)
    ensures
        i16_from_le(i16_le(x)[0], i16_le(x)[1]) == x,
{
    assert((((((x as u16) >> 8) as u8 as u16) << 8) | ((((x as u16) & 0xff) as u8) as u16)) as i16
        == x) by (bit_vector);
}

/// The bytes of one channel's samples, in order.
pub open spec fn channel_bytes(ch: Seq<i16>) -> Seq<u8>
    decreases ch.len(),
{
    if ch.len() == 0 {
        Seq::empty()
    } else {
        i16_le(ch[0]) + channel_bytes(ch.drop_first())
    }
}

/// The bytes of all channels, in channel order.
pub open spec fn channels_bytes(chs: Seq<Seq<i16>>) -> Seq<u8>
    decreases chs.len(),
{
    if chs.len() == 0 {
        Seq::empty()
    } else {
        channel_bytes(chs[0]) + channels_bytes(chs.drop_first())
    }
}

/// The envelope header: tag, then the three 64-bit fields.
pub open spec fn header_bytes(f: AudioFrame) -> Seq<u8> {
    seq![tag_of(f.raw_type)] + u64_le(f.channel_count as u64) + u64_le(f.sample_count as u64)
        + u64_le(f.sample_rate as u64)
}

/// The canonical wire form of a frame: a pure function of the frame alone.
pub open spec fn serialize_spec(f: AudioFrame) -> Seq<u8> {
    header_bytes(f) + channels_bytes(f.channels())
}

proof fn lemma_channel_bytes_push(s: Seq<i16>, x: i16)
    ensures
        channel_bytes(s.push(x)) == channel_bytes(s) + i16_le(x),
    decreases s.len(),
{
    if s.len() == 0 {
        assert(s.push(x).drop_first() =~= s);
        assert(channel_bytes(s.push(x)) =~= channel_bytes(s) + i16_le(x));
    } else {
        lemma_channel_bytes_push(s.drop_first(), x);
        assert(s.push(x).drop_first() =~= s.drop_first().push(x));
        assert(s.push(x)[0] == s[0]);
        assert(channel_bytes(s.push(x)) =~= channel_bytes(s) + i16_le(x));
    }
}

proof fn lemma_channels_bytes_push(s: Seq<Seq<i16>>, ch: Seq<i16>)
    ensures
        channels_bytes(s.push(ch)) == channels_bytes(s) + channel_bytes(ch),
    decreases s.len(),
{
    if s.len() == 0 {
        assert(s.push(ch).drop_first() =~= s);
        assert(channels_bytes(s.push(ch)) =~= channels_bytes(s) + channel_bytes(ch));
    } else {
        lemma_channels_bytes_push(s.drop_first(), ch);
        assert(s.push(ch).drop_first() =~= s.drop_first().push(ch));
        assert(s.push(ch)[0] == s[0]);
        assert(channels_bytes(s.push(ch)) =~= channels_bytes(s) + channel_bytes(ch));
    }
}

/// Length and placement of each sample's bytes within one channel's bytes.
proof fn lemma_channel_bytes_props(s: Seq<i16>)
    ensures
        channel_bytes(s).len() == 2 * s.len(),
        forall|f: int|
            0 <= f < s.len() ==> channel_bytes(s)[2 * f] == i16_le(s[f])[0] && channel_bytes(s)[2
                * f + 1] == i16_le(s[f])[1],
    decreases s.len(),
{
    if s.len() > 0 {
        lemma_channel_bytes_props(s.drop_first());
        assert forall|f: int| 0 <= f < s.len() implies channel_bytes(s)[2 * f] == i16_le(s[f])[0]
            && channel_bytes(s)[2 * f + 1] == i16_le(s[f])[1] by {
            if f > 0 {
                assert(channel_bytes(s)[2 * f] == channel_bytes(s.drop_first())[2 * (f - 1)]);
                assert(channel_bytes(s)[2 * f + 1] == channel_bytes(s.drop_first())[2 * (f - 1)
                    + 1]);
                assert(s.drop_first()[f - 1] == s[f]);
            }
        }
    }
}

/// Length and placement of each channel's bytes within the payload, when
/// every channel holds `sc` samples.
proof fn lemma_channels_bytes_props(s: Seq<Seq<i16>>, sc: int)
    requires
        sc >= 0,
        forall|c: int| 0 <= c < s.len() ==> (#[trigger] s[c]).len() == sc,
    ensures
        channels_bytes(s).len() == 2 * sc * s.len(),
        forall|c: int, f: int|
            0 <= c < s.len() && 0 <= f < sc ==> channels_bytes(s)[2 * (c * sc + f)] == i16_le(
                s[c][f],
            )[0] && channels_bytes(s)[2 * (c * sc + f) + 1] == i16_le(s[c][f])[1],
    decreases s.len(),
{
    if s.len() == 0 {
        assert(channels_bytes(s).len() == 2 * sc * 0);
    } else {
        let rest = s.drop_first();
        lemma_channels_bytes_props(rest, sc);
        lemma_channel_bytes_props(s[0]);
        assert(channels_bytes(s).len() == 2 * sc + 2 * sc * rest.len());
        assert(2 * sc + 2 * sc * rest.len() == 2 * sc * s.len()) by (nonlinear_arith)
            requires
                rest.len() + 1 == s.len(),
        ;
        assert forall|c: int, f: int| 0 <= c < s.len() && 0 <= f < sc implies channels_bytes(s)[2
            * (c * sc + f)] == i16_le(s[c][f])[0] && channels_bytes(s)[2 * (c * sc + f) + 1]
            == i16_le(s[c][f])[1] by {
            if c == 0 {
                assert(channels_bytes(s)[2 * f] == channel_bytes(s[0])[2 * f]);
                assert(channels_bytes(s)[2 * f + 1] == channel_bytes(s[0])[2 * f + 1]);
            } else {
                let i = 2 * (c * sc + f);
                let j = 2 * (((c - 1) * sc) + f);
                assert(i == 2 * sc + j && 0 <= j && (c - 1) * sc + f < sc * rest.len())
                    by (nonlinear_arith)
                    requires
                        1 <= c,
                        c < rest.len() + 1,
                        0 <= f < sc,
                        i == 2 * (c * sc + f),
                        j == 2 * (((c - 1) * sc) + f),
                ;
                assert(channels_bytes(rest).len() == 2 * sc * rest.len());
                assert(2 * (((c - 1) * sc) + f) + 1 < 2 * sc * rest.len()) by (nonlinear_arith)
                    requires
                        (c - 1) * sc + f < sc * rest.len(),
                ;
                assert(channels_bytes(s) == channel_bytes(s[0]) + channels_bytes(rest));
                assert(channel_bytes(s[0]).len() == 2 * sc);
                assert(channels_bytes(s)[i] == channels_bytes(rest)[j]);
                assert(channels_bytes(s)[i + 1] == channels_bytes(rest)[j + 1]);
                assert(rest[c - 1] == s[c]);
            }
        }
    }
}

/// Append the eight little-endian bytes of `x`.
fn push_u64_le(out: &mut Vec<u8>, x: u64)
    ensures
        final(out)@ == old(out)@ + u64_le(x),
{
    out.push((x & 0xff) as u8);
    out.push(((x >> 8) & 0xff) as u8);
    out.push(((x >> 16) & 0xff) as u8);
    out.push(((x >> 24) & 0xff) as u8);
    out.push(((x >> 32) & 0xff) as u8);
    out.push(((x >> 40) & 0xff) as u8);
    out.push(((x >> 48) & 0xff) as u8);
    out.push(((x >> 56) & 0xff) as u8);
    proof {
        assert(out@ =~= old(out)@ + u64_le(x));
    }
}

/// Read the 64-bit little-endian value at `off`.
fn read_u64_le(b: &Vec<u8>, off: usize) -> (r: u64)
    requires
        off + 8 <= b@.len(),
    ensures
        r == u64_from_le(b@.subrange(off as int, off + 8)),
{
    let n = b.len();
    proof {
        assert(off + 8 <= n);
    }
    let r = (b[off] as u64) | ((b[off + 1] as u64) << 8) | ((b[off + 2] as u64) << 16) | ((b[off
        + 3] as u64) << 24) | ((b[off + 4] as u64) << 32) | ((b[off + 5] as u64) << 40) | ((b[off
        + 6] as u64) << 48) | ((b[off + 7] as u64) << 56);
    proof {
        let s = b@.subrange(off as int, off + 8);
        assert(s[0] == b@[off as int]);
        assert(s[1] == b@[off + 1]);
        assert(s[2] == b@[off + 2]);
        assert(s[3] == b@[off + 3]);
        assert(s[4] == b@[off + 4]);
        assert(s[5] == b@[off + 5]);
        assert(s[6] == b@[off + 6]);
        assert(s[7] == b@[off + 7]);
    }
    r
}

/// The tag byte of an envelope.
pub open spec fn parsed_tag(b: Seq<u8>) -> u8 {
    b[0]
}

/// The channel count field of an envelope.
pub open spec fn parsed_cc(b: Seq<u8>) -> u64 {
    u64_from_le(b.subrange(1, 9))
}

/// The sample count field of an envelope.
pub open spec fn parsed_sc(b: Seq<u8>) -> u64 {
    u64_from_le(b.subrange(9, 17))
}

/// The sample rate field of an envelope.
pub open spec fn parsed_rate(b: Seq<u8>) -> u64 {
    u64_from_le(b.subrange(17, 25))
}

/// Whether a byte string is a valid envelope: known tag, counts that fit
/// the machine, and a payload of exactly the announced size.
pub open spec fn parse_ok(b: Seq<u8>) -> bool {
    &&& b.len() >= 25
    &&& b[0] == TAG_S16LE
    &&& parsed_cc(b) <= usize::MAX as u64
    &&& parsed_sc(b) <= usize::MAX as u64
    &&& parsed_rate(b) <= u32::MAX as u64
    &&& b.len() == 25 + 2 * ((parsed_cc(b) as int) * (parsed_sc(b) as int))
}

/// The sample of channel `c` at position `f` within a valid envelope.
pub open spec fn parsed_sample(b: Seq<u8>, c: int, f: int) -> i16 {
    let sc = parsed_sc(b) as int;
    i16_from_le(b[25 + 2 * (c * sc + f)], b[25 + 2 * (c * sc + f) + 1])
}

/// Serialize one frame into its canonical envelope.
///
/// Succeeds exactly when the frame is well-formed and its payload fits in
/// one byte buffer; the bytes produced are `serialize_spec` of the frame,
/// so identical frames always yield identical bytes.
pub fn serialize(frame: &AudioFrame) -> (r: Result<Vec<u8>, SerializationError>)
    ensures
        (r is Ok) <==> (frame.wf() && 25 + 2 * ((frame.channel_count as int) * (
        frame.sample_count as int)) <= usize::MAX),
        (r matches Ok(bytes) ==> bytes@ == serialize_spec(*frame)),
        (r matches Err(e) ==> e == (if !frame.wf() {
            SerializationError::InvalidFrame
        } else {
            SerializationError::Oversize
        })),
{
    if frame.samples.len() != frame.channel_count {
        return Err(SerializationError::InvalidFrame);
    }
    let mut c: usize = 0;
    while c < frame.samples.len()
        invariant
            c <= frame.samples@.len(),
            forall|ci: int|
                0 <= ci < c ==> (#[trigger] frame.samples@[ci])@.len() == frame.sample_count,
        decreases frame.samples@.len() - c,
    {
        if frame.samples[c].len() != frame.sample_count {
            return Err(SerializationError::InvalidFrame);
        }
        c = c + 1;
    }
    let total = match frame.channel_count.checked_mul(frame.sample_count) {
        Some(n) => match n.checked_mul(2) {
            Some(m) => match m.checked_add(25) {
                Some(t) => t,
                None => {
                    return Err(SerializationError::Oversize);
                },
            },
            None => {
                return Err(SerializationError::Oversize);
            },
        },
        None => {
            return Err(SerializationError::Oversize);
        },
    };
    let mut out: Vec<u8> = Vec::new();
    out.push(TAG_S16LE);
    push_u64_le(&mut out, frame.channel_count as u64);
    push_u64_le(&mut out, frame.sample_count as u64);
    push_u64_le(&mut out, frame.sample_rate as u64);
    proof {
        assert(out@ =~= header_bytes(*frame));
        assert(frame.channels().take(0) =~= Seq::<Seq<i16>>::empty());
        assert(out@ =~= header_bytes(*frame) + channels_bytes(frame.channels().take(0)));
    }
    let mut c: usize = 0;
    while c < frame.channel_count
        invariant
            c <= frame.channel_count,
            frame.wf(),
            out@ == header_bytes(*frame) + channels_bytes(frame.channels().take(c as int)),
        decreases frame.channel_count - c,
    {
        let ghost chs = frame.channels();
        let mut f: usize = 0;
        while f < frame.sample_count
            invariant
                f <= frame.sample_count,
                c < frame.channel_count,
                frame.wf(),
                chs == frame.channels(),
                out@ == header_bytes(*frame) + channels_bytes(chs.take(c as int)) + channel_bytes(
                    chs[c as int].take(f as int),
                ),
            decreases frame.sample_count - f,
        {
            let x: i16 = frame.samples[c][f];
            out.push(((x as u16) & 0xff) as u8);
            out.push(((x as u16) >> 8) as u8);
            proof {
                let ch = chs[c as int];
                assert(ch.take(f + 1) =~= ch.take(f as int).push(ch[f as int]));
                lemma_channel_bytes_push(ch.take(f as int), ch[f as int]);
                assert(out@ =~= header_bytes(*frame) + channels_bytes(chs.take(c as int))
                    + channel_bytes(ch.take(f + 1)));
            }
            f = f + 1;
        }
        proof {
            let ch = chs[c as int];
            assert(ch.take(frame.sample_count as int) =~= ch);
            assert(chs.take(c + 1) =~= chs.take(c as int).push(ch));
            lemma_channels_bytes_push(chs.take(c as int), ch);
            assert(out@ =~= header_bytes(*frame) + channels_bytes(chs.take(c + 1)));
        }
        c = c + 1;
    }
    proof {
        assert(frame.channels().take(frame.channel_count as int) =~= frame.channels());
    }
    Ok(out)
}

/// Decode an envelope back into a frame.
///
/// Succeeds exactly on valid envelopes; the frame returned carries the
/// decoded fields and samples, and each error names the first thing the
/// buffer got wrong.
pub fn deserialize(bytes: &Vec<u8>) -> (r: Result<AudioFrame, DecodeError>)
    ensures
        (r is Ok) <==> parse_ok(bytes@),
        (r matches Ok(f) ==> {
            &&& f.wf()
            &&& f.raw_type == RawType::S16Le
            &&& f.channel_count as u64 == parsed_cc(bytes@)
            &&& f.sample_count as u64 == parsed_sc(bytes@)
            &&& f.sample_rate as u64 == parsed_rate(bytes@)
            &&& forall|c: int, s: int|
                0 <= c < f.channel_count && 0 <= s < f.sample_count ==> (
                #[trigger] f.channels()[c][s]) == parsed_sample(bytes@, c, s)
        }),
        (r matches Err(e) ==> e == (if bytes@.len() < 25 {
            DecodeError::TooShort
        } else if bytes@[0] != TAG_S16LE {
            DecodeError::UnknownTag
        } else {
            DecodeError::LengthMismatch
        })),
{
    let n = bytes.len();
    if n < 25 {
        return Err(DecodeError::TooShort);
    }
    if bytes[0] != TAG_S16LE {
        return Err(DecodeError::UnknownTag);
    }
    let cc64 = read_u64_le(bytes, 1);
    let sc64 = read_u64_le(bytes, 9);
    let rate64 = read_u64_le(bytes, 17);
    if cc64 > usize::MAX as u64 || sc64 > usize::MAX as u64 || rate64 > u32::MAX as u64 {
        return Err(DecodeError::LengthMismatch);
    }
    let cc = cc64 as usize;
    let sc = sc64 as usize;
    let total = match cc.checked_mul(sc) {
        Some(p) => match p.checked_mul(2) {
            Some(m) => match m.checked_add(25) {
                Some(t) => t,
                None => {
                    return Err(DecodeError::LengthMismatch);
                },
            },
            None => {
                return Err(DecodeError::LengthMismatch);
            },
        },
        None => {
            return Err(DecodeError::LengthMismatch);
        },
    };
    if n != total {
        return Err(DecodeError::LengthMismatch);
    }
    let mut samples: Vec<Vec<i16>> = Vec::new();
    let mut c: usize = 0;
    while c < cc
        invariant
            c <= cc,
            bytes@.len() == 25 + 2 * ((cc as int) * (sc as int)),
            bytes@.len() <= usize::MAX,
            cc == parsed_cc(bytes@),
            sc == parsed_sc(bytes@),
            samples@.len() == c,
            forall|ci: int| 0 <= ci < c ==> (#[trigger] samples@[ci])@.len() == sc,
            forall|ci: int, fi: int|
                0 <= ci < c && 0 <= fi < sc ==> (#[trigger] samples@[ci]@[fi]) == parsed_sample(
                    bytes@,
                    ci,
                    fi,
                ),
        decreases cc - c,
    {
        let mut ch: Vec<i16> = Vec::new();
        let mut f: usize = 0;
        while f < sc
            invariant
                f <= sc,
                c < cc,
                bytes@.len() == 25 + 2 * ((cc as int) * (sc as int)),
                bytes@.len() <= usize::MAX,
                cc == parsed_cc(bytes@),
                sc == parsed_sc(bytes@),
                ch@.len() == f,
                forall|fi: int|
                    0 <= fi < f ==> (#[trigger] ch@[fi]) == parsed_sample(bytes@, c as int, fi),
            decreases sc - f,
        {
            proof {
                assert(c * sc + f < cc * sc && 0 <= c * sc + f) by (nonlinear_arith)
                    requires
                        0 <= c < cc,
                        0 <= f < sc,
                ;
            }
            let off = 25 + 2 * (c * sc + f);
            let b0 = bytes[off];
            let b1 = bytes[off + 1];
            let v = ((((b1 as u16) << 8) | (b0 as u16)) as u16) as i16;
            ch.push(v);
            f = f + 1;
        }
        samples.push(ch);
        c = c + 1;
    }
    let frame = AudioFrame {
        channel_count: cc,
        sample_count: sc,
        sample_rate: rate64 as u32,
        raw_type: RawType::S16Le,
        samples,
    };
    proof {
        assert forall|ci: int, fi: int|
            0 <= ci < frame.channel_count && 0 <= fi < frame.sample_count implies (
        #[trigger] frame.channels()[ci][fi]) == parsed_sample(bytes@, ci, fi) by {
            assert(frame.channels()[ci] == frame.samples@[ci]@);
        }
    }
    Ok(frame)
}

/// Round-trip fidelity: the canonical envelope of any well-formed frame
/// that fits in one byte buffer is a valid envelope, and decoding it gives
/// back the frame's channel count, sample count, sample rate, sample
/// encoding and every channel's sample sequence exactly.
pub proof fn lemma_envelope_round_trip(f: AudioFrame)
    requires
        f.wf(),
        25 + 2 * ((f.channel_count as int) * (f.sample_count as int)) <= usize::MAX,
    ensures
        parse_ok(serialize_spec(f)),
        parsed_cc(serialize_spec(f)) == f.channel_count as u64,
        parsed_sc(serialize_spec(f)) == f.sample_count as u64,
        parsed_rate(serialize_spec(f)) == f.sample_rate as u64,
        parsed_tag(serialize_spec(f)) == tag_of(f.raw_type),
        forall|c: int, s: int|
            0 <= c < f.channel_count && 0 <= s < f.sample_count ==> parsed_sample(
                serialize_spec(f),
                c,
                s,
            ) == f.channels()[c][s],
{
    let b = serialize_spec(f);
    let cc = f.channel_count as int;
    let sc = f.sample_count as int;
    lemma_channels_bytes_props(f.channels(), sc);
    assert(2 * sc * cc == 2 * (cc * sc)) by (nonlinear_arith);
    assert(b.len() == 25 + 2 * (cc * sc));
    assert(b.subrange(1, 9) =~= u64_le(f.channel_count as u64));
    assert(b.subrange(9, 17) =~= u64_le(f.sample_count as u64));
    assert(b.subrange(17, 25) =~= u64_le(f.sample_rate as u64));
    lemma_u64_le_round_trip(f.channel_count as u64);
    lemma_u64_le_round_trip(f.sample_count as u64);
    lemma_u64_le_round_trip(f.sample_rate as u64);
    assert(b[0] == tag_of(f.raw_type));
    assert forall|c: int, s: int| 0 <= c < cc && 0 <= s < sc implies parsed_sample(b, c, s)
        == f.channels()[c][s] by {
        let i = 2 * (c * sc + s);
        assert(0 <= c * sc + s && c * sc + s < cc * sc) by (nonlinear_arith)
            requires
                0 <= c < cc,
                0 <= s < sc,
        ;
        assert(b[25 + i] == channels_bytes(f.channels())[i]);
        assert(b[25 + i + 1] == channels_bytes(f.channels())[i + 1]);
        lemma_i16_le_round_trip(f.channels()[c][s]);
    }
}

} // verus!
