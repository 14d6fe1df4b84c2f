//! Packaging of encoded Opus frames: 20 ms framing of the PCM input, the
//! two header packets, granule positions, and the Ogg stream around them.

use vstd::prelude::*;
use crate::error::AudioError;
use crate::ogg_io::{ogg_bytes, random_serial, writer_log, EndInfo, PacketRecord, PageWriter};
use crate::pcm::{downmix, downmix_spec};
use crate::resample::{output_len_spec, resample, resampled};
use crate::units::held;

verus! {

/// Samples in one frame: 20 ms at 48 kHz.
pub const FRAME_SAMPLES: usize = 960;

/// The rate, in Hz, at which the codec runs.
pub const OPUS_SAMPLE_RATE: u32 = 48000;

/// The longest packet that one encoded frame can be.
pub const MAX_PACKET_BYTES: usize = 1275;

/// The most frames that one stream holds.
pub const MAX_FRAMES: usize = 0xFF_FFF0;

/// The bitrate of a fresh encoder, in bits per second.
pub const DEFAULT_BITRATE: i32 = 12000;

/// `x` as `width` bytes, least significant first.
pub open spec fn le_bytes(x: nat, width: nat) -> Seq<u8>
    decreases width,
{
    if width == 0 {
        Seq::empty()
    } else {
        seq![(x % 256) as u8] + le_bytes(x / 256, (width - 1) as nat)
    }
}

/// The bytes `OpusHead`.
pub open spec fn head_magic() -> Seq<u8> {
    seq![0x4fu8, 0x70u8, 0x75u8, 0x73u8, 0x48u8, 0x65u8, 0x61u8, 0x64u8]
}

/// The bytes `OpusTags`.
pub open spec fn tags_magic() -> Seq<u8> {
    seq![0x4fu8, 0x70u8, 0x75u8, 0x73u8, 0x54u8, 0x61u8, 0x67u8, 0x73u8]
}

/// The vendor string, `rustio`.
pub open spec fn vendor() -> Seq<u8> {
    seq![0x72u8, 0x75u8, 0x73u8, 0x74u8, 0x69u8, 0x6fu8]
}

/// The identification header: magic, version 1, one channel, no
/// pre-skip, an input rate of 48000 Hz, no output gain, mapping family 0.
pub open spec fn id_header_spec() -> Seq<u8> {
    head_magic() + seq![1u8, 1u8] + le_bytes(0, 2) + le_bytes(48000, 4) + le_bytes(0, 2)
        + seq![0u8]
}

/// The comment header: magic, the vendor string behind its length, and a
/// comment count of zero.
pub open spec fn comment_header_spec() -> Seq<u8> {
    tags_magic() + le_bytes(vendor().len(), 4) + vendor() + le_bytes(0, 4)
}

/// The payload of every packet of a sequence, in order.
pub open spec fn payloads_of(packets: Seq<Vec<u8>>) -> Seq<Seq<u8>> {
    Seq::new(packets.len(), |i: int| packets[i]@)
}

/// The payload of every encoded frame, in order.
pub open spec fn payloads(frames: &Vec<Vec<u8>>) -> Seq<Seq<u8>> {
    payloads_of(frames@)
}

/// Whether `at_rate` is the mono signal at the rate of the codec: the
/// signal itself if it is at that rate already, and else its conversion
/// by linear interpolation, sample by sample at the positions of
/// [`resampled`].
pub open spec fn at_codec_rate<T, B: Fn(T, T, usize, usize) -> T>(
    mono: Seq<T>,
    sample_rate: u32,
    blend: B,
    at_rate: Seq<T>,
) -> bool {
    if sample_rate == OPUS_SAMPLE_RATE {
        at_rate == mono
    } else {
        &&& at_rate.len() == held(output_len_spec(mono.len(), sample_rate as nat, 48000))
        &&& forall|i: int|
            0 <= i < at_rate.len() ==> resampled(mono, at_rate.len(), blend, i, #[trigger] at_rate[i])
    }
}

/// Whether `pcm` is what the encoder makes of the samples of a file: the
/// first channel of stereo, brought to the rate of the codec as
/// `at_rate`, and every sample of that quantised to 16 bits.
pub open spec fn prepared<T, B: Fn(T, T, usize, usize) -> T, Q: Fn(T) -> i16>(
    samples: Seq<T>,
    channels: u16,
    sample_rate: u32,
    blend: B,
    quantise: Q,
    at_rate: Seq<T>,
    pcm: Seq<i16>,
) -> bool {
    &&& at_codec_rate(downmix_spec(samples, channels), sample_rate, blend, at_rate)
    &&& pcm.len() == at_rate.len()
    &&& forall|i: int|
        0 <= i < at_rate.len() ==> call_ensures(quantise, (at_rate[i],), #[trigger] pcm[i])
}

/// Whether `packets` are what the codec made of `pcm`: `blocks` are its
/// frames of 960 samples, the last one padded with zeros, and every
/// packet is what `encode` gave for the block in its place at the given
/// bitrate.
pub open spec fn encoded<E: Fn(&Vec<i16>, i32) -> Option<Vec<u8>>>(
    pcm: Seq<i16>,
    bitrate: i32,
    encode: E,
    blocks: Seq<Vec<i16>>,
    packets: Seq<Vec<u8>>,
) -> bool {
    &&& blocks.len() == frame_count_spec(pcm.len())
    &&& packets.len() == blocks.len()
    &&& forall|k: int| 0 <= k < blocks.len() ==> (#[trigger] blocks[k])@ == frame_spec(pcm, k)
    &&& forall|k: int|
        0 <= k < blocks.len() ==> call_ensures(
            encode,
            (&blocks[k], bitrate),
            Some(#[trigger] packets[k]),
        )
}

/// Whether the codec gave no packet for frame `k` of `pcm`, handed to it
/// as `block`.
pub open spec fn encode_failed<E: Fn(&Vec<i16>, i32) -> Option<Vec<u8>>>(
    pcm: Seq<i16>,
    bitrate: i32,
    encode: E,
    k: int,
    block: Vec<i16>,
) -> bool {
    &&& 0 <= k < frame_count_spec(pcm.len())
    &&& block@ == frame_spec(pcm, k)
    &&& call_ensures(encode, (&block, bitrate), None::<Vec<u8>>)
}

/// Whether `bytes` is the stream of a file: its samples prepared as
/// `pcm`, the frames of that encoded as `packets`, which fit, and the
/// packets of [`stream_records`] for them, under `serial`, as the page
/// layer emits them.
pub open spec fn stream_of<
    T,
    B: Fn(T, T, usize, usize) -> T,
    Q: Fn(T) -> i16,
    E: Fn(&Vec<i16>, i32) -> Option<Vec<u8>>,
>(
    samples: Seq<T>,
    channels: u16,
    sample_rate: u32,
    bitrate: i32,
    blend: B,
    quantise: Q,
    encode: E,
    at_rate: Seq<T>,
    pcm: Seq<i16>,
    blocks: Seq<Vec<i16>>,
    packets: Seq<Vec<u8>>,
    serial: u32,
    bytes: Seq<u8>,
) -> bool {
    &&& prepared(samples, channels, sample_rate, blend, quantise, at_rate, pcm)
    &&& encoded(pcm, bitrate, encode, blocks, packets)
    &&& frames_fit(payloads_of(packets))
    &&& bytes == ogg_bytes(stream_records(payloads_of(packets), serial))
}

/// Whether a file has no stream: its samples prepared as `pcm`, and then
/// either the codec gave no packet for frame `k`, or it gave `packets`
/// that do not fit.
pub open spec fn stream_refused<
    T,
    B: Fn(T, T, usize, usize) -> T,
    Q: Fn(T) -> i16,
    E: Fn(&Vec<i16>, i32) -> Option<Vec<u8>>,
>(
    samples: Seq<T>,
    channels: u16,
    sample_rate: u32,
    bitrate: i32,
    blend: B,
    quantise: Q,
    encode: E,
    at_rate: Seq<T>,
    pcm: Seq<i16>,
    k: int,
    block: Vec<i16>,
    blocks: Seq<Vec<i16>>,
    packets: Seq<Vec<u8>>,
) -> bool {
    &&& prepared(samples, channels, sample_rate, blend, quantise, at_rate, pcm)
    &&& encode_failed(pcm, bitrate, encode, k, block) || (encoded(
        pcm,
        bitrate,
        encode,
        blocks,
        packets,
    ) && !frames_fit(payloads_of(packets)))
}

/// Whether a list of encoded frames can be packaged: no frame is longer
/// than a packet may be, and there are not too many of them.
pub open spec fn frames_fit(frames: Seq<Seq<u8>>) -> bool {
    &&& frames.len() <= MAX_FRAMES
    &&& forall|k: int| 0 <= k < frames.len() ==> (#[trigger] frames[k]).len() <= MAX_PACKET_BYTES
}

/// The packets of a stream, as the page layer receives them: the two
/// headers, each alone on its page at granule position 0; one packet per
/// frame, each 960 samples further; an empty packet that ends the stream.
pub open spec fn stream_records(frames: Seq<Seq<u8>>, serial: u32) -> Seq<PacketRecord> {
    seq![
        (id_header_spec(), serial, EndInfo::EndPage, 0u64),
        (comment_header_spec(), serial, EndInfo::EndPage, 0u64),
    ] + Seq::new(
        frames.len(),
        |k: int| (frames[k], serial, EndInfo::NormalPacket, (960 * (k + 1)) as u64),
    ) + seq![(Seq::<u8>::empty(), serial, EndInfo::EndStream, (960 * frames.len()) as u64)]
}

/// Sample `j` of frame `k` of `pcm`: the input where it reaches, zero
/// behind its end.
pub open spec fn frame_sample(pcm: Seq<i16>, k: int, j: int) -> i16 {
    if 960 * k + j < pcm.len() {
        pcm[960 * k + j]
    } else {
        0i16
    }
}

/// Frame `k` of `pcm`.
pub open spec fn frame_spec(pcm: Seq<i16>, k: int) -> Seq<i16> {
    Seq::new(960, |j: int| frame_sample(pcm, k, j))
}

/// The number of frames that `len` samples fill, the last one padded.
pub open spec fn frame_count_spec(len: nat) -> nat {
    (len + 959) / 960
}

/// Appends `x` as four bytes, least significant first.
fn push_le32(out: &mut Vec<u8>, x: u32)
    ensures
        final(out)@ == old(out)@ + le_bytes(x as nat, 4),
{
    let b0: u8 = (x % 256) as u8;
    let b1: u8 = (x / 256 % 256) as u8;
    let b2: u8 = (x / 65536 % 256) as u8;
    let b3: u8 = (x / 16777216 % 256) as u8;
    out.push(b0);
    out.push(b1);
    out.push(b2);
    out.push(b3);
    proof {
        reveal_with_fuel(le_bytes, 5);
        let n = x as nat;
        assert(n / 256 / 256 == n / 65536);
        assert(n / 256 / 256 / 256 == n / 16777216);
        assert(final(out)@ =~= old(out)@ + le_bytes(n, 4));
    }
}

/// Appends `x` as two bytes, least significant first.
fn push_le16(out: &mut Vec<u8>, x: u16)
    ensures
        final(out)@ == old(out)@ + le_bytes(x as nat, 2),
{
    let b0: u8 = (x % 256) as u8;
    let b1: u8 = (x / 256 % 256) as u8;
    out.push(b0);
    out.push(b1);
    proof {
        reveal_with_fuel(le_bytes, 3);
        assert(final(out)@ =~= old(out)@ + le_bytes(x as nat, 2));
    }
}

/// The two headers written out byte by byte.
pub proof fn header_bytes_law()
    ensures
        id_header_spec() == seq![
            0x4fu8, 0x70u8, 0x75u8, 0x73u8, 0x48u8, 0x65u8, 0x61u8, 0x64u8,
            1u8, 1u8, 0u8, 0u8, 0x80u8, 0xbbu8, 0u8, 0u8, 0u8, 0u8, 0u8,
        ],
        comment_header_spec() == seq![
            0x4fu8, 0x70u8, 0x75u8, 0x73u8, 0x54u8, 0x61u8, 0x67u8, 0x73u8,
            6u8, 0u8, 0u8, 0u8, 0x72u8, 0x75u8, 0x73u8, 0x74u8, 0x69u8, 0x6fu8,
            0u8, 0u8, 0u8, 0u8,
        ],
{
    reveal_with_fuel(le_bytes, 5);
    assert(id_header_spec() =~= seq![
        0x4fu8, 0x70u8, 0x75u8, 0x73u8, 0x48u8, 0x65u8, 0x61u8, 0x64u8,
        1u8, 1u8, 0u8, 0u8, 0x80u8, 0xbbu8, 0u8, 0u8, 0u8, 0u8, 0u8,
    ]);
    assert(comment_header_spec() =~= seq![
        0x4fu8, 0x70u8, 0x75u8, 0x73u8, 0x54u8, 0x61u8, 0x67u8, 0x73u8,
        6u8, 0u8, 0u8, 0u8, 0x72u8, 0x75u8, 0x73u8, 0x74u8, 0x69u8, 0x6fu8,
        0u8, 0u8, 0u8, 0u8,
    ]);
}

/// The identification header packet.
pub fn id_header() -> (header: Vec<u8>)
    ensures
        header@ == id_header_spec(),
{
    let mut header: Vec<u8> = vec![0x4fu8, 0x70u8, 0x75u8, 0x73u8, 0x48u8, 0x65u8, 0x61u8, 0x64u8];
    header.push(1u8);
    header.push(1u8);
    push_le16(&mut header, 0u16);
    push_le32(&mut header, OPUS_SAMPLE_RATE);
    push_le16(&mut header, 0u16);
    header.push(0u8);
    assert(header@ =~= id_header_spec());
    header
}

/// The comment header packet.
pub fn comment_header() -> (header: Vec<u8>)
    ensures
        header@ == comment_header_spec(),
{
    let mut header: Vec<u8> = vec![0x4fu8, 0x70u8, 0x75u8, 0x73u8, 0x54u8, 0x61u8, 0x67u8, 0x73u8];
    let name: Vec<u8> = vec![0x72u8, 0x75u8, 0x73u8, 0x74u8, 0x69u8, 0x6fu8];
    push_le32(&mut header, 6u32);
    let mut i: usize = 0;
    while i < name.len()
        invariant
            i <= name.len(),
            name@ == vendor(),
            header@ == tags_magic() + le_bytes(6, 4) + vendor().take(i as int),
        decreases name.len() - i,
    {
        header.push(name[i]);
        i = i + 1;
        assert(header@ =~= tags_magic() + le_bytes(6, 4) + vendor().take(i as int));
    }
    assert(vendor().take(6) =~= vendor());
    push_le32(&mut header, 0u32);
    header
}

/// The layout of every packaged stream. It has three packets more than
/// frames. The first packet starts with `OpusHead` and the second with
/// `OpusTags`. Granule positions never fall from one packet to the next.
/// Both headers stand at position 0, every frame's packet stands exactly
/// 960 after the packet before it, and the closing packet, which is empty
/// and ends the stream, repeats the position of the packet before it.
pub proof fn stream_layout_law(frames: Seq<Seq<u8>>, serial: u32)
    requires
        frames_fit(frames),
    ensures
        ({
            let s = stream_records(frames, serial);
            &&& s.len() == frames.len() + 3
            &&& s[0].0.take(8) == head_magic()
            &&& s[1].0.take(8) == tags_magic()
            &&& s[0].3 == 0 && s[1].3 == 0
            &&& forall|i: int, j: int| 0 <= i <= j < s.len() ==> s[i].3 <= s[j].3
            &&& forall|i: int| 2 <= i < s.len() - 1 ==> (#[trigger] s[i]).3 == s[i - 1].3 + 960
            &&& forall|i: int| 2 <= i < s.len() - 1 ==> (#[trigger] s[i]).0 == frames[i - 2]
            &&& s[s.len() - 1].3 == s[s.len() - 2].3
            &&& s[s.len() - 1].3 == 960 * frames.len()
            &&& s[s.len() - 1].2 == EndInfo::EndStream
            &&& s[s.len() - 1].0.len() == 0
        }),
{
    let s = stream_records(frames, serial);
    header_bytes_law();
    assert(s[0].0.take(8) =~= head_magic());
    assert(s[1].0.take(8) =~= tags_magic());
    assert forall|i: int| 0 <= i < s.len() implies s[i].3 == (if i < 2 {
        0int
    } else if i < s.len() - 1 {
        960 * (i - 1)
    } else {
        960 * (frames.len() as int)
    }) by {}
}

/// The number of frames that `len` samples fill, the last one padded.
pub fn frame_count(len: usize) -> (count: usize)
    ensures
        count == frame_count_spec(len as nat),
{
    if len % FRAME_SAMPLES == 0 {
        len / FRAME_SAMPLES
    } else {
        len / FRAME_SAMPLES + 1
    }
}

/// Frame `k` of `pcm`: 960 samples, zero where the input has ended. A
/// frame past the end of the input is silence.
pub fn frame(pcm: &Vec<i16>, k: usize) -> (out: Vec<i16>)
    ensures
        out@ == frame_spec(pcm@, k as int),
{
    let mut out: Vec<i16> = Vec::with_capacity(FRAME_SAMPLES);
    let inside: bool = k <= pcm.len() / FRAME_SAMPLES;
    let start: usize = if inside {
        k * FRAME_SAMPLES
    } else {
        pcm.len()
    };
    let mut j: usize = 0;
    while j < FRAME_SAMPLES
        invariant
            j <= 960,
            start <= pcm@.len(),
            inside ==> start == 960 * k,
            !inside ==> 960 * k >= pcm@.len(),
            out@.len() == j,
            forall|i: int| 0 <= i < j ==> out@[i] == frame_sample(pcm@, k as int, i),
        decreases 960 - j,
    {
        let sample: i16 = if inside && j < pcm.len() - start {
            pcm[start + j]
        } else {
            0i16
        };
        out.push(sample);
        j = j + 1;
    }
    assert(out@ =~= frame_spec(pcm@, k as int));
    out
}

/// All frames of `pcm`, in order.
pub fn frames(pcm: &Vec<i16>) -> (out: Vec<Vec<i16>>)
    ensures
        out@.len() == frame_count_spec(pcm@.len()),
        forall|k: int| 0 <= k < out@.len() ==> (#[trigger] out@[k])@ == frame_spec(pcm@, k),
{
    let count: usize = frame_count(pcm.len());
    let mut out: Vec<Vec<i16>> = Vec::with_capacity(count);
    let mut k: usize = 0;
    while k < count
        invariant
            k <= count,
            out@.len() == k,
            forall|i: int| 0 <= i < k ==> (#[trigger] out@[i])@ == frame_spec(pcm@, i),
        decreases count - k,
    {
        let next: Vec<i16> = frame(pcm, k);
        out.push(next);
        k = k + 1;
    }
    out
}

/// Whether `frames` can be packaged.
pub fn check_frames(frames: &Vec<Vec<u8>>) -> (fit: bool)
    ensures
        fit == frames_fit(payloads(frames)),
{
    if frames.len() > MAX_FRAMES {
        return false;
    }
    let mut k: usize = 0;
    while k < frames.len()
        invariant
            k <= frames@.len(),
            forall|i: int| 0 <= i < k ==> (#[trigger] payloads(frames)[i]).len() <= MAX_PACKET_BYTES,
        decreases frames.len() - k,
    {
        if frames[k].len() > MAX_PACKET_BYTES {
            assert(payloads(frames)[k as int].len() > MAX_PACKET_BYTES);
            return false;
        }
        k = k + 1;
    }
    true
}

/// Wraps encoded frames into an Ogg Opus stream with the given serial.
///
/// Frames that do not fit are refused as a codec failure before anything
/// is written. Otherwise the page layer receives exactly the packets of
/// [`stream_records`], and the result holds what it emitted for them.
pub fn package(frames: &Vec<Vec<u8>>, serial: u32) -> (r: Result<Vec<u8>, AudioError>)
    ensures
        !frames_fit(payloads(frames)) ==> r == Err::<Vec<u8>, AudioError>(AudioError::CodecError),
        frames_fit(payloads(frames)) ==> r is Ok && r->Ok_0@ == ogg_bytes(
            stream_records(payloads(frames), serial),
        ),
{
    if !check_frames(frames) {
        return Err(AudioError::CodecError);
    }
    let ghost records = stream_records(payloads(frames), serial);
    proof {
        header_bytes_law();
    }
    let mut writer = PageWriter::new();
    match writer.write(id_header(), serial, EndInfo::EndPage, 0) {
        Ok(()) => {},
        Err(_) => unreached(),
    }
    match writer.write(comment_header(), serial, EndInfo::EndPage, 0) {
        Ok(()) => {},
        Err(_) => unreached(),
    }
    assert(writer_log(writer) =~= records.take(2));
    let mut granule: u64 = 0;
    let mut k: usize = 0;
    while k < frames.len()
        invariant
            k <= frames@.len(),
            frames_fit(payloads(frames)),
            records == stream_records(payloads(frames), serial),
            granule == 960 * k,
            writer_log(writer) == records.take(k + 2),
        decreases frames.len() - k,
    {
        granule = granule + 960;
        let data: Vec<u8> = frames[k].clone();
        assert(data@ == payloads(frames)[k as int]);
        match writer.write(data, serial, EndInfo::NormalPacket, granule) {
            Ok(()) => {},
            Err(_) => unreached(),
        }
        assert(writer_log(writer) =~= records.take(k + 3));
        k = k + 1;
    }
    match writer.write(Vec::new(), serial, EndInfo::EndStream, granule) {
        Ok(()) => {},
        Err(_) => unreached(),
    }
    assert(writer_log(writer) =~= records);
    Ok(writer.into_bytes())
}

/// Makes mono 16-bit samples at the rate of the codec from the samples
/// of a file: the first channel of stereo, converted by linear
/// interpolation if the file is at another rate, and quantised. `blend`
/// and `quantise` are the caller's arithmetic.
pub fn prepare_pcm<T: Copy, B: Fn(T, T, usize, usize) -> T, Q: Fn(T) -> i16>(
    samples: &Vec<T>,
    channels: u16,
    sample_rate: u32,
    blend: B,
    quantise: Q,
) -> (pcm: Vec<i16>)
    requires
        forall|a: T, b: T, weight: usize, scale: usize|
            weight < scale ==> call_requires(blend, (a, b, weight, scale)),
        forall|sample: T| call_requires(quantise, (sample,)),
    ensures
        exists|at_rate: Seq<T>| #[trigger]
            prepared(samples@, channels, sample_rate, blend, quantise, at_rate, pcm@),
{
    let mono: Vec<T> = downmix(samples, channels);
    let at_rate: Vec<T> = if sample_rate != OPUS_SAMPLE_RATE {
        resample(&mono, sample_rate, OPUS_SAMPLE_RATE, blend)
    } else {
        mono
    };
    assert(at_codec_rate(downmix_spec(samples@, channels), sample_rate, blend, at_rate@));
    let mut pcm: Vec<i16> = Vec::with_capacity(at_rate.len());
    let mut i: usize = 0;
    while i < at_rate.len()
        invariant
            i <= at_rate@.len(),
            pcm@.len() == i,
            forall|sample: T| call_requires(quantise, (sample,)),
            forall|k: int| 0 <= k < i ==> call_ensures(quantise, (at_rate@[k],), #[trigger] pcm@[k]),
        decreases at_rate.len() - i,
    {
        let quantised: i16 = quantise(at_rate[i]);
        pcm.push(quantised);
        i = i + 1;
    }
    assert(prepared(samples@, channels, sample_rate, blend, quantise, at_rate@, pcm@));
    pcm
}

/// The settings of the Opus encoder: mono, 48 kHz, a constant bitrate.
#[derive(Debug, Clone, Copy, PartialEq, Eq, Structural)]
pub struct OpusEncoder {
    bitrate: i32,
}

impl OpusEncoder {
    /// The configured bitrate, in bits per second.
    pub closed spec fn bitrate(&self) -> i32 {
        self.bitrate
    }

    /// An encoder at the default bitrate of 12000 bits per second.
    pub fn new() -> (encoder: OpusEncoder)
        ensures
            encoder.bitrate() == DEFAULT_BITRATE,
    {
        OpusEncoder { bitrate: DEFAULT_BITRATE }
    }

    /// Sets the bitrate, in bits per second. Any value is kept as given.
    pub fn set_bitrate(&mut self, bitrate: i32)
        ensures
            final(self).bitrate() == bitrate,
    {
        self.bitrate = bitrate;
    }

    /// The bitrate, in bits per second.
    pub fn get_bitrate(&self) -> (bitrate: i32)
        ensures
            bitrate == self.bitrate(),
    {
        self.bitrate
    }

    /// Encodes the frames of `pcm` one after the other. `encode` is the
    /// codec: it is handed a block of 960 samples and the configured
    /// bitrate and gives the packet for the block, or none where it
    /// fails. The first block without a packet ends the call as a codec
    /// failure.
    pub fn encode_frames<E: Fn(&Vec<i16>, i32) -> Option<Vec<u8>>>(
        &self,
        pcm: &Vec<i16>,
        encode: E,
    ) -> (r: Result<Vec<Vec<u8>>, AudioError>)
        requires
            forall|block: &Vec<i16>, bitrate: i32|
                block@.len() == FRAME_SAMPLES ==> call_requires(encode, (block, bitrate)),
        ensures
            r is Ok ==> exists|blocks: Seq<Vec<i16>>| #[trigger]
                encoded(pcm@, self.bitrate(), encode, blocks, r->Ok_0@),
            r is Err ==> r->Err_0 == AudioError::CodecError,
            r is Err ==> exists|k: int, block: Vec<i16>| #[trigger]
                encode_failed(pcm@, self.bitrate(), encode, k, block),
    {
        let count: usize = frame_count(pcm.len());
        let mut packets: Vec<Vec<u8>> = Vec::with_capacity(count);
        let ghost mut blocks: Seq<Vec<i16>> = Seq::empty();
        let mut k: usize = 0;
        while k < count
            invariant
                k <= count,
                count == frame_count_spec(pcm@.len()),
                forall|block: &Vec<i16>, bitrate: i32|
                    block@.len() == FRAME_SAMPLES ==> call_requires(encode, (block, bitrate)),
                blocks.len() == k,
                packets@.len() == k,
                forall|i: int| 0 <= i < k ==> (#[trigger] blocks[i])@ == frame_spec(pcm@, i),
                forall|i: int|
                    0 <= i < k ==> call_ensures(
                        encode,
                        (&blocks[i], self.bitrate()),
                        Some(#[trigger] packets@[i]),
                    ),
            decreases count - k,
        {
            let block: Vec<i16> = frame(pcm, k);
            match encode(&block, self.bitrate) {
                Some(packet) => {
                    let ghost old_blocks = blocks;
                    let ghost old_packets = packets@;
                    packets.push(packet);
                    proof {
                        blocks = blocks.push(block);
                        assert forall|i: int| 0 <= i < k + 1 implies call_ensures(
                            encode,
                            (&blocks[i], self.bitrate()),
                            Some(#[trigger] packets@[i]),
                        ) by {
                            if i < k {
                                assert(blocks[i] == old_blocks[i]);
                                assert(packets@[i] == old_packets[i]);
                            }
                        }
                    }
                },
                None => {
                    assert(encode_failed(pcm@, self.bitrate(), encode, k as int, block));
                    return Err(AudioError::CodecError);
                },
            }
            k = k + 1;
        }
        let r: Result<Vec<Vec<u8>>, AudioError> = Ok(packets);
        assert(encoded(pcm@, self.bitrate(), encode, blocks, r->Ok_0@));
        r
    }

    /// Encodes the samples of a PCM file into an Ogg Opus stream.
    ///
    /// The samples are reduced to their first channel if the file is
    /// stereo, brought to 48 kHz by linear interpolation if it is at
    /// another rate, quantised to 16 bits, cut into frames of 960 samples
    /// with the last one padded by zeros, and encoded frame by frame at
    /// the configured bitrate. The packets go into a stream under a
    /// serial drawn at random: the two headers, one packet per frame,
    /// and the packet that ends the stream.
    ///
    /// `blend`, `quantise` and `encode` are the caller's: the arithmetic
    /// on samples and the codec. The call fails, as a codec failure, only
    /// where the codec gives no packet for a frame or gives packets that
    /// do not fit.
    pub fn encode_wav_to_opus<
        T: Copy,
        B: Fn(T, T, usize, usize) -> T,
        Q: Fn(T) -> i16,
        E: Fn(&Vec<i16>, i32) -> Option<Vec<u8>>,
    >(
        &self,
        samples: &Vec<T>,
        channels: u16,
        sample_rate: u32,
        blend: B,
        quantise: Q,
        encode: E,
    ) -> (r: Result<Vec<u8>, AudioError>)
        requires
            forall|a: T, b: T, weight: usize, scale: usize|
                weight < scale ==> call_requires(blend, (a, b, weight, scale)),
            forall|sample: T| call_requires(quantise, (sample,)),
            forall|block: &Vec<i16>, bitrate: i32|
                block@.len() == FRAME_SAMPLES ==> call_requires(encode, (block, bitrate)),
        ensures
            r is Ok ==> exists|
                at_rate: Seq<T>,
                pcm: Seq<i16>,
                blocks: Seq<Vec<i16>>,
                packets: Seq<Vec<u8>>,
                serial: u32,
            | #[trigger]
                stream_of(
                    samples@,
                    channels,
                    sample_rate,
                    self.bitrate(),
                    blend,
                    quantise,
                    encode,
                    at_rate,
                    pcm,
                    blocks,
                    packets,
                    serial,
                    r->Ok_0@,
                ),
            r is Err ==> r->Err_0 == AudioError::CodecError,
            r is Err ==> exists|
                at_rate: Seq<T>,
                pcm: Seq<i16>,
                k: int,
                block: Vec<i16>,
                blocks: Seq<Vec<i16>>,
                packets: Seq<Vec<u8>>,
            | #[trigger]
                stream_refused(
                    samples@,
                    channels,
                    sample_rate,
                    self.bitrate(),
                    blend,
                    quantise,
                    encode,
                    at_rate,
                    pcm,
                    k,
                    block,
                    blocks,
                    packets,
                ),
    {
        let pcm: Vec<i16> = prepare_pcm(samples, channels, sample_rate, blend, quantise);
        let ghost at_rate = choose|at_rate: Seq<T>| #[trigger]
            prepared(samples@, channels, sample_rate, blend, quantise, at_rate, pcm@);
        match self.encode_frames(&pcm, encode) {
            Ok(packets) => {
                let ghost blocks = choose|blocks: Seq<Vec<i16>>| #[trigger]
                    encoded(pcm@, self.bitrate(), encode, blocks, packets@);
                let serial: u32 = random_serial();
                match package(&packets, serial) {
                    Ok(bytes) => {
                        assert(stream_of(
                            samples@,
                            channels,
                            sample_rate,
                            self.bitrate(),
                            blend,
                            quantise,
                            encode,
                            at_rate,
                            pcm@,
                            blocks,
                            packets@,
                            serial,
                            bytes@,
                        ));
                        Ok(bytes)
                    },
                    Err(e) => {
                        assert(stream_refused(
                            samples@,
                            channels,
                            sample_rate,
                            self.bitrate(),
                            blend,
                            quantise,
                            encode,
                            at_rate,
                            pcm@,
                            0,
                            pcm,
                            blocks,
                            packets@,
                        ));
                        Err(e)
                    },
                }
            },
            Err(e) => {
                let ghost (k, block) = choose|k: int, block: Vec<i16>| #[trigger]
                    encode_failed(pcm@, self.bitrate(), encode, k, block);
                assert(stream_refused(
                    samples@,
                    channels,
                    sample_rate,
                    self.bitrate(),
                    blend,
                    quantise,
                    encode,
                    at_rate,
                    pcm@,
                    k,
                    block,
                    Seq::<Vec<i16>>::empty(),
                    Seq::<Vec<u8>>::empty(),
                ));
                Err(e)
            },
        }
    }
}

/// The size of the stream of a file that is at the rate of the codec:
/// one block for every 960 samples of its first channel and the rest,
/// with the two headers in front and the closing packet behind.
pub proof fn stream_size_law<
    T,
    B: Fn(T, T, usize, usize) -> T,
    Q: Fn(T) -> i16,
    E: Fn(&Vec<i16>, i32) -> Option<Vec<u8>>,
>(
    samples: Seq<T>,
    channels: u16,
    bitrate: i32,
    blend: B,
    quantise: Q,
    encode: E,
    at_rate: Seq<T>,
    pcm: Seq<i16>,
    blocks: Seq<Vec<i16>>,
    packets: Seq<Vec<u8>>,
    serial: u32,
    bytes: Seq<u8>,
)
    requires
        stream_of(
            samples,
            channels,
            OPUS_SAMPLE_RATE,
            bitrate,
            blend,
            quantise,
            encode,
            at_rate,
            pcm,
            blocks,
            packets,
            serial,
            bytes,
        ),
    ensures
        at_rate == downmix_spec(samples, channels),
        channels != 2 ==> pcm.len() == samples.len(),
        channels == 2 ==> pcm.len() == (samples.len() + 1) / 2,
        forall|i: int| 0 <= i < pcm.len() ==> call_ensures(quantise, (at_rate[i],), #[trigger] pcm[i]),
        blocks.len() == frame_count_spec(pcm.len()),
        forall|k: int| 0 <= k < blocks.len() ==> (#[trigger] blocks[k])@.len() == 960,
        stream_records(payloads_of(packets), serial).len() == 2 + frame_count_spec(pcm.len()) + 1,
{
    stream_layout_law(payloads_of(packets), serial);
}

} // verus!
