//! Reading an Ogg Opus stream back: its packets, the duration they stand
//! for, and a source that hands the audio packets out one at a time.

use vstd::prelude::*;
use vstd::arithmetic::div_mod::lemma_fundamental_div_mod_converse;
use crate::error::AudioError;
use crate::ogg_io::{ogg_read, reader_broken, reader_pending, PageReader};
use crate::opus_encoder::{frame_count_spec, payloads, stream_records};

verus! {

/// The packets in front of the audio: identification and comment header.
pub const HEADER_PACKETS: usize = 2;

/// The milliseconds of audio that one packet stands for.
pub const PACKET_MILLIS: u64 = 20;

/// The audio packets among all packets of a stream: those behind the two
/// headers.
pub open spec fn audio_packets(all: Seq<Seq<u8>>) -> Seq<Seq<u8>> {
    if all.len() >= 2 {
        all.skip(2)
    } else {
        Seq::empty()
    }
}

/// Whether a stream is refused: it breaks off with an error before both
/// headers have been read.
pub open spec fn headers_fail(total: nat, broken: bool) -> bool {
    total < 2 && broken
}

/// The number of audio packets in a stream of `total` packets, or the
/// refusal of a stream whose headers fail.
pub open spec fn audio_packet_count_spec(total: nat, broken: bool) -> Result<nat, AudioError> {
    if headers_fail(total, broken) {
        Err(AudioError::CodecError)
    } else if total >= 2 {
        Ok((total - 2) as nat)
    } else {
        Ok(0)
    }
}

/// The milliseconds that `packets` audio packets stand for, held to what
/// 64 bits can count.
pub open spec fn duration_ms_spec(packets: nat) -> nat {
    if 20 * packets <= u64::MAX {
        20 * packets
    } else {
        u64::MAX as nat
    }
}

/// Size and duration of a stream of `size` bytes and `total` packets.
pub open spec fn opus_info_spec(size: nat, total: nat, broken: bool) -> Result<
    (u64, u64),
    AudioError,
> {
    match audio_packet_count_spec(total, broken) {
        Ok(count) => Ok((size as u64, duration_ms_spec(count) as u64)),
        Err(e) => Err(e),
    }
}

/// Reads the packets of an Ogg stream up to the first read that yields
/// none, and tells whether that read was an error.
pub fn read_packets(bytes: Vec<u8>) -> (out: (Vec<Vec<u8>>, bool))
    ensures
        payloads(&out.0) == ogg_read(bytes@).0,
        out.1 == ogg_read(bytes@).1,
{
    let ghost all = ogg_read(bytes@).0;
    let mut reader = PageReader::open(bytes);
    let mut packets: Vec<Vec<u8>> = Vec::new();
    let mut broken: bool = false;
    loop
        invariant_except_break
            payloads(&packets) + reader_pending(reader) == all,
            reader_broken(reader) == ogg_read(bytes@).1,
            !broken,
        ensures
            payloads(&packets) == all,
            broken == ogg_read(bytes@).1,
        decreases reader_pending(reader).len(),
    {
        let ghost before = payloads(&packets);
        let ghost pending = reader_pending(reader);
        match reader.read() {
            Ok(Some(data)) => {
                packets.push(data);
                assert(payloads(&packets) =~= before.push(pending[0]));
                assert(before.push(pending[0]) + pending.skip(1) =~= before + pending);
            },
            Ok(None) => {
                assert(before + pending =~= before);
                break;
            },
            Err(_) => {
                assert(before + pending =~= before);
                broken = true;
                break;
            },
        }
    }
    (packets, broken)
}

/// The number of audio packets in a stream of `total` packets. A stream
/// that breaks off with an error before both headers are read is a codec
/// failure; one that merely ends there has no audio.
pub fn audio_packet_count(total: usize, broken: bool) -> (r: Result<usize, AudioError>)
    ensures
        match (r, audio_packet_count_spec(total as nat, broken)) {
            (Ok(count), Ok(expected)) => count == expected,
            (Err(e), Err(expected)) => e == expected,
            _ => false,
        },
{
    if total >= HEADER_PACKETS {
        Ok(total - HEADER_PACKETS)
    } else if broken {
        Err(AudioError::CodecError)
    } else {
        Ok(0)
    }
}

/// The duration, in milliseconds, of `packets` audio packets: 20 ms each.
pub fn duration_ms(packets: usize) -> (millis: u64)
    ensures
        millis == duration_ms_spec(packets as nat),
{
    let wide: u128 = (packets as u128) * 20;
    if wide <= u64::MAX as u128 {
        wide as u64
    } else {
        u64::MAX
    }
}

/// Size in bytes and estimated duration in milliseconds of an Ogg Opus
/// stream, from the count of its packets behind the headers.
pub fn get_opus_info(bytes: Vec<u8>) -> (r: Result<(u64, u64), AudioError>)
    ensures
        r == opus_info_spec(bytes@.len(), ogg_read(bytes@).0.len(), ogg_read(bytes@).1),
{
    let size: u64 = bytes.len() as u64;
    let (packets, broken) = read_packets(bytes);
    match audio_packet_count(packets.len(), broken) {
        Ok(count) => Ok((size, duration_ms(count))),
        Err(e) => Err(e),
    }
}

/// What is known of the files of one recording: sizes in bytes, and the
/// duration of the processed stream in milliseconds.
#[derive(Debug, Clone)]
pub struct AudioFileInfo {
    pub file_size: u64,
    pub duration_ms: u64,
    pub original_wav_size: u64,
    pub unprocessed_opus_size: u64,
    pub processed_opus_size: u64,
    pub last_message: String,
}

impl AudioFileInfo {
    /// A summary in which nothing is known yet.
    pub fn new() -> (info: AudioFileInfo)
        ensures
            info.file_size == 0,
            info.duration_ms == 0,
            info.original_wav_size == 0,
            info.unprocessed_opus_size == 0,
            info.processed_opus_size == 0,
            info.last_message@ == Seq::<char>::empty(),
    {
        AudioFileInfo {
            file_size: 0,
            duration_ms: 0,
            original_wav_size: 0,
            unprocessed_opus_size: 0,
            processed_opus_size: 0,
            last_message: String::new(),
        }
    }

    /// Takes over size and duration of the processed stream, as
    /// [`get_opus_info`] reports them. The other sizes and the message
    /// stay.
    pub fn set_processed_opus(&mut self, info: (u64, u64))
        ensures
            final(self).file_size == info.0,
            final(self).processed_opus_size == info.0,
            final(self).duration_ms == info.1,
            final(self).original_wav_size == old(self).original_wav_size,
            final(self).unprocessed_opus_size == old(self).unprocessed_opus_size,
            final(self).last_message == old(self).last_message,
    {
        self.file_size = info.0;
        self.processed_opus_size = info.0;
        self.duration_ms = info.1;
    }
}

/// The payloads of the packets of a packaged stream.
pub open spec fn stream_payloads(frames: Seq<Seq<u8>>, serial: u32) -> Seq<Seq<u8>> {
    Seq::new(
        stream_records(frames, serial).len(),
        |i: int| stream_records(frames, serial)[i].0,
    )
}

/// The duration estimated for a packaged stream exceeds the duration of
/// its `samples` input samples by at least one packet and by less than
/// two: the closing packet is counted like a frame, and the last frame
/// may be padded.
pub proof fn duration_estimate_law(samples: nat, frames: Seq<Seq<u8>>, serial: u32)
    requires
        frames.len() == frame_count_spec(samples),
    ensures
        audio_packets(stream_payloads(frames, serial)).len() == frames.len() + 1,
        samples + 960 <= 960 * audio_packets(stream_payloads(frames, serial)).len() < samples
            + 1920,
        audio_packets(stream_payloads(frames, serial)).subrange(0, frames.len() as int) == frames,
{
    let packets = audio_packets(stream_payloads(frames, serial));
    assert(stream_payloads(frames, serial).len() == frames.len() + 3);
    assert(packets.subrange(0, frames.len() as int) =~= frames);
}

/// The audio packets of one stream, staged in memory and handed out in
/// order.
pub struct PacketSource {
    packets: Vec<Vec<u8>>,
    next: usize,
}

impl PacketSource {
    #[verifier::type_invariant]
    spec fn well_formed(self) -> bool {
        self.next <= self.packets@.len()
    }

    /// The packets not yet handed out, oldest first.
    pub closed spec fn remaining(&self) -> Seq<Seq<u8>> {
        payloads(&self.packets).skip(self.next as int)
    }

    /// Stages the audio packets of `packets`, which are all packets of a
    /// stream; `broken` tells whether reading them ended in an error.
    pub fn from_packets(packets: Vec<Vec<u8>>, broken: bool) -> (r: Result<PacketSource, AudioError>)
        ensures
            match r {
                Ok(source) => !headers_fail(packets@.len(), broken) && source.remaining()
                    == audio_packets(payloads(&packets)),
                Err(e) => headers_fail(packets@.len(), broken) && e == AudioError::CodecError,
            },
    {
        if packets.len() >= HEADER_PACKETS {
            let source = PacketSource { packets, next: HEADER_PACKETS };
            Ok(source)
        } else if broken {
            Err(AudioError::CodecError)
        } else {
            let source = PacketSource { packets: Vec::new(), next: 0 };
            assert(source.remaining() =~= Seq::<Seq<u8>>::empty());
            Ok(source)
        }
    }

    /// Parses an Ogg stream and stages its audio packets.
    pub fn open(bytes: Vec<u8>) -> (r: Result<PacketSource, AudioError>)
        ensures
            match r {
                Ok(source) => !headers_fail(ogg_read(bytes@).0.len(), ogg_read(bytes@).1)
                    && source.remaining() == audio_packets(ogg_read(bytes@).0),
                Err(e) => headers_fail(ogg_read(bytes@).0.len(), ogg_read(bytes@).1) && e
                    == AudioError::CodecError,
            },
    {
        let (packets, broken) = read_packets(bytes);
        PacketSource::from_packets(packets, broken)
    }

    /// The number of packets not yet handed out.
    pub fn packets_left(&self) -> (left: usize)
        ensures
            left == self.remaining().len(),
    {
        proof {
            use_type_invariant(self);
        }
        self.packets.len() - self.next
    }

    /// The next packet, or `None` once all have been handed out.
    pub fn next_packet(&mut self) -> (r: Option<Vec<u8>>)
        ensures
            match r {
                Some(data) => {
                    &&& old(self).remaining().len() > 0
                    &&& data@ == old(self).remaining()[0]
                    &&& final(self).remaining() == old(self).remaining().skip(1)
                },
                None => old(self).remaining().len() == 0 && final(self).remaining() == old(
                    self,
                ).remaining(),
            },
    {
        proof {
            use_type_invariant(&*self);
        }
        if self.next < self.packets.len() {
            let data: Vec<u8> = self.packets[self.next].clone();
            self.next = self.next + 1;
            assert(final(self).remaining() =~= old(self).remaining().skip(1));
            Some(data)
        } else {
            None
        }
    }
}

/// The number of decoded samples that one call of [`Playhead::play`]
/// moves to the output: as many as the output still takes, as the frame
/// still has, and as the decoded buffer holds.
pub open spec fn play_count(
    played: nat,
    left: nat,
    decoded_len: nat,
    data_len: nat,
    pos: nat,
    channels: nat,
) -> nat {
    if channels == 0 || pos > data_len || played >= decoded_len {
        0
    } else {
        let room = (data_len - pos) / (channels as int);
        let held = decoded_len - played;
        if room <= left && room <= held {
            room as nat
        } else if left <= held {
            left
        } else {
            held as nat
        }
    }
}

/// How far playback has come in the decoded frame at hand.
pub struct Playhead {
    available: usize,
    position: usize,
}

impl Playhead {
    #[verifier::type_invariant]
    spec fn well_formed(self) -> bool {
        self.position <= self.available
    }

    /// The samples of the frame that have been played.
    pub closed spec fn played(&self) -> nat {
        self.position as nat
    }

    /// The samples of the frame that are still to be played.
    pub closed spec fn left(&self) -> nat {
        (self.available - self.position) as nat
    }

    /// A playhead with no frame at hand.
    pub fn new() -> (head: Playhead)
        ensures
            head.played() == 0,
            head.left() == 0,
    {
        Playhead { available: 0, position: 0 }
    }

    /// Whether the frame at hand is played out, so that the next packet
    /// has to be decoded.
    pub fn needs_frame(&self) -> (needed: bool)
        ensures
            needed == (self.left() == 0),
    {
        proof {
            use_type_invariant(self);
        }
        self.position >= self.available
    }

    /// Takes a freshly decoded frame of `samples` samples in hand.
    pub fn load(&mut self, samples: usize)
        ensures
            final(self).played() == 0,
            final(self).left() == samples,
    {
        self.position = 0;
        self.available = samples;
    }

    /// Plays from the frame at hand into the interleaved output `data`,
    /// from place `pos` on: every decoded sample goes to all `channels`
    /// channels of one output frame. Returns the place behind what was
    /// written; the output before `pos` and from there on stays as it is.
    pub fn play<T: Copy>(
        &mut self,
        decoded: &[T],
        data: &mut [T],
        pos: usize,
        channels: usize,
    ) -> (next: usize)
        ensures
            ({
                let count = play_count(
                    old(self).played(),
                    old(self).left(),
                    decoded@.len(),
                    old(data)@.len(),
                    pos as nat,
                    channels as nat,
                );
                &&& next == pos + count * channels
                &&& final(self).played() == old(self).played() + count
                &&& final(self).left() == old(self).left() - count
                &&& final(data)@.len() == old(data)@.len()
                &&& forall|i: int|
                    pos <= i < next ==> #[trigger] final(data)@[i] == decoded@[old(self).played() + (i
                        - pos) / (channels as int)]
                &&& forall|i: int|
                    0 <= i < old(data)@.len() && !(pos <= i < next) ==> #[trigger] final(data)@[i]
                        == old(data)@[i]
            }),
    {
        proof {
            use_type_invariant(&*self);
        }
        if channels == 0 || pos > data.len() || self.position >= decoded.len() {
            assert(0 * channels == 0) by (nonlinear_arith);
            return pos;
        }
        let room: usize = (data.len() - pos) / channels;
        let left: usize = self.available - self.position;
        let held: usize = decoded.len() - self.position;
        let count: usize = if room <= left && room <= held {
            room
        } else if left <= held {
            left
        } else {
            held
        };
        let start: usize = self.position;
        let limit: usize = decoded.len();
        assert(count * channels <= data@.len() - pos) by (nonlinear_arith)
            requires
                count <= room,
                room == (data@.len() - pos) / (channels as int),
                channels > 0,
                data@.len() - pos >= 0,
        ;
        let mut at: usize = pos;
        let mut i: usize = 0;
        while i < count
            invariant
                i <= count,
                channels > 0,
                at == pos + i * channels,
                count * channels <= data@.len() - pos,
                start + count <= limit,
                limit == decoded@.len(),
                data@.len() == old(data)@.len(),
                forall|k: int|
                    pos <= k < at ==> #[trigger] data@[k] == decoded@[start + (k - pos) / (
                    channels as int)],
                forall|k: int|
                    0 <= k < data@.len() && !(pos <= k < at) ==> #[trigger] data@[k] == old(
                        data,
                    )@[k],
            decreases count - i,
        {
            let sample: T = decoded[start + i];
            let frame_start: usize = at;
            assert((i + 1) * channels <= count * channels) by (nonlinear_arith)
                requires
                    i + 1 <= count,
                    channels > 0,
            ;
            assert((i + 1) * channels == i * channels + channels) by (nonlinear_arith);
            let mut c: usize = 0;
            while c < channels
                invariant
                    c <= channels,
                    channels > 0,
                    i < count,
                    frame_start == pos + i * channels,
                    at == frame_start + c,
                    frame_start + channels <= data@.len(),
                    sample == decoded@[start + i],
                    data@.len() == old(data)@.len(),
                    forall|k: int|
                        pos <= k < frame_start ==> #[trigger] data@[k] == decoded@[start + (k - pos)
                            / (channels as int)],
                    forall|k: int| frame_start <= k < at ==> #[trigger] data@[k] == sample,
                    forall|k: int|
                        0 <= k < data@.len() && !(pos <= k < at) ==> #[trigger] data@[k] == old(
                            data,
                        )@[k],
                decreases channels - c,
            {
                data[at] = sample;
                at = at + 1;
                c = c + 1;
            }
            proof {
                assert forall|k: int| pos <= k < at implies #[trigger] data@[k] == decoded@[start + (k
                    - pos) / (channels as int)] by {
                    if k >= frame_start {
                        lemma_fundamental_div_mod_converse(
                            k - pos,
                            channels as int,
                            i as int,
                            k - frame_start,
                        );
                    }
                }
            }
            i = i + 1;
        }
        self.position = start + count;
        at
    }
}

/// Fills the output from place `pos` on with `value`, which stands for
/// silence; what lies before stays as it is.
pub fn fill_from<T: Copy>(data: &mut [T], pos: usize, value: T)
    ensures
        final(data)@.len() == old(data)@.len(),
        forall|i: int| 0 <= i < pos && i < old(data)@.len() ==> final(data)@[i] == old(data)@[i],
        forall|i: int| pos <= i < old(data)@.len() ==> final(data)@[i] == value,
{
    let mut i: usize = pos;
    while i < data.len()
        invariant
            pos <= i,
            data@.len() == old(data)@.len(),
            forall|k: int| 0 <= k < pos && k < data@.len() ==> data@[k] == old(data)@[k],
            forall|k: int| pos <= k < i && k < data@.len() ==> data@[k] == value,
        decreases data.len() - i,
    {
        data[i] = value;
        i = i + 1;
    }
}

} // verus!
