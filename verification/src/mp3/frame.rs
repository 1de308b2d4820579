//! MPEG audio frame headers and the frame walk over a byte stream.
//!
//! A frame header is four bytes, most significant bit first:
//!
//! ```text
//! AAAAAAAA AAABBCCD EEEEFFGH IIJJKLMM
//! ```
//!
//! `A` is the sync word (eleven ones), `B` the MPEG version, `C` the layer,
//! `E` the bitrate index, `F` the sample-rate index, `G` the padding bit and
//! `I` the channel mode. The remaining bits do not influence the decoded header.

use vstd::prelude::*;

verus! {

#[derive(Debug, Clone, Copy, PartialEq, Eq, Structural)]
pub enum MpegVersion {
    Mpeg1,
    Mpeg2,
    Mpeg25,
}

#[derive(Debug, Clone, Copy, PartialEq, Eq, Structural)]
pub enum Layer {
    Layer1,
    Layer2,
    Layer3,
}

#[derive(Debug, Clone, Copy, PartialEq, Eq, Structural)]
pub enum ChannelMode {
    Stereo,
    JointStereo,
    DualChannel,
    Mono,
}

/// A decoded frame header. Every field is a function of the four header bytes.
#[derive(Debug, Clone, Copy)]
pub struct FrameHeader {
    pub version: MpegVersion,
    pub layer: Layer,
    /// Bitrate in kbps.
    pub bitrate: u32,
    /// Sample rate in Hz.
    pub sample_rate: u32,
    pub padding: bool,
    pub channel_mode: ChannelMode,
    /// Length of the whole frame in bytes, header included.
    pub frame_size: u32,
    pub samples_per_frame: u32,
}

/// The first eleven bits of the header are all ones.
pub open spec fn has_sync(h: Seq<u8>) -> bool {
    h[0] == 0xFF && (h[1] & 0xE0) == 0xE0
}

/// The two bits of the version field.
pub open spec fn version_bits(h: Seq<u8>) -> u8 {
    (h[1] >> 3) & 0x03
}

/// The two bits of the layer field.
pub open spec fn layer_bits(h: Seq<u8>) -> u8 {
    (h[1] >> 1) & 0x03
}

/// The four bits of the bitrate index.
pub open spec fn bitrate_index(h: Seq<u8>) -> u8 {
    (h[2] >> 4) & 0x0F
}

/// The two bits of the sample-rate index.
pub open spec fn sample_rate_index(h: Seq<u8>) -> u8 {
    (h[2] >> 2) & 0x03
}

/// The padding bit is set.
pub open spec fn padding_bit(h: Seq<u8>) -> bool {
    (h[2] & 0x02) != 0
}

/// The two bits of the channel mode.
pub open spec fn channel_bits(h: Seq<u8>) -> u8 {
    (h[3] >> 6) & 0x03
}

/// Version field: 0 is MPEG 2.5, 2 is MPEG 2, 3 is MPEG 1; 1 is reserved.
pub open spec fn version_from_bits(bits: u8) -> Option<MpegVersion> {
    if bits == 0 {
        Some(MpegVersion::Mpeg25)
    } else if bits == 2 {
        Some(MpegVersion::Mpeg2)
    } else if bits == 3 {
        Some(MpegVersion::Mpeg1)
    } else {
        None
    }
}

/// Layer field: 1 is Layer III, 2 is Layer II, 3 is Layer I; 0 is reserved.
pub open spec fn layer_from_bits(bits: u8) -> Option<Layer> {
    if bits == 1 {
        Some(Layer::Layer3)
    } else if bits == 2 {
        Some(Layer::Layer2)
    } else if bits == 3 {
        Some(Layer::Layer1)
    } else {
        None
    }
}

/// Channel mode: 0 is stereo, 1 joint stereo, 2 dual channel, 3 mono.
pub open spec fn channel_mode_from_bits(bits: u8) -> ChannelMode {
    if bits == 0 {
        ChannelMode::Stereo
    } else if bits == 1 {
        ChannelMode::JointStereo
    } else if bits == 2 {
        ChannelMode::DualChannel
    } else {
        ChannelMode::Mono
    }
}

/// The bitrate table, in kbps, for a version and a layer. Entries 0 (free
/// format) and 15 (bad) hold 0.
pub open spec fn bitrate_table(version: MpegVersion, layer: Layer) -> Seq<u32> {
    match (version, layer) {
        (MpegVersion::Mpeg1, Layer::Layer1) => seq![
            0u32, 32, 64, 96, 128, 160, 192, 224, 256, 288, 320, 352, 384, 416, 448, 0,
        ],
        (MpegVersion::Mpeg1, Layer::Layer2) => seq![
            0u32, 32, 48, 56, 64, 80, 96, 112, 128, 160, 192, 224, 256, 320, 384, 0,
        ],
        (MpegVersion::Mpeg1, Layer::Layer3) => seq![
            0u32, 32, 40, 48, 56, 64, 80, 96, 112, 128, 160, 192, 224, 256, 320, 0,
        ],
        (_, Layer::Layer1) => seq![
            0u32, 32, 48, 56, 64, 80, 96, 112, 128, 144, 160, 176, 192, 224, 256, 0,
        ],
        (_, _) => seq![0u32, 8, 16, 24, 32, 40, 48, 56, 64, 80, 96, 112, 128, 144, 160, 0],
    }
}

/// The sample-rate table, in Hz, for a version. Entry 3 holds 0.
pub open spec fn sample_rate_table(version: MpegVersion) -> Seq<u32> {
    match version {
        MpegVersion::Mpeg1 => seq![44100u32, 48000, 32000, 0],
        MpegVersion::Mpeg2 => seq![22050u32, 24000, 16000, 0],
        MpegVersion::Mpeg25 => seq![11025u32, 12000, 8000, 0],
    }
}

/// The number of samples in a frame.
pub open spec fn samples_per_frame_of(version: MpegVersion, layer: Layer) -> u32 {
    match layer {
        Layer::Layer1 => 384,
        Layer::Layer2 => 1152,
        Layer::Layer3 => if version == MpegVersion::Mpeg1 {
            1152
        } else {
            576
        },
    }
}

/// Frame length in bytes. Layer I counts in four-byte slots, the other layers
/// in bytes; the division truncates.
pub open spec fn frame_size_of(layer: Layer, bitrate: u32, sample_rate: u32, padding: bool) -> int {
    let pad: int = if padding {
        1
    } else {
        0
    };
    match layer {
        Layer::Layer1 => (12 * bitrate * 1000 / (sample_rate as int) + pad) * 4,
        _ => 144 * bitrate * 1000 / (sample_rate as int) + pad,
    }
}

/// What four header bytes decode to, or `None` where they are no valid header.
pub open spec fn parse_header(h: Seq<u8>) -> Option<FrameHeader> {
    if !has_sync(h) {
        None
    } else {
        match (version_from_bits(version_bits(h)), layer_from_bits(layer_bits(h))) {
            (Some(version), Some(layer)) => {
                let bitrate = bitrate_table(version, layer)[bitrate_index(h) as int];
                let sample_rate = sample_rate_table(version)[sample_rate_index(h) as int];
                if bitrate == 0 || sample_rate == 0 {
                    None
                } else {
                    Some(
                        FrameHeader {
                            version,
                            layer,
                            bitrate,
                            sample_rate,
                            padding: padding_bit(h),
                            channel_mode: channel_mode_from_bits(channel_bits(h)),
                            frame_size: frame_size_of(layer, bitrate, sample_rate, padding_bit(h)) as u32,
                            samples_per_frame: samples_per_frame_of(version, layer),
                        },
                    )
                }
            },
            _ => None,
        }
    }
}

/// The entry of the bitrate table.
fn lookup_bitrate(version: MpegVersion, layer: Layer, idx: u8) -> (r: u32)
    requires
        idx < 16,
    ensures
        r == bitrate_table(version, layer)[idx as int],
        r <= 448,
        r == 0 <==> (idx == 0 || idx == 15),
        version != MpegVersion::Mpeg1 ==> r <= 256,
        version != MpegVersion::Mpeg1 && layer != Layer::Layer1 ==> r <= 160,
        layer != Layer::Layer1 ==> r <= 384,
{
    let v1_l1: [u32; 16] = [0, 32, 64, 96, 128, 160, 192, 224, 256, 288, 320, 352, 384, 416, 448, 0];
    let v1_l2: [u32; 16] = [0, 32, 48, 56, 64, 80, 96, 112, 128, 160, 192, 224, 256, 320, 384, 0];
    let v1_l3: [u32; 16] = [0, 32, 40, 48, 56, 64, 80, 96, 112, 128, 160, 192, 224, 256, 320, 0];
    let v2_l1: [u32; 16] = [0, 32, 48, 56, 64, 80, 96, 112, 128, 144, 160, 176, 192, 224, 256, 0];
    let v2_l23: [u32; 16] = [0, 8, 16, 24, 32, 40, 48, 56, 64, 80, 96, 112, 128, 144, 160, 0];
    let i: usize = idx as usize;
    match (version, layer) {
        (MpegVersion::Mpeg1, Layer::Layer1) => v1_l1[i],
        (MpegVersion::Mpeg1, Layer::Layer2) => v1_l2[i],
        (MpegVersion::Mpeg1, Layer::Layer3) => v1_l3[i],
        (_, Layer::Layer1) => v2_l1[i],
        (_, _) => v2_l23[i],
    }
}

/// The entry of the sample-rate table.
fn lookup_sample_rate(version: MpegVersion, idx: u8) -> (r: u32)
    requires
        idx < 4,
    ensures
        r == sample_rate_table(version)[idx as int],
        r == 0 || 8000 <= r <= 48000,
        r == 0 <==> idx == 3,
        version == MpegVersion::Mpeg1 ==> r == 0 || 32000 <= r,
{
    let v1: [u32; 4] = [44100, 48000, 32000, 0];
    let v2: [u32; 4] = [22050, 24000, 16000, 0];
    let v25: [u32; 4] = [11025, 12000, 8000, 0];
    let i: usize = idx as usize;
    match version {
        MpegVersion::Mpeg1 => v1[i],
        MpegVersion::Mpeg2 => v2[i],
        MpegVersion::Mpeg25 => v25[i],
    }
}

impl FrameHeader {
    /// Decode a four-byte frame header.
    ///
    /// The result is exactly `parse_header`. The further clauses spell out
    /// what that implies: a header without the sync word is rejected, so is
    /// each reserved field value on its own, and an accepted header carries
    /// the frame size that the formula gives for its fields.
    pub fn parse(header: [u8; 4]) -> (r: Option<FrameHeader>)
        ensures
            r == parse_header(header@),
            !has_sync(header@) ==> r is None,
            version_bits(header@) == 1 ==> r is None,
            layer_bits(header@) == 0 ==> r is None,
            bitrate_index(header@) == 0 || bitrate_index(header@) == 15 ==> r is None,
            sample_rate_index(header@) == 3 ==> r is None,
            r matches Some(h) ==> h.frame_size == frame_size_of(
                h.layer,
                h.bitrate,
                h.sample_rate,
                h.padding,
            ) && 0 < h.bitrate <= 448 && 8000 <= h.sample_rate <= 48000 && 4 < h.frame_size
                <= MAX_FRAME_SIZE,
    {
        let b1: u8 = header[1];
        let b2: u8 = header[2];
        let b3: u8 = header[3];
        if header[0] != 0xFF || (b1 & 0xE0) != 0xE0 {
            return None;
        }
        let vbits: u8 = (b1 >> 3) & 0x03;
        let version = if vbits == 0 {
            MpegVersion::Mpeg25
        } else if vbits == 2 {
            MpegVersion::Mpeg2
        } else if vbits == 3 {
            MpegVersion::Mpeg1
        } else {
            return None;
        };
        let lbits: u8 = (b1 >> 1) & 0x03;
        let layer = if lbits == 1 {
            Layer::Layer3
        } else if lbits == 2 {
            Layer::Layer2
        } else if lbits == 3 {
            Layer::Layer1
        } else {
            return None;
        };
        let bitrate_idx: u8 = (b2 >> 4) & 0x0F;
        let sample_rate_idx: u8 = (b2 >> 2) & 0x03;
        assert(((b2 >> 4u8) & 0x0Fu8) < 16u8) by (bit_vector);
        assert(((b2 >> 2u8) & 0x03u8) < 4u8) by (bit_vector);
        let bitrate = lookup_bitrate(version, layer, bitrate_idx);
        if bitrate == 0 {
            return None;
        }
        let sample_rate = lookup_sample_rate(version, sample_rate_idx);
        if sample_rate == 0 {
            return None;
        }
        let padding = (b2 & 0x02) != 0;
        let cbits: u8 = (b3 >> 6) & 0x03;
        let channel_mode = if cbits == 0 {
            ChannelMode::Stereo
        } else if cbits == 1 {
            ChannelMode::JointStereo
        } else if cbits == 2 {
            ChannelMode::DualChannel
        } else {
            ChannelMode::Mono
        };
        let samples_per_frame: u32 = match layer {
            Layer::Layer1 => 384,
            Layer::Layer2 => 1152,
            Layer::Layer3 => match version {
                MpegVersion::Mpeg1 => 1152,
                _ => 576,
            },
        };
        let pad: u32 = if padding {
            1
        } else {
            0
        };
        let bits_per_ms: u32 = bitrate * 1000;
        let frame_size: u32 = match layer {
            Layer::Layer1 => {
                let slots: u32 = 12 * bits_per_ms / sample_rate;
                assert(12 * bits_per_ms <= 719 * sample_rate);
                assert(12 * bits_per_ms >= 2 * sample_rate);
                assert(2 <= slots <= 719) by (nonlinear_arith)
                    requires
                        slots == 12 * bits_per_ms / (sample_rate as int),
                        sample_rate >= 1,
                        12 * bits_per_ms <= 719 * sample_rate,
                        12 * bits_per_ms >= 2 * sample_rate,
                ;
                (slots + pad) * 4
            },
            _ => {
                let bytes: u32 = 144 * bits_per_ms / sample_rate;
                assert(144 * bits_per_ms <= 2880 * sample_rate);
                assert(144 * bits_per_ms >= 5 * sample_rate);
                assert(5 <= bytes <= 2880) by (nonlinear_arith)
                    requires
                        bytes == 144 * bits_per_ms / (sample_rate as int),
                        sample_rate >= 1,
                        144 * bits_per_ms <= 2880 * sample_rate,
                        144 * bits_per_ms >= 5 * sample_rate,
                ;
                bytes + pad
            },
        };
        Some(
            FrameHeader {
                version,
                layer,
                bitrate,
                sample_rate,
                padding,
                channel_mode,
                frame_size,
                samples_per_frame,
            },
        )
    }
}


/// Why the search for the first frame could not start.
#[derive(Debug, Clone, Copy, PartialEq, Eq, Structural)]
pub enum ScanError {
    /// The stream ends before its first three bytes.
    UnexpectedEof,
}

/// No frame is longer than this many bytes.
pub const MAX_FRAME_SIZE: u32 = 2881;

/// Statistics about the frames of a stream.
#[derive(Debug, Clone)]
pub struct FrameStats {
    pub frame_count: usize,
    pub bitrates: Vec<u32>,
    pub frame_sizes: Vec<u32>,
    pub is_vbr: bool,
    pub avg_bitrate: u32,
    pub min_bitrate: u32,
    pub max_bitrate: u32,
}

/// Sum of the values of a sequence.
pub open spec fn total(s: Seq<u32>) -> int
    decreases s.len(),
{
    if s.len() == 0 {
        0
    } else {
        total(s.drop_last()) + s.last()
    }
}

/// Number of different values in a sequence.
pub open spec fn distinct_values(s: Seq<u32>) -> nat {
    s.to_set().len()
}

/// The value occurs in the sequence and none in it is smaller.
pub open spec fn is_smallest(m: u32, s: Seq<u32>) -> bool {
    s.contains(m) && forall|i: int| 0 <= i < s.len() ==> m <= #[trigger] s[i]
}

/// The value occurs in the sequence and none in it is larger.
pub open spec fn is_largest(m: u32, s: Seq<u32>) -> bool {
    s.contains(m) && forall|i: int| 0 <= i < s.len() ==> #[trigger] s[i] <= m
}

/// The bitrates of the frames, in their order.
pub open spec fn bitrates_of(frames: Seq<FrameHeader>) -> Seq<u32> {
    frames.map_values(|h: FrameHeader| h.bitrate)
}

/// The sizes of the frames, in their order.
pub open spec fn frame_sizes_of(frames: Seq<FrameHeader>) -> Seq<u32> {
    frames.map_values(|h: FrameHeader| h.frame_size)
}

impl FrameStats {
    /// The aggregate fields agree with the two lists: the stream is variable
    /// bitrate exactly when at least two different bitrates were seen, the
    /// average is the truncated mean, and minimum and maximum are the
    /// extremes. Without frames every number is zero.
    pub open spec fn wf(&self) -> bool {
        &&& self.frame_count == self.bitrates@.len()
        &&& self.frame_count == self.frame_sizes@.len()
        &&& self.is_vbr == (distinct_values(self.bitrates@) >= 2)
        &&& if self.bitrates@.len() == 0 {
            self.avg_bitrate == 0 && self.min_bitrate == 0 && self.max_bitrate == 0
        } else {
            &&& self.avg_bitrate == total(self.bitrates@) / (self.bitrates@.len() as int)
            &&& is_smallest(self.min_bitrate, self.bitrates@)
            &&& is_largest(self.max_bitrate, self.bitrates@)
        }
    }

    /// These are the statistics of exactly the given frames, in their order.
    pub open spec fn describes(&self, frames: Seq<FrameHeader>) -> bool {
        &&& self.wf()
        &&& self.bitrates@ == bitrates_of(frames)
        &&& self.frame_sizes@ == frame_sizes_of(frames)
    }
}

impl Default for FrameStats {
    fn default() -> (r: Self)
        ensures
            r.describes(Seq::empty()),
            r.frame_count == 0,
            !r.is_vbr,
    {
        let r = FrameStats {
            frame_count: 0,
            bitrates: Vec::new(),
            frame_sizes: Vec::new(),
            is_vbr: false,
            avg_bitrate: 0,
            min_bitrate: 0,
            max_bitrate: 0,
        };
        proof {
            assert(r.bitrates@.to_set() =~= Set::<u32>::empty());
            assert(r.bitrates@ =~= bitrates_of(Seq::empty()));
            assert(r.frame_sizes@ =~= frame_sizes_of(Seq::empty()));
        }
        r
    }
}

/// A sequence holds two different values exactly when its smallest and its
/// largest value differ.
pub proof fn lemma_distinct_values(s: Seq<u32>, lo: u32, hi: u32)
    requires
        is_smallest(lo, s),
        is_largest(hi, s),
    ensures
        (distinct_values(s) >= 2) <==> lo != hi,
{
    vstd::seq_lib::seq_to_set_is_finite(s);
    let t = s.to_set();
    assert(t.contains(lo));
    assert(t.contains(hi));
    if lo == hi {
        assert forall|x: u32| t.contains(x) implies x == lo by {
            let i = choose|i: int| 0 <= i < s.len() && s[i] == x;
            assert(lo <= s[i] && s[i] <= hi);
        }
        assert(t =~= set![lo]);
    } else {
        assert(t.remove(lo).contains(hi));
        assert(t.remove(lo).len() >= 1);
    }
}

/// The stream starts with the ASCII letters "ID3".
pub open spec fn has_id3_magic(data: Seq<u8>) -> bool {
    data.len() >= 3 && data[0] == 0x49 && data[1] == 0x44 && data[2] == 0x33
}

/// The value of a syncsafe integer: four bytes, most significant first, each
/// contributing its low seven bits.
pub open spec fn syncsafe_value(b: Seq<u8>) -> int {
    (b[0] & 0x7F) * 0x20_0000 + (b[1] & 0x7F) * 0x4000 + (b[2] & 0x7F) * 0x80 + (b[3] & 0x7F)
}

/// Where the audio begins: behind the ID3v2 tag where there is one, else at
/// the first byte. A stream that ends inside the tag's header holds no
/// audio: there the audio begins at the end of the stream.
pub open spec fn audio_start(data: Seq<u8>) -> int {
    if has_id3_magic(data) {
        if data.len() < 10 {
            data.len() as int
        } else {
            10 + syncsafe_value(data.subrange(6, 10))
        }
    } else {
        0
    }
}

/// The header that the four bytes at `pos` decode to, if they lie in the
/// stream and are a valid header.
pub open spec fn header_at(data: Seq<u8>, pos: int) -> Option<FrameHeader> {
    if 0 <= pos && pos + 4 <= data.len() {
        parse_header(data.subrange(pos, pos + 4))
    } else {
        None
    }
}

/// The frames that a walk from `pos` finds, at most `budget` of them. After a
/// valid header the walk jumps over the frame (over the four header bytes
/// where the frame is no longer than that); after four bytes that are no
/// header it moves on by one byte. It ends where fewer than four bytes are
/// left.
pub open spec fn frames_from(data: Seq<u8>, pos: int, budget: nat) -> Seq<FrameHeader>
    decreases
            (if pos <= data.len() {
                data.len() - pos
            } else {
                0
            }),
{
    if budget == 0 || pos < 0 || pos + 4 > data.len() {
        Seq::empty()
    } else {
        match header_at(data, pos) {
            Some(h) => {
                let next = if h.frame_size > 4 {
                    pos + h.frame_size
                } else {
                    pos + 4
                };
                seq![h] + frames_from(data, next, (budget - 1) as nat)
            },
            None => frames_from(data, pos + 1, budget),
        }
    }
}

/// Decode a syncsafe integer of four bytes.
pub fn syncsafe_size(bytes: [u8; 4]) -> (r: u32)
    ensures
        r == syncsafe_value(bytes@),
        r < 0x1000_0000,
{
    let b0: u8 = bytes[0] & 0x7F;
    let b1: u8 = bytes[1] & 0x7F;
    let b2: u8 = bytes[2] & 0x7F;
    let b3: u8 = bytes[3] & 0x7F;
    assert(forall|b: u8| #[trigger] (b & 0x7Fu8) <= 0x7Fu8) by (bit_vector);
    let d0: u32 = b0 as u32;
    let d1: u32 = b1 as u32;
    let d2: u32 = b2 as u32;
    let d3: u32 = b3 as u32;
    d0 * 0x20_0000 + d1 * 0x4000 + d2 * 0x80 + d3
}

/// The four bytes at `pos`.
fn read_four(data: &[u8], pos: usize) -> (r: [u8; 4])
    requires
        pos + 4 <= data@.len(),
    ensures
        r@ == data@.subrange(pos as int, pos + 4),
{
    let r: [u8; 4] = [data[pos], data[pos + 1], data[pos + 2], data[pos + 3]];
    assert(r@ =~= data@.subrange(pos as int, pos + 4));
    r
}

/// Offset of the first audio byte, clamped to the end of the stream.
fn locate_audio(data: &[u8]) -> (r: usize)
    ensures
        r <= data@.len(),
        audio_start(data@) <= data@.len() ==> r == audio_start(data@),
        audio_start(data@) > data@.len() ==> r == data@.len(),
{
    let len = data.len();
    if len >= 3 && data[0] == 0x49 && data[1] == 0x44 && data[2] == 0x33 {
        if len < 10 {
            return len;
        }
        let size = syncsafe_size(read_four(data, 6));
        let start: u64 = 10 + size as u64;
        if start > len as u64 {
            len
        } else {
            start as usize
        }
    } else {
        0
    }
}

/// A value more at the end adds to the sum.
proof fn lemma_total_push(s: Seq<u32>, x: u32)
    ensures
        total(s.push(x)) == total(s) + x,
{
    assert(s.push(x).drop_last() =~= s);
}

/// Walk the stream and collect statistics about at most `max_frames` frames.
///
/// An ID3v2 tag at the start is skipped by the size that its header gives.
/// The result describes exactly the frames that the walk finds from there;
/// in particular `is_vbr` holds exactly when the recorded bitrates have at
/// least two different values. A scan never fails: a stream without frames,
/// or one that ends inside the header of its ID3v2 tag, gives empty
/// statistics.
pub fn scan_frames(data: &[u8], max_frames: usize) -> (r: Result<FrameStats, ScanError>)
    ensures
        r is Ok,
        r matches Ok(stats) ==> (stats.describes(scanned_frames(data@, max_frames as nat))
            && stats.frame_count <= max_frames && (stats.is_vbr <==> distinct_values(
            stats.bitrates@,
        ) >= 2) && forall|i: int|
            0 <= i < stats.frame_sizes@.len() ==> #[trigger] stats.frame_sizes@[i]
                <= MAX_FRAME_SIZE),
{
    let len = data.len();
    let first = locate_audio(data);
    let ghost start = audio_start(data@);
    let mut pos: usize = first;
    let mut count: usize = 0;
    let mut bitrates: Vec<u32> = Vec::new();
    let mut frame_sizes: Vec<u32> = Vec::new();
    let mut sum: u128 = 0;
    let mut lo: u32 = 0;
    let mut hi: u32 = 0;
    let ghost mut found: Seq<FrameHeader> = Seq::empty();
    proof {
        assert(bitrates@ =~= bitrates_of(found));
        assert(frame_sizes@ =~= frame_sizes_of(found));
        assert(frames_from(data@, start, max_frames as nat) =~= found + frames_from(
            data@,
            pos as int,
            max_frames as nat,
        ));
    }
    while count < max_frames && len - pos >= 4
        invariant
            len == data@.len(),
            pos <= len,
            count <= max_frames,
            count == found.len(),
            bitrates@ == bitrates_of(found),
            frame_sizes@ == frame_sizes_of(found),
            forall|i: int| 0 <= i < bitrates@.len() ==> #[trigger] bitrates@[i] <= 448,
            forall|i: int| 0 <= i < frame_sizes@.len() ==> #[trigger] frame_sizes@[i] <= MAX_FRAME_SIZE,
            sum == total(bitrates@),
            sum <= 448 * count,
            count > 0 ==> is_smallest(lo, bitrates@) && is_largest(hi, bitrates@),
            frames_from(data@, start, max_frames as nat) == found + frames_from(
                data@,
                pos as int,
                (max_frames - count) as nat,
            ),
        decreases len - pos,
    {
        let four = read_four(data, pos);
        match FrameHeader::parse(four) {
            Some(h) => {
                proof {
                    lemma_total_push(bitrates@, h.bitrate);
                    assert(bitrates@.push(h.bitrate) =~= bitrates_of(found.push(h)));
                    assert(frame_sizes@.push(h.frame_size) =~= frame_sizes_of(found.push(h)));
                    let next = if h.frame_size > 4 {
                        pos + h.frame_size
                    } else {
                        pos + 4
                    };
                    let rest = frames_from(data@, next, (max_frames - count - 1) as nat);
                    assert(found + (seq![h] + rest) =~= found.push(h) + rest);
                }
                let ghost before = bitrates@;
                bitrates.push(h.bitrate);
                frame_sizes.push(h.frame_size);
                sum = sum + h.bitrate as u128;
                if count == 0 || h.bitrate < lo {
                    lo = h.bitrate;
                }
                if count == 0 || h.bitrate > hi {
                    hi = h.bitrate;
                }
                proof {
                    assert(bitrates@[count as int] == h.bitrate);
                    assert forall|i: int| 0 <= i < bitrates@.len() implies lo <= #[trigger] bitrates@[i]
                        && bitrates@[i] <= hi by {
                        if i < count {
                            assert(bitrates@[i] == before[i]);
                        }
                    }
                    if lo != h.bitrate {
                        let k = choose|k: int| 0 <= k < before.len() && before[k] == lo;
                        assert(bitrates@[k] == lo);
                    }
                    if hi != h.bitrate {
                        let k = choose|k: int| 0 <= k < before.len() && before[k] == hi;
                        assert(bitrates@[k] == hi);
                    }
                    found = found.push(h);
                }
                count = count + 1;
                let step: usize = if h.frame_size > 4 {
                    h.frame_size as usize
                } else {
                    4
                };
                if step > len - pos {
                    pos = len;
                } else {
                    pos = pos + step;
                }
            },
            None => {
                pos = pos + 1;
            },
        }
    }
    let mut stats = FrameStats {
        frame_count: count,
        bitrates,
        frame_sizes,
        is_vbr: false,
        avg_bitrate: 0,
        min_bitrate: 0,
        max_bitrate: 0,
    };
    if count > 0 {
        proof {
            lemma_distinct_values(stats.bitrates@, lo, hi);
        }
        let mean: u128 = sum / (count as u128);
        assert(mean <= 448) by (nonlinear_arith)
            requires
                mean == sum / (count as u128),
                count > 0,
                sum <= 448 * count,
        ;
        stats.is_vbr = lo != hi;
        stats.avg_bitrate = mean as u32;
        stats.min_bitrate = lo;
        stats.max_bitrate = hi;
    } else {
        proof {
            assert(stats.bitrates@.to_set() =~= Set::<u32>::empty());
        }
    }
    Ok(stats)
}


/// Where the search for the first frame begins. Unlike a scan, the search
/// needs the first three bytes: a shorter stream has no such place.
pub open spec fn sync_start(data: Seq<u8>) -> Option<int> {
    if data.len() < 3 {
        None
    } else {
        Some(audio_start(data))
    }
}

/// The first offset from `from` on whose four bytes are a valid header, among
/// at most `tries` offsets.
pub open spec fn first_header(data: Seq<u8>, from: int, tries: nat) -> Option<int>
    decreases tries,
{
    if tries == 0 || from + 4 > data.len() {
        None
    } else if header_at(data, from) is Some {
        Some(from)
    } else {
        first_header(data, from + 1, (tries - 1) as nat)
    }
}

/// The number of offsets at which the first frame is looked for.
pub const SYNC_TRIES: u32 = 10001;

/// Where the first frame is found, if the search can start and finds one.
pub open spec fn first_frame_offset(data: Seq<u8>) -> Option<int> {
    match sync_start(data) {
        Some(start) => first_header(data, start, SYNC_TRIES as nat),
        None => None,
    }
}

/// Find the offset of the first valid frame header.
///
/// The search begins behind the ID3v2 tag, if there is one, and looks at that
/// offset and at the 10000 offsets after it. It returns the first offset
/// whose four bytes are a valid header, or `None` where there is none among
/// them. It is an error if the stream has fewer than three bytes. A stream
/// that ends inside the header of its ID3v2 tag holds no frame.
pub fn find_sync(data: &[u8]) -> (r: Result<Option<u64>, ScanError>)
    ensures
        match r {
            Ok(Some(p)) => sync_start(data@) matches Some(s) && s <= p <= s + 10000 && header_at(
                data@,
                p as int,
            ) is Some && forall|q: int| s <= q < p ==> header_at(data@, q) is None,
            Ok(None) => sync_start(data@) matches Some(s) && forall|q: int|
                s <= q <= s + 10000 ==> header_at(data@, q) is None,
            Err(_) => sync_start(data@) is None,
        },
        match r {
            Ok(Some(p)) => first_frame_offset(data@) == Some(p as int),
            _ => first_frame_offset(data@) is None,
        },
{
    let len = data.len();
    if len < 3 {
        return Err(ScanError::UnexpectedEof);
    }
    let first = locate_audio(data);
    let ghost start = audio_start(data@);
    let mut pos: usize = first;
    let mut tried: u32 = 0;
    while len - pos >= 4 && tried <= 10000
        invariant
            len == data@.len(),
            sync_start(data@) == Some(start),
            pos <= len,
            tried <= 10001,
            start <= len ==> pos == start + tried,
            start > len ==> pos == len,
            forall|q: int| start <= q < start + tried ==> header_at(data@, q) is None,
            first_header(data@, start, SYNC_TRIES as nat) == first_header(
                data@,
                pos as int,
                (SYNC_TRIES - tried) as nat,
            ),
        decreases len - pos,
    {
        let four = read_four(data, pos);
        if FrameHeader::parse(four).is_some() {
            return Ok(Some(pos as u64));
        }
        pos = pos + 1;
        tried = tried + 1;
    }
    Ok(None)
}

/// The frames that a scan reports: the walk from where the audio begins.
pub open spec fn scanned_frames(data: Seq<u8>, budget: nat) -> Seq<FrameHeader> {
    frames_from(data, audio_start(data), budget)
}

/// Bytes in front of a stream move every header by their number.
pub proof fn lemma_header_shift(prefix: Seq<u8>, stream: Seq<u8>, pos: int)
    requires
        0 <= pos,
    ensures
        header_at(prefix + stream, prefix.len() + pos) == header_at(stream, pos),
{
    if pos + 4 <= stream.len() {
        assert((prefix + stream).subrange(prefix.len() + pos, prefix.len() + pos + 4)
            =~= stream.subrange(pos, pos + 4));
    }
}

/// Bytes in front of a stream do not change what a walk finds from a place
/// in the stream.
pub proof fn lemma_walk_shift(prefix: Seq<u8>, stream: Seq<u8>, pos: int, budget: nat)
    requires
        0 <= pos,
    ensures
        frames_from(prefix + stream, prefix.len() + pos, budget) == frames_from(stream, pos, budget),
    decreases
            (if pos <= stream.len() {
                stream.len() - pos
            } else {
                0
            }),
{
    lemma_header_shift(prefix, stream, pos);
    if budget == 0 || pos + 4 > stream.len() {
    } else {
        match header_at(stream, pos) {
            Some(h) => {
                let step: int = if h.frame_size > 4 {
                    h.frame_size as int
                } else {
                    4
                };
                lemma_walk_shift(prefix, stream, pos + step, (budget - 1) as nat);
            },
            None => {
                lemma_walk_shift(prefix, stream, pos + 1, budget);
            },
        }
    }
}

/// A walk passes over a stretch in which no valid header begins.
pub proof fn lemma_walk_skips(data: Seq<u8>, from: int, to: int, budget: nat)
    requires
        0 <= from <= to,
        forall|q: int| from <= q < to ==> header_at(data, q) is None,
    ensures
        frames_from(data, from, budget) == frames_from(data, to, budget),
    decreases to - from,
{
    if from < to && budget != 0 && from + 4 <= data.len() {
        assert(header_at(data, from) is None);
        lemma_walk_skips(data, from + 1, to, budget);
    }
}

/// The search for the first header passes over a stretch in which no valid
/// header begins, if it has tries enough to reach the end of the stretch.
pub proof fn lemma_first_header_skips(data: Seq<u8>, from: int, to: int, tries: nat)
    requires
        0 <= from <= to,
        to - from < tries,
        forall|q: int| from <= q < to ==> header_at(data, q) is None,
        header_at(data, to) is Some,
    ensures
        first_header(data, from, tries) == Some(to),
    decreases to - from,
{
    if from < to {
        assert(header_at(data, from) is None);
        lemma_first_header_skips(data, from + 1, to, (tries - 1) as nat);
    }
}

/// Resynchronisation. Bytes in front of a stream, among which no valid
/// header begins, do not change what a scan reports, whatever the budget,
/// and the stream's first header is found right behind them: there the
/// search for the first frame ends, if the bytes in front are not too many
/// for it. Neither the stream nor the whole may start with the letters
/// "ID3", which a scan reads as a tag to skip.
pub proof fn lemma_scan_resync(junk: Seq<u8>, stream: Seq<u8>, budget: nat)
    requires
        forall|q: int| 0 <= q < junk.len() ==> header_at(junk + stream, q) is None,
        !has_id3_magic(junk + stream),
        !has_id3_magic(stream),
    ensures
        scanned_frames(junk + stream, budget) == scanned_frames(stream, budget),
        frames_from(junk + stream, 0, budget) == frames_from(stream, 0, budget),
        header_at(junk + stream, junk.len() as int) == header_at(stream, 0),
        header_at(stream, 0) is Some && junk.len() < SYNC_TRIES ==> first_frame_offset(
            junk + stream,
        ) == Some(junk.len() as int),
{
    lemma_walk_skips(junk + stream, 0, junk.len() as int, budget);
    lemma_walk_shift(junk, stream, 0, budget);
    lemma_header_shift(junk, stream, 0);
    if header_at(stream, 0) is Some && junk.len() < SYNC_TRIES {
        lemma_first_header_skips(junk + stream, 0, junk.len() as int, SYNC_TRIES as nat);
    }
}

/// An ID3v2 tag in front of a stream does not change what a scan reports:
/// the scan begins behind the ten-byte header and the number of bytes that
/// the header's size field gives, where the stream's first header is found.
/// The stream itself must not start with the letters "ID3": a scan skips one
/// tag only.
pub proof fn lemma_scan_skips_id3(tag: Seq<u8>, stream: Seq<u8>, budget: nat)
    requires
        tag.len() >= 10,
        has_id3_magic(tag),
        tag.len() == 10 + syncsafe_value(tag.subrange(6, 10)),
        !has_id3_magic(stream),
    ensures
        audio_start(tag + stream) == tag.len(),
        scanned_frames(tag + stream, budget) == scanned_frames(stream, budget),
        header_at(tag + stream, tag.len() as int) == header_at(stream, 0),
        header_at(stream, 0) is Some ==> first_frame_offset(tag + stream) == Some(tag.len() as int),
{
    assert((tag + stream).subrange(6, 10) =~= tag.subrange(6, 10));
    lemma_walk_shift(tag, stream, 0, budget);
    lemma_header_shift(tag, stream, 0);
}


/// Sum of the squares of the values of a sequence.
pub open spec fn total_squares(s: Seq<u32>) -> int
    decreases s.len(),
{
    if s.len() == 0 {
        0
    } else {
        total_squares(s.drop_last()) + s.last() * s.last()
    }
}

/// The coefficient of variation of the sizes, as a percentage, is above `pct`.
///
/// With `n` sizes of sum `S` and sum of squares `Q`, the mean is `S / n` and
/// the population variance `Q / n - (S / n)^2`. The coefficient of variation
/// `100 * stddev / mean` is above `pct` exactly when
/// `10000 * (n * Q - S * S) > pct^2 * S * S`. It counts as zero for an empty
/// list and for a mean of zero.
pub open spec fn cv_exceeds(sizes: Seq<u32>, pct: nat) -> bool {
    let n = sizes.len() as int;
    let sum = total(sizes);
    let squares = total_squares(sizes);
    n > 0 && sum > 0 && 10000 * (n * squares - sum * sum) > (pct * pct) * (sum * sum)
}

/// The largest frame size for which the variation is computed. Every size
/// that a scan records lies far below it.
pub const MAX_CV_SIZE: u32 = 0xFFFF;

/// No size is above `MAX_CV_SIZE`.
pub open spec fn sizes_bounded(sizes: Seq<u32>) -> bool {
    forall|i: int| 0 <= i < sizes.len() ==> #[trigger] sizes[i] <= MAX_CV_SIZE
}

impl FrameStats {
    /// Whether the coefficient of variation of the frame sizes is above
    /// `pct` percent.
    pub fn frame_size_cv_exceeds(&self, pct: u8) -> (r: bool)
        requires
            sizes_bounded(self.frame_sizes@),
        ensures
            r == cv_exceeds(self.frame_sizes@, pct as nat),
    {
        sizes_cv_exceeds(self.frame_sizes.as_slice(), pct)
    }
}

/// The comparison of `cv_exceeds`, taken apart so that no part of it grows
/// beyond 128 bits: with the sum as `n * q + r` and the square of `r` as
/// `n * a + b`, the difference of its two sides is `n * u - k * b`.
proof fn lemma_cv_stages(
    n: int,
    sum: int,
    squares: int,
    pp: int,
    k: int,
    q: int,
    r: int,
    a: int,
    b: int,
)
    requires
        sum == n * q + r,
        r * r == n * a + b,
        k == 10000 + pp,
    ensures
        10000 * (n * squares - sum * sum) - pp * (sum * sum) == n * (10000 * squares - ((k * q) * q)
            * n - (2 * (k * q)) * r - k * a) - k * b,
{
    let nq = n * q;
    assert(sum * sum == nq * nq + 2 * (nq * r) + r * r) by (nonlinear_arith)
        requires
            sum == nq + r,
    ;
    assert(nq * nq == n * ((q * q) * n)) by (nonlinear_arith)
        requires
            nq == n * q,
    ;
    assert(nq * r == n * (q * r)) by (nonlinear_arith)
        requires
            nq == n * q,
    ;
    let ss = sum * sum;
    let qqn = (q * q) * n;
    let qr = q * r;
    assert(ss == n * qqn + 2 * (n * qr) + n * a + b);
    assert(10000 * (n * squares - ss) - pp * ss == 10000 * (n * squares) - k * ss) by (nonlinear_arith)
        requires
            k == 10000 + pp,
    ;
    assert(k * ss == n * (k * qqn) + n * (2 * (k * qr)) + n * (k * a) + k * b) by (nonlinear_arith)
        requires
            ss == n * qqn + 2 * (n * qr) + n * a + b,
    ;
    assert(k * qqn == ((k * q) * q) * n) by (nonlinear_arith)
        requires
            qqn == (q * q) * n,
    ;
    assert(2 * (k * qr) == (2 * (k * q)) * r) by (nonlinear_arith)
        requires
            qr == q * r,
    ;
    let t2 = ((k * q) * q) * n;
    let t3 = (2 * (k * q)) * r;
    let t4 = k * a;
    assert(n * (10000 * squares - t2 - t3 - t4) == 10000 * (n * squares) - n * t2 - n * t3 - n * t4)
        by (nonlinear_arith);
}

/// Whether the coefficient of variation of the sizes is above `pct` percent,
/// computed exactly in integers, for a list of any length.
pub fn sizes_cv_exceeds(sizes: &[u32], pct: u8) -> (r: bool)
    requires
        sizes_bounded(sizes@),
    ensures
        r == cv_exceeds(sizes@, pct as nat),
{
    let n: usize = sizes.len();
    let mut sum: u128 = 0;
    let mut squares: u128 = 0;
    let mut i: usize = 0;
    while i < n
        invariant
            n == sizes@.len(),
            sizes_bounded(sizes@),
            i <= n,
            sum == total(sizes@.take(i as int)),
            squares == total_squares(sizes@.take(i as int)),
            sum <= i * 0xFFFF,
            squares <= i * 0xFFFE_0001,
        decreases n - i,
    {
        let x: u128 = sizes[i] as u128;
        assert(x * x <= 0xFFFE_0001) by (nonlinear_arith)
            requires
                x <= 0xFFFF,
        ;
        proof {
            assert(sizes@.take(i + 1).drop_last() =~= sizes@.take(i as int));
        }
        sum = sum + x;
        squares = squares + x * x;
        i = i + 1;
    }
    proof {
        assert(sizes@.take(n as int) =~= sizes@);
    }
    if n == 0 || sum == 0 {
        return false;
    }
    let count: u128 = n as u128;
    let percent: u128 = pct as u128;
    assert(percent * percent <= 65025) by (nonlinear_arith)
        requires
            percent <= 255,
    ;
    let k: u128 = 10000 + percent * percent;
    let q: u128 = sum / count;
    let r: u128 = sum % count;
    proof {
        vstd::arithmetic::div_mod::lemma_fundamental_div_mod(sum as int, count as int);
        assert(q <= 0xFFFF) by (nonlinear_arith)
            requires
                sum == count * q + r,
                0 <= r,
                sum <= count * 0xFFFF,
                count > 0,
        ;
        assert(r * r <= 0xFFFF_FFFF_FFFF_FFFF * 0xFFFF_FFFF_FFFF_FFFF) by (nonlinear_arith)
            requires
                0 <= r <= 0xFFFF_FFFF_FFFF_FFFF,
        ;
    }
    let rr: u128 = r * r;
    let a: u128 = rr / count;
    let b: u128 = rr % count;
    proof {
        vstd::arithmetic::div_mod::lemma_fundamental_div_mod(rr as int, count as int);
        assert(a <= r) by (nonlinear_arith)
            requires
                r * r == count * a + b,
                0 <= b,
                0 <= a,
                0 <= r < count,
        ;
        assert(k * q <= 75025 * 0xFFFF) by (nonlinear_arith)
            requires
                k <= 75025,
                q <= 0xFFFF,
        ;
        assert((k * q) * q <= 75025 * 0xFFFF * 0xFFFF) by (nonlinear_arith)
            requires
                k * q <= 75025 * 0xFFFF,
                q <= 0xFFFF,
        ;
        assert(((k * q) * q) * count <= 75025 * 0xFFFF * 0xFFFF * 0xFFFF_FFFF_FFFF_FFFF)
            by (nonlinear_arith)
            requires
                (k * q) * q <= 75025 * 0xFFFF * 0xFFFF,
                count <= 0xFFFF_FFFF_FFFF_FFFF,
        ;
        assert((2 * (k * q)) * r <= 2 * 75025 * 0xFFFF * 0xFFFF_FFFF_FFFF_FFFF) by (nonlinear_arith)
            requires
                k * q <= 75025 * 0xFFFF,
                r <= 0xFFFF_FFFF_FFFF_FFFF,
        ;
        assert(k * a <= 75025 * 0xFFFF_FFFF_FFFF_FFFF) by (nonlinear_arith)
            requires
                k <= 75025,
                a <= 0xFFFF_FFFF_FFFF_FFFF,
        ;
        assert(k * b <= 75025 * 0xFFFF_FFFF_FFFF_FFFF) by (nonlinear_arith)
            requires
                k <= 75025,
                b <= 0xFFFF_FFFF_FFFF_FFFF,
        ;
        lemma_cv_stages(
            count as int,
            sum as int,
            squares as int,
            (percent * percent) as int,
            k as int,
            q as int,
            r as int,
            a as int,
            b as int,
        );
    }
    let t1: u128 = 10000 * squares;
    let t2: u128 = ((k * q) * q) * count;
    let t3: u128 = (2 * (k * q)) * r;
    let t4: u128 = k * a;
    let u: i128 = t1 as i128 - t2 as i128 - t3 as i128 - t4 as i128;
    let limit: i128 = k as i128;
    let ghost gap = 10000 * (count * squares - sum * sum) - (pct * pct) * (sum * sum);
    assert(gap == count * u - k * b);
    if u <= 0 {
        assert(count * u <= 0) by (nonlinear_arith)
            requires
                count > 0,
                u <= 0,
        ;
        return false;
    }
    if u >= limit {
        assert(count * u > k * b) by (nonlinear_arith)
            requires
                count > b,
                b >= 0,
                u >= k,
                k > 0,
        ;
        return true;
    }
    assert(count * u <= 0xFFFF_FFFF_FFFF_FFFF * 75025) by (nonlinear_arith)
        requires
            0 < count <= 0xFFFF_FFFF_FFFF_FFFF,
            0 < u <= 75025,
    ;
    (count as i128) * u > (k * b) as i128
}

} // verus!
