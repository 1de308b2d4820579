//! The encoder's metadata: the Xing/Info header with the LAME tag, the
//! fingerprints of encoders, and the lowpass rules.
//!
//! An encoder removes what lies above a lowpass frequency, and the lower the
//! bitrate, the lower that frequency. LAME records it in its tag, where it
//! survives a later encoding at a higher bitrate.

use vstd::prelude::*;
use vstd::string::*;
use vstd::slice::slice_subrange;
use crate::text::{decimal_digits, latin_text, push_decimal, push_latin, text_of, utf8_text};

verus! {

/// The needle occurs in the haystack at `pos`.
pub open spec fn matches_at(hay: Seq<u8>, needle: Seq<u8>, pos: int) -> bool {
    0 <= pos && pos + needle.len() <= hay.len() && hay.subrange(pos, pos + needle.len()) == needle
}

/// The first place from `from` on at which the needle occurs in the haystack
/// and ends at `to` or before it.
pub open spec fn first_match(hay: Seq<u8>, needle: Seq<u8>, from: int, to: int) -> Option<int>
    decreases to - from + 1,
{
    if from < 0 || to > hay.len() || from + needle.len() > to {
        None
    } else if matches_at(hay, needle, from) {
        Some(from)
    } else {
        first_match(hay, needle, from + 1, to)
    }
}

/// The needle occurs somewhere in the haystack.
pub open spec fn occurs_in(hay: Seq<u8>, needle: Seq<u8>) -> bool {
    first_match(hay, needle, 0, hay.len() as int) is Some
}

/// What `first_match` finds is an occurrence with none before it, and where
/// it finds nothing there is none.
pub proof fn lemma_first_match(hay: Seq<u8>, needle: Seq<u8>, from: int, to: int)
    requires
        0 <= from,
        to <= hay.len(),
    ensures
        match first_match(hay, needle, from, to) {
            Some(p) => from <= p && p + needle.len() <= to && matches_at(hay, needle, p)
                && forall|q: int| from <= q < p ==> !matches_at(hay, needle, q),
            None => forall|q: int| from <= q && q + needle.len() <= to ==> !matches_at(hay, needle, q),
        },
    decreases to - from + 1,
{
    if from + needle.len() > to {
    } else if matches_at(hay, needle, from) {
    } else {
        lemma_first_match(hay, needle, from + 1, to);
    }
}

/// Compare the needle with the bytes at `pos`.
fn matches_here(hay: &[u8], needle: &[u8], pos: usize) -> (r: bool)
    requires
        pos + needle@.len() <= hay@.len(),
    ensures
        r == matches_at(hay@, needle@, pos as int),
{
    let m = needle.len();
    let n = hay.len();
    let mut k: usize = 0;
    while k < m
        invariant
            m == needle@.len(),
            n == hay@.len(),
            pos + m <= n,
            k <= m,
            forall|j: int| 0 <= j < k ==> hay@[pos + j] == needle@[j],
        decreases m - k,
    {
        if hay[pos + k] != needle[k] {
            assert(hay@.subrange(pos as int, pos + m)[k as int] != needle@[k as int]);
            return false;
        }
        k = k + 1;
    }
    assert(hay@.subrange(pos as int, pos + m) =~= needle@);
    true
}

/// Search a window of the haystack for the needle.
pub fn find_in(hay: &[u8], needle: &[u8], from: usize, to: usize) -> (r: Option<usize>)
    requires
        needle@.len() > 0,
        to <= hay@.len(),
    ensures
        match r {
            Some(p) => first_match(hay@, needle@, from as int, to as int) == Some(p as int),
            None => first_match(hay@, needle@, from as int, to as int) is None,
        },
{
    let m = needle.len();
    if from > to || m > to - from {
        return None;
    }
    let mut i: usize = from;
    while i <= to - m
        invariant
            m == needle@.len(),
            from <= i,
            0 < m <= to <= hay@.len(),
            first_match(hay@, needle@, from as int, to as int) == first_match(
                hay@,
                needle@,
                i as int,
                to as int,
            ),
        decreases to - i,
    {
        if matches_here(hay, needle, i) {
            return Some(i);
        }
        i = i + 1;
    }
    None
}

/// Find a byte pattern in a slice: the offset of its first occurrence.
pub fn find_pattern(haystack: &[u8], needle: &[u8]) -> (r: Option<usize>)
    requires
        needle@.len() > 0,
    ensures
        match r {
            Some(p) => first_match(haystack@, needle@, 0, haystack@.len() as int) == Some(p as int)
                && matches_at(haystack@, needle@, p as int) && forall|q: int|
                0 <= q < p ==> !matches_at(haystack@, needle@, q),
            None => !occurs_in(haystack@, needle@) && forall|q: int|
                !matches_at(haystack@, needle@, q),
        },
{
    proof {
        lemma_first_match(haystack@, needle@, 0, haystack@.len() as int);
    }
    find_in(haystack, needle, 0, haystack.len())
}

/// The lowpass frequency, in Hz, that an encoding at the bitrate should show.
pub open spec fn expected_lowpass(bitrate: u32) -> u32 {
    if bitrate >= 320 {
        20500
    } else if bitrate >= 256 {
        20000
    } else if bitrate >= 224 {
        19500
    } else if bitrate >= 192 {
        18500
    } else if bitrate >= 160 {
        17500
    } else if bitrate >= 128 {
        16000
    } else if bitrate >= 112 {
        15500
    } else if bitrate >= 96 {
        15000
    } else {
        14000
    }
}

/// The lowest lowpass frequency, in Hz, that is acceptable at the bitrate;
/// 0 where no lowpass is held against a file.
pub open spec fn minimum_lowpass(bitrate: u32) -> u32 {
    if bitrate >= 256 {
        18000
    } else if bitrate >= 192 {
        17000
    } else if bitrate >= 160 {
        16000
    } else if bitrate >= 128 {
        15000
    } else {
        0
    }
}

/// The lowpass is too low for the bitrate.
pub open spec fn lowpass_suspicious(bitrate: u32, actual_lowpass: u32) -> bool {
    minimum_lowpass(bitrate) > 0 && actual_lowpass > 0 && actual_lowpass < minimum_lowpass(bitrate)
}

/// The bitrate of the source that a lowpass points to.
pub open spec fn likely_source(actual_lowpass: u32) -> Seq<char> {
    if actual_lowpass <= 11000 {
        "64kbps or lower"@
    } else if actual_lowpass <= 14000 {
        "96kbps"@
    } else if actual_lowpass <= 16000 {
        "128kbps"@
    } else if actual_lowpass <= 17500 {
        "160kbps"@
    } else if actual_lowpass <= 18500 {
        "192kbps"@
    } else {
        "lower bitrate"@
    }
}

/// The sentence that explains a mismatch.
pub open spec fn mismatch_reason(actual_lowpass: u32) -> Seq<char> {
    "Lowpass "@ + decimal_digits(actual_lowpass as nat) + "Hz suggests transcode from "@
        + likely_source(actual_lowpass) + " source"@
}

/// Expected lowpass frequency for a bitrate in kbps.
pub fn expected_lowpass_for_bitrate(bitrate: u32) -> (r: u32)
    ensures
        r == expected_lowpass(bitrate),
{
    if bitrate >= 320 {
        20500
    } else if bitrate >= 256 {
        20000
    } else if bitrate >= 224 {
        19500
    } else if bitrate >= 192 {
        18500
    } else if bitrate >= 160 {
        17500
    } else if bitrate >= 128 {
        16000
    } else if bitrate >= 112 {
        15500
    } else if bitrate >= 96 {
        15000
    } else {
        14000
    }
}

/// Minimum acceptable lowpass frequency for a bitrate in kbps.
pub fn min_acceptable_lowpass(bitrate: u32) -> (r: u32)
    ensures
        r == minimum_lowpass(bitrate),
{
    if bitrate >= 256 {
        18000
    } else if bitrate >= 192 {
        17000
    } else if bitrate >= 160 {
        16000
    } else if bitrate >= 128 {
        15000
    } else {
        0
    }
}

/// The label of the likely source, as text.
pub fn likely_source_label(actual_lowpass: u32) -> (r: &'static str)
    ensures
        r@ == likely_source(actual_lowpass),
{
    if actual_lowpass <= 11000 {
        "64kbps or lower"
    } else if actual_lowpass <= 14000 {
        "96kbps"
    } else if actual_lowpass <= 16000 {
        "128kbps"
    } else if actual_lowpass <= 17500 {
        "160kbps"
    } else if actual_lowpass <= 18500 {
        "192kbps"
    } else {
        "lower bitrate"
    }
}

/// Check whether the lowpass frequency suggests transcoding.
///
/// Returns whether the lowpass is suspicious for the bitrate, the lowpass
/// that the bitrate lets one expect, and, exactly where it is suspicious, the
/// sentence that names the likely source.
pub fn check_lowpass_mismatch(bitrate: u32, actual_lowpass: u32) -> (r: (bool, u32, Option<String>))
    ensures
        r.0 == lowpass_suspicious(bitrate, actual_lowpass),
        r.1 == expected_lowpass(bitrate),
        r.0 ==> (r.2 matches Some(reason) && reason@ == mismatch_reason(actual_lowpass)),
        !r.0 ==> r.2 is None,
{
    let expected = expected_lowpass_for_bitrate(bitrate);
    let threshold = min_acceptable_lowpass(bitrate);
    if threshold > 0 && actual_lowpass > 0 && actual_lowpass < threshold {
        let mut reason = String::from_str("Lowpass ");
        push_decimal(&mut reason, actual_lowpass as u64);
        reason.append("Hz suggests transcode from ");
        reason.append(likely_source_label(actual_lowpass));
        reason.append(" source");
        (true, expected, Some(reason))
    } else {
        (false, expected, None)
    }
}


/// What the Xing/Info header and the LAME tag of the first frame tell.
#[derive(Debug, Clone)]
pub struct LameHeader {
    /// Encoder version, such as "LAME3.100".
    pub encoder: String,
    /// Lowpass frequency in Hz.
    pub lowpass: Option<u32>,
    /// VBR method, 0 to 15.
    pub vbr_method: Option<u8>,
    /// Encoding quality, 0 to 15.
    pub quality: Option<u8>,
    /// The header's marker was "Xing" (variable bitrate), not "Info".
    pub is_vbr_header: bool,
    /// Number of frames that the header reports.
    pub total_frames: Option<u32>,
    /// Number of bytes that the header reports.
    pub total_bytes: Option<u32>,
}

/// The mathematical content of a `LameHeader`.
pub struct LameInfo {
    pub encoder: Seq<char>,
    pub lowpass: Option<u32>,
    pub vbr_method: Option<u8>,
    pub quality: Option<u8>,
    pub is_vbr_header: bool,
    pub total_frames: Option<u32>,
    pub total_bytes: Option<u32>,
}

impl View for LameHeader {
    type V = LameInfo;

    open spec fn view(&self) -> LameInfo {
        LameInfo {
            encoder: self.encoder@,
            lowpass: self.lowpass,
            vbr_method: self.vbr_method,
            quality: self.quality,
            is_vbr_header: self.is_vbr_header,
            total_frames: self.total_frames,
            total_bytes: self.total_bytes,
        }
    }
}

/// The content of a header that may be absent.
pub open spec fn info_of(lame: Option<LameHeader>) -> Option<LameInfo> {
    match lame {
        Some(h) => Some(h@),
        None => None,
    }
}

impl LameHeader {
    /// A lowpass, where there is one, lies between 5000 and 22000 Hz.
    pub open spec fn wf(&self) -> bool {
        self.lowpass matches Some(hz) ==> 5000 <= hz <= 22000
    }
}

impl Default for LameHeader {
    fn default() -> (r: Self)
        ensures
            r@ == blank_info(false),
            r.wf(),
    {
        LameHeader {
            encoder: String::new(),
            lowpass: None,
            vbr_method: None,
            quality: None,
            is_vbr_header: false,
            total_frames: None,
            total_bytes: None,
        }
    }
}

/// A header of which nothing but the kind of its marker is known.
pub open spec fn blank_info(is_vbr_header: bool) -> LameInfo {
    LameInfo {
        encoder: Seq::empty(),
        lowpass: None,
        vbr_method: None,
        quality: None,
        is_vbr_header,
        total_frames: None,
        total_bytes: None,
    }
}

/// The header is looked for in this many bytes at the start of the file.
pub const SEARCH_WINDOW: usize = 2048;

/// Without a Xing/Info header, the LAME tag is looked for in this many bytes.
pub const FALLBACK_WINDOW: usize = 500;

/// Behind the Xing/Info header, the encoder's tag is looked for in this many
/// bytes.
pub const TAG_SEARCH_SPAN: usize = 50;

/// The ASCII letters "Xing".
pub open spec fn marker_xing() -> Seq<u8> {
    seq![0x58u8, 0x69, 0x6E, 0x67]
}

/// The ASCII letters "Info".
pub open spec fn marker_info() -> Seq<u8> {
    seq![0x49u8, 0x6E, 0x66, 0x6F]
}

/// The ASCII letters "LAME".
pub open spec fn marker_lame() -> Seq<u8> {
    seq![0x4Cu8, 0x41, 0x4D, 0x45]
}

/// The ASCII letters "Lavc".
pub open spec fn marker_lavc() -> Seq<u8> {
    seq![0x4Cu8, 0x61, 0x76, 0x63]
}

fn xing_bytes() -> (r: [u8; 4])
    ensures
        r@ == marker_xing(),
{
    let r: [u8; 4] = [0x58, 0x69, 0x6E, 0x67];
    assert(r@ =~= marker_xing());
    r
}

fn info_bytes() -> (r: [u8; 4])
    ensures
        r@ == marker_info(),
{
    let r: [u8; 4] = [0x49, 0x6E, 0x66, 0x6F];
    assert(r@ =~= marker_info());
    r
}

fn lame_bytes() -> (r: [u8; 4])
    ensures
        r@ == marker_lame(),
{
    let r: [u8; 4] = [0x4C, 0x41, 0x4D, 0x45];
    assert(r@ =~= marker_lame());
    r
}

fn lavc_bytes() -> (r: [u8; 4])
    ensures
        r@ == marker_lavc(),
{
    let r: [u8; 4] = [0x4C, 0x61, 0x76, 0x63];
    assert(r@ =~= marker_lavc());
    r
}

/// The first bytes of the file, in which the header is looked for.
pub open spec fn search_region(data: Seq<u8>) -> Seq<u8> {
    if data.len() <= SEARCH_WINDOW {
        data
    } else {
        data.take(SEARCH_WINDOW as int)
    }
}

/// The big-endian number in the four bytes at `at`.
pub open spec fn be32(b: Seq<u8>, at: int) -> int {
    b[at] * 0x100_0000 + b[at + 1] * 0x1_0000 + b[at + 2] * 0x100 + b[at + 3]
}

/// The fields of a Xing/Info header, and where they end.
pub struct XingFields {
    pub total_frames: Option<u32>,
    pub total_bytes: Option<u32>,
    /// Offset behind the last field.
    pub end: int,
}

/// The fields behind the marker at `pos`, of which at least the flags lie in
/// the region. The flags say which fields follow: bit 0 the number of frames,
/// bit 1 the number of bytes, bit 2 a table of contents of 100 bytes, bit 3 a
/// quality of four bytes. A count that would reach beyond the region is
/// absent and takes no room.
pub open spec fn xing_fields(region: Seq<u8>, pos: int) -> XingFields {
    let flags = be32(region, pos + 4) as u32;
    let at_frames = pos + 8;
    let has_frames = flags & 0x01 != 0 && at_frames + 4 <= region.len();
    let at_bytes = if has_frames {
        at_frames + 4
    } else {
        at_frames
    };
    let has_bytes = flags & 0x02 != 0 && at_bytes + 4 <= region.len();
    let at_toc = if has_bytes {
        at_bytes + 4
    } else {
        at_bytes
    };
    let at_quality = if flags & 0x04 != 0 {
        at_toc + 100
    } else {
        at_toc
    };
    let end = if flags & 0x08 != 0 {
        at_quality + 4
    } else {
        at_quality
    };
    XingFields {
        total_frames: if has_frames {
            Some(be32(region, at_frames) as u32)
        } else {
            None
        },
        total_bytes: if has_bytes {
            Some(be32(region, at_bytes) as u32)
        } else {
            None
        },
        end,
    }
}

/// The bytes without the zero bytes at their end.
pub open spec fn strip_trailing_nuls(b: Seq<u8>) -> Seq<u8>
    decreases b.len(),
{
    if b.len() > 0 && b.last() == 0 {
        strip_trailing_nuls(b.drop_last())
    } else {
        b
    }
}

/// The encoder's name: the `width` bytes at `pos`, or as many as the region
/// has, without the zero bytes at their end, as text. Bytes that are not
/// valid UTF-8 give the empty name.
pub open spec fn tag_text(region: Seq<u8>, pos: int, width: int) -> Seq<char> {
    let end = if pos + width <= region.len() {
        pos + width
    } else {
        region.len() as int
    };
    text_of(strip_trailing_nuls(region.subrange(pos, end)))
}

/// The lowpass of the LAME tag at `pos`: the byte at offset 10 holds it in
/// units of 100 Hz, and counts only from 50 to 220.
pub open spec fn lowpass_at(region: Seq<u8>, pos: int) -> Option<u32> {
    if pos + 10 < region.len() && 50 <= region[pos + 10] <= 220 {
        Some((region[pos + 10] * 100) as u32)
    } else {
        None
    }
}

/// The VBR method of the LAME tag at `pos`: the low four bits of the byte at
/// offset 9.
pub open spec fn vbr_method_at(region: Seq<u8>, pos: int) -> Option<u8> {
    if pos + 9 < region.len() {
        Some(region[pos + 9] & 0x0F)
    } else {
        None
    }
}

/// The quality of the LAME tag at `pos`: the high four bits of the byte at
/// offset 9.
pub open spec fn quality_at(region: Seq<u8>, pos: int) -> Option<u8> {
    if pos + 9 < region.len() {
        Some((region[pos + 9] >> 4) & 0x0F)
    } else {
        None
    }
}

/// What a region without a Xing/Info marker tells: a LAME tag that begins
/// and ends in its first bytes gives the encoder and the lowpass, and
/// without one there is nothing.
pub open spec fn extract_fallback(region: Seq<u8>) -> Option<LameInfo> {
    let to = if region.len() <= FALLBACK_WINDOW {
        region.len() as int
    } else {
        FALLBACK_WINDOW as int
    };
    match first_match(region, marker_lame(), 0, to) {
        Some(p) => Some(
            LameInfo {
                encoder: tag_text(region, p, 9),
                lowpass: lowpass_at(region, p),
                vbr_method: None,
                quality: None,
                is_vbr_header: false,
                total_frames: None,
                total_bytes: None,
            },
        ),
        None => None,
    }
}

/// What the region tells behind the marker at `pos`, whose flags lie in the
/// region: the counts of the Xing/Info header, and the encoder's tag if
/// "LAME" or, failing that, "Lavc" begins and ends within the next bytes.
/// Without such a tag the header has no encoder and no lowpass.
pub open spec fn extract_at_marker(region: Seq<u8>, pos: int, is_vbr_header: bool) -> LameInfo {
    let fields = xing_fields(region, pos);
    let to = if fields.end + TAG_SEARCH_SPAN <= region.len() {
        fields.end + TAG_SEARCH_SPAN
    } else {
        region.len() as int
    };
    let known = LameInfo {
        encoder: Seq::empty(),
        lowpass: None,
        vbr_method: None,
        quality: None,
        is_vbr_header,
        total_frames: fields.total_frames,
        total_bytes: fields.total_bytes,
    };
    match first_match(region, marker_lame(), fields.end, to) {
        Some(p) => LameInfo {
            encoder: tag_text(region, p, 9),
            lowpass: lowpass_at(region, p),
            vbr_method: vbr_method_at(region, p),
            quality: quality_at(region, p),
            is_vbr_header,
            total_frames: fields.total_frames,
            total_bytes: fields.total_bytes,
        },
        None => match first_match(region, marker_lavc(), fields.end, to) {
            Some(p) => LameInfo {
                encoder: tag_text(region, p, 12),
                lowpass: None,
                vbr_method: None,
                quality: None,
                is_vbr_header,
                total_frames: fields.total_frames,
                total_bytes: fields.total_bytes,
            },
            None => known,
        },
    }
}

/// What the start of a file tells about its encoder. The marker is the first
/// "Xing" in the region, or, where there is none, the first "Info". A marker
/// whose flags lie beyond the region gives a header of which only the kind
/// is known. Only without a marker is a LAME tag looked for near the start.
pub open spec fn extract_info(data: Seq<u8>) -> Option<LameInfo> {
    let region = search_region(data);
    let xing = first_match(region, marker_xing(), 0, region.len() as int);
    let info = first_match(region, marker_info(), 0, region.len() as int);
    let marker = if xing is Some {
        xing
    } else {
        info
    };
    match marker {
        Some(pos) => if pos + 8 <= region.len() {
            Some(extract_at_marker(region, pos, xing is Some))
        } else {
            Some(blank_info(xing is Some))
        },
        None => extract_fallback(region),
    }
}

/// Read a big-endian number of four bytes.
fn read_be32(region: &[u8], at: usize) -> (r: u32)
    requires
        at + 4 <= region@.len(),
    ensures
        r == be32(region@, at as int),
{
    let b0: u32 = region[at] as u32;
    let b1: u32 = region[at + 1] as u32;
    let b2: u32 = region[at + 2] as u32;
    let b3: u32 = region[at + 3] as u32;
    b0 * 0x100_0000 + b1 * 0x1_0000 + b2 * 0x100 + b3
}

/// Read the encoder's name at `pos`.
fn read_tag_text(region: &[u8], pos: usize, width: usize) -> (r: String)
    requires
        pos <= region@.len() <= SEARCH_WINDOW,
        width <= 12,
    ensures
        r@ == tag_text(region@, pos as int, width as int),
{
    let end: usize = if pos + width <= region.len() {
        pos + width
    } else {
        region.len()
    };
    let mut stop: usize = end;
    while stop > pos && region[stop - 1] == 0
        invariant
            pos <= stop <= end <= region@.len(),
            strip_trailing_nuls(region@.subrange(pos as int, end as int)) == strip_trailing_nuls(
                region@.subrange(pos as int, stop as int),
            ),
        decreases stop,
    {
        assert(region@.subrange(pos as int, stop as int).drop_last() =~= region@.subrange(
            pos as int,
            stop - 1,
        ));
        stop = stop - 1;
    }
    match utf8_text(slice_subrange(region, pos, stop)) {
        Some(text) => text,
        None => String::new(),
    }
}

/// Read the lowpass of the LAME tag at `pos`.
fn read_lowpass(region: &[u8], pos: usize) -> (r: Option<u32>)
    requires
        pos <= region@.len() <= SEARCH_WINDOW,
    ensures
        r == lowpass_at(region@, pos as int),
        r matches Some(hz) ==> 5000 <= hz <= 22000,
{
    if pos + 10 < region.len() {
        let b: u8 = region[pos + 10];
        if b >= 50 && b <= 220 {
            return Some(b as u32 * 100);
        }
    }
    None
}

/// Look for a LAME tag near the start of a region without a marker.
fn extract_from_region(region: &[u8]) -> (r: Option<LameHeader>)
    requires
        region@.len() <= SEARCH_WINDOW,
    ensures
        match r {
            Some(h) => extract_fallback(region@) == Some(h@) && h.wf(),
            None => extract_fallback(region@) is None,
        },
{
    let to: usize = if region.len() <= FALLBACK_WINDOW {
        region.len()
    } else {
        FALLBACK_WINDOW
    };
    let lame = lame_bytes();
    match find_in(region, lame.as_slice(), 0, to) {
        Some(p) => {
            proof {
                lemma_first_match(region@, marker_lame(), 0, to as int);
            }
            let encoder = read_tag_text(region, p, 9);
            let lowpass = read_lowpass(region, p);
            Some(
                LameHeader {
                    encoder,
                    lowpass,
                    vbr_method: None,
                    quality: None,
                    is_vbr_header: false,
                    total_frames: None,
                    total_bytes: None,
                },
            )
        },
        None => None,
    }
}

/// Read the Xing/Info header at `pos` and the encoder's tag behind it.
fn extract_behind_marker(region: &[u8], pos: usize, is_vbr_header: bool) -> (r: LameHeader)
    requires
        region@.len() <= SEARCH_WINDOW,
        pos + 8 <= region@.len(),
    ensures
        r@ == extract_at_marker(region@, pos as int, is_vbr_header),
        r.wf(),
{
    let len = region.len();
    let flags = read_be32(region, pos + 4);
    let mut offset: usize = pos + 8;
    let mut total_frames: Option<u32> = None;
    let mut total_bytes: Option<u32> = None;
    if flags & 0x01 != 0 && offset + 4 <= len {
        total_frames = Some(read_be32(region, offset));
        offset = offset + 4;
    }
    if flags & 0x02 != 0 && offset + 4 <= len {
        total_bytes = Some(read_be32(region, offset));
        offset = offset + 4;
    }
    if flags & 0x04 != 0 {
        offset = offset + 100;
    }
    if flags & 0x08 != 0 {
        offset = offset + 4;
    }
    assert(offset == xing_fields(region@, pos as int).end);
    let to: usize = if offset + TAG_SEARCH_SPAN <= len {
        offset + TAG_SEARCH_SPAN
    } else {
        len
    };
    let lame = lame_bytes();
    let lavc = lavc_bytes();
    if let Some(p) = find_in(region, lame.as_slice(), offset, to) {
        proof {
            lemma_first_match(region@, marker_lame(), offset as int, to as int);
        }
        let encoder = read_tag_text(region, p, 9);
        let lowpass = read_lowpass(region, p);
        let mut vbr_method: Option<u8> = None;
        let mut quality: Option<u8> = None;
        if p + 9 < len {
            let b: u8 = region[p + 9];
            vbr_method = Some(b & 0x0F);
            quality = Some((b >> 4) & 0x0F);
        }
        return LameHeader {
            encoder,
            lowpass,
            vbr_method,
            quality,
            is_vbr_header,
            total_frames,
            total_bytes,
        };
    }
    if let Some(p) = find_in(region, lavc.as_slice(), offset, to) {
        proof {
            lemma_first_match(region@, marker_lavc(), offset as int, to as int);
        }
        let encoder = read_tag_text(region, p, 12);
        return LameHeader {
            encoder,
            lowpass: None,
            vbr_method: None,
            quality: None,
            is_vbr_header,
            total_frames,
            total_bytes,
        };
    }
    LameHeader {
        encoder: String::new(),
        lowpass: None,
        vbr_method: None,
        quality: None,
        is_vbr_header,
        total_frames,
        total_bytes,
    }
}

impl LameHeader {
    /// Read the Xing/Info header and the encoder's tag from the start of a
    /// file.
    ///
    /// Only the first 2048 bytes are looked at. The result is exactly
    /// `extract_info`: there is a header if a "Xing" or "Info" marker occurs
    /// there, and its fields are what the bytes behind the marker hold; a
    /// field that would lie beyond the region is absent. Without a marker
    /// there is a header only if "LAME" occurs within the first 500 bytes.
    pub fn extract(data: &[u8]) -> (r: Option<LameHeader>)
        ensures
            match r {
                Some(h) => extract_info(data@) == Some(h@) && h.wf(),
                None => extract_info(data@) is None,
            },
    {
        let region: &[u8] = if data.len() <= SEARCH_WINDOW {
            data
        } else {
            slice_subrange(data, 0, SEARCH_WINDOW)
        };
        assert(region@ =~= search_region(data@));
        let len = region.len();
        let xing = xing_bytes();
        let info = info_bytes();
        let xing_pos = find_in(region, xing.as_slice(), 0, len);
        let info_pos = find_in(region, info.as_slice(), 0, len);
        let is_vbr_header = xing_pos.is_some();
        let marker = if is_vbr_header {
            xing_pos
        } else {
            info_pos
        };
        match marker {
            Some(pos) => {
                if pos <= len && len - pos >= 8 {
                    Some(extract_behind_marker(region, pos, is_vbr_header))
                } else {
                    let mut known = LameHeader::default();
                    known.is_vbr_header = is_vbr_header;
                    Some(known)
                }
            },
            None => extract_from_region(region),
        }
    }
}


/// The ASCII letters "Fraunhofer".
pub open spec fn marker_fraunhofer() -> Seq<u8> {
    seq![0x46u8, 0x72, 0x61, 0x75, 0x6E, 0x68, 0x6F, 0x66, 0x65, 0x72]
}

fn fraunhofer_bytes() -> (r: [u8; 10])
    ensures
        r@ == marker_fraunhofer(),
{
    let r: [u8; 10] = [0x46, 0x72, 0x61, 0x75, 0x6E, 0x68, 0x6F, 0x66, 0x65, 0x72];
    assert(r@ =~= marker_fraunhofer());
    r
}

/// The ASCII letters "FhG".
pub open spec fn marker_fhg() -> Seq<u8> {
    seq![0x46u8, 0x68, 0x47]
}

fn fhg_bytes() -> (r: [u8; 3])
    ensures
        r@ == marker_fhg(),
{
    let r: [u8; 3] = [0x46, 0x68, 0x47];
    assert(r@ =~= marker_fhg());
    r
}

/// The ASCII letters "iTunes".
pub open spec fn marker_itunes() -> Seq<u8> {
    seq![0x69u8, 0x54, 0x75, 0x6E, 0x65, 0x73]
}

fn itunes_bytes() -> (r: [u8; 6])
    ensures
        r@ == marker_itunes(),
{
    let r: [u8; 6] = [0x69, 0x54, 0x75, 0x6E, 0x65, 0x73];
    assert(r@ =~= marker_itunes());
    r
}

/// The ASCII letters "Lavf".
pub open spec fn marker_lavf() -> Seq<u8> {
    seq![0x4Cu8, 0x61, 0x76, 0x66]
}

fn lavf_bytes() -> (r: [u8; 4])
    ensures
        r@ == marker_lavf(),
{
    let r: [u8; 4] = [0x4C, 0x61, 0x76, 0x66];
    assert(r@ =~= marker_lavf());
    r
}

/// The ASCII letters "Apple".
pub open spec fn marker_apple() -> Seq<u8> {
    seq![0x41u8, 0x70, 0x70, 0x6C, 0x65]
}

fn apple_bytes() -> (r: [u8; 5])
    ensures
        r@ == marker_apple(),
{
    let r: [u8; 5] = [0x41, 0x70, 0x70, 0x6C, 0x65];
    assert(r@ =~= marker_apple());
    r
}

/// The ASCII letters "libmp3lame".
pub open spec fn marker_libmp3lame() -> Seq<u8> {
    seq![0x6Cu8, 0x69, 0x62, 0x6D, 0x70, 0x33, 0x6C, 0x61, 0x6D, 0x65]
}

fn libmp3lame_bytes() -> (r: [u8; 10])
    ensures
        r@ == marker_libmp3lame(),
{
    let r: [u8; 10] = [0x6C, 0x69, 0x62, 0x6D, 0x70, 0x33, 0x6C, 0x61, 0x6D, 0x65];
    assert(r@ =~= marker_libmp3lame());
    r
}

/// The fingerprints of encoders that were found in a file.
#[derive(Debug, Clone)]
pub struct EncoderSignatures {
    /// The version that follows the letters "LAME", with them.
    pub lame: Option<String>,
    pub fraunhofer: bool,
    pub itunes: bool,
    pub ffmpeg: bool,
    pub xing: bool,
    pub other: Vec<String>,
}

/// The mathematical content of `EncoderSignatures`, without the list of
/// other encoders.
pub struct SignatureInfo {
    pub lame: Option<Seq<char>>,
    pub fraunhofer: bool,
    pub itunes: bool,
    pub ffmpeg: bool,
    pub xing: bool,
}

impl View for EncoderSignatures {
    type V = SignatureInfo;

    open spec fn view(&self) -> SignatureInfo {
        SignatureInfo {
            lame: match self.lame {
                Some(version) => Some(version@),
                None => None,
            },
            fraunhofer: self.fraunhofer,
            itunes: self.itunes,
            ffmpeg: self.ffmpeg,
            xing: self.xing,
        }
    }
}

/// The number of different encoders among the fingerprints: LAME,
/// Fraunhofer, iTunes and FFmpeg count, a Xing/Info header does not.
pub open spec fn encoder_count(info: SignatureInfo) -> nat {
    let lame: nat = if info.lame is Some {
        1
    } else {
        0
    };
    let fraunhofer: nat = if info.fraunhofer {
        1
    } else {
        0
    };
    let itunes: nat = if info.itunes {
        1
    } else {
        0
    };
    let ffmpeg: nat = if info.ffmpeg {
        1
    } else {
        0
    };
    lame + fraunhofer + itunes + ffmpeg
}

impl EncoderSignatures {
    /// A LAME version, where there is one, is not empty.
    pub open spec fn wf(&self) -> bool {
        self.lame matches Some(version) ==> version@.len() > 0
    }

    /// The number of different encoders among the fingerprints.
    pub fn distinct_encoders(&self) -> (r: usize)
        ensures
            r == encoder_count(self@),
    {
        let mut count: usize = 0;
        if self.lame.is_some() {
            count = count + 1;
        }
        if self.fraunhofer {
            count = count + 1;
        }
        if self.itunes {
            count = count + 1;
        }
        if self.ffmpeg {
            count = count + 1;
        }
        count
    }
}

impl Default for EncoderSignatures {
    fn default() -> (r: Self)
        ensures
            r@ == (SignatureInfo {
                lame: None,
                fraunhofer: false,
                itunes: false,
                ffmpeg: false,
                xing: false,
            }),
            r.other@.len() == 0,
            r.wf(),
    {
        EncoderSignatures {
            lame: None,
            fraunhofer: false,
            itunes: false,
            ffmpeg: false,
            xing: false,
            other: Vec::new(),
        }
    }
}

/// Fingerprints are looked for in this many bytes at the start of the file.
pub const SIGNATURE_WINDOW: usize = 65536;

/// A LAME version is at most this many bytes long, its four letters included.
pub const VERSION_SPAN: usize = 20;

/// The first bytes of the file, in which fingerprints are looked for.
pub open spec fn signature_window(data: Seq<u8>) -> Seq<u8> {
    if data.len() <= SIGNATURE_WINDOW {
        data
    } else {
        data.take(SIGNATURE_WINDOW as int)
    }
}

/// A byte of a version: an ASCII letter or digit, a dot or a hyphen.
pub open spec fn is_version_byte(b: u8) -> bool {
    (0x30 <= b <= 0x39) || (0x41 <= b <= 0x5A) || (0x61 <= b <= 0x7A) || b == 0x2E || b == 0x2D
}

/// Where the run of version bytes that begins at `from` ends, at `to` at the
/// latest.
pub open spec fn version_end(window: Seq<u8>, from: int, to: int) -> int
    decreases to - from,
{
    if from < to && is_version_byte(window[from]) {
        version_end(window, from + 1, to)
    } else {
        from
    }
}

/// The LAME version in the window: behind the first "LAME", the longest run
/// of version bytes within 20 bytes, the four letters included.
pub open spec fn lame_version(window: Seq<u8>) -> Option<Seq<char>> {
    match first_match(window, marker_lame(), 0, window.len() as int) {
        Some(p) => {
            let to = if p + VERSION_SPAN <= window.len() {
                p + VERSION_SPAN
            } else {
                window.len() as int
            };
            let end = version_end(window, p, to);
            if end > p {
                Some(latin_text(window.subrange(p, end)))
            } else {
                None
            }
        },
        None => None,
    }
}

/// The fingerprints in the start of a file.
pub open spec fn signature_info(data: Seq<u8>) -> SignatureInfo {
    let window = signature_window(data);
    SignatureInfo {
        lame: lame_version(window),
        fraunhofer: occurs_in(window, marker_fraunhofer()) || occurs_in(window, marker_fhg()),
        itunes: occurs_in(window, marker_itunes()) || (occurs_in(window, marker_lavf())
            && occurs_in(window, marker_apple())),
        ffmpeg: occurs_in(window, marker_lavf()) || occurs_in(window, marker_libmp3lame()),
        xing: occurs_in(window, marker_xing()) || occurs_in(window, marker_info()),
    }
}

/// Whether the needle occurs in the window.
fn occurs(window: &[u8], needle: &[u8]) -> (r: bool)
    requires
        needle@.len() > 0,
    ensures
        r == occurs_in(window@, needle@),
{
    find_in(window, needle, 0, window.len()).is_some()
}

/// Whether the byte may stand in a version.
fn version_byte(b: u8) -> (r: bool)
    ensures
        r == is_version_byte(b),
{
    (0x30 <= b && b <= 0x39) || (0x41 <= b && b <= 0x5A) || (0x61 <= b && b <= 0x7A) || b == 0x2E
        || b == 0x2D
}

/// Read the version behind the first "LAME" in the window.
fn read_lame_version(window: &[u8]) -> (r: Option<String>)
    ensures
        match r {
            Some(version) => lame_version(window@) == Some(version@) && version@.len() > 0,
            None => lame_version(window@) is None,
        },
{
    let len = window.len();
    let lame = lame_bytes();
    match find_in(window, lame.as_slice(), 0, len) {
        Some(p) => {
            proof {
                lemma_first_match(window@, marker_lame(), 0, len as int);
            }
            let to: usize = if len - p >= VERSION_SPAN {
                p + VERSION_SPAN
            } else {
                len
            };
            let mut end: usize = p;
            while end < to && version_byte(window[end])
                invariant
                    p <= end <= to <= window@.len(),
                    version_end(window@, p as int, to as int) == version_end(
                        window@,
                        end as int,
                        to as int,
                    ),
                decreases to - end,
            {
                end = end + 1;
            }
            if end > p {
                let mut version = String::new();
                push_latin(&mut version, window, p, end);
                Some(version)
            } else {
                None
            }
        },
        None => None,
    }
}

/// Scan the start of a file for the fingerprints of encoders.
///
/// Only the first 65536 bytes are looked at. The result is exactly
/// `signature_info`; the list of other encoders is empty.
pub fn scan_encoder_signatures(data: &[u8]) -> (r: EncoderSignatures)
    ensures
        r@ == signature_info(data@),
        r.other@.len() == 0,
        r.wf(),
{
    let window: &[u8] = if data.len() <= SIGNATURE_WINDOW {
        data
    } else {
        slice_subrange(data, 0, SIGNATURE_WINDOW)
    };
    assert(window@ =~= signature_window(data@));
    let lame = read_lame_version(window);
    let has_lavf = occurs(window, lavf_bytes().as_slice());
    let fraunhofer = occurs(window, fraunhofer_bytes().as_slice()) || occurs(
        window,
        fhg_bytes().as_slice(),
    );
    let itunes = occurs(window, itunes_bytes().as_slice()) || (has_lavf && occurs(
        window,
        apple_bytes().as_slice(),
    ));
    let ffmpeg = has_lavf || occurs(window, libmp3lame_bytes().as_slice());
    let xing = occurs(window, xing_bytes().as_slice()) || occurs(window, info_bytes().as_slice());
    EncoderSignatures { lame, fraunhofer, itunes, ffmpeg, xing, other: Vec::new() }
}

/// Count the different encoders whose fingerprints the start of a file holds.
pub fn count_encoder_signatures(data: &[u8]) -> (r: usize)
    ensures
        r == encoder_count(signature_info(data@)),
        r <= 4,
{
    scan_encoder_signatures(data).distinct_encoders()
}

} // verus!
